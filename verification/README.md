# course2md desktop

The decisions of a desktop application that turns course videos into notes, written
and proved with Verus. The library holds states, rules and texts; whatever touches
windows, processes, files or the network is left to the application around it.

## Layout

- `src/` is the verified library.
  - `text`, `table`, `json`: strings, keyed tables and JSON documents.
  - `workspace`: sources, options, drafts, tasks and libraries.
  - `conversion`, `subtitles`, `workbench`, `workbench_page`, `workbench_options`,
    `workbench_views`, `fields`: from a link to a submitted conversion.
  - `input_task`, `follow`, `reader`, `jobs`, `process`: what became of a conversion,
    which result opens by itself, and the engine's process.
  - `notes`, `library_scan`, `library_page`, `library_views`, `course_library`,
    `recent_notes`, `folders`, `folder_views`, `folder_export`, `export_views`, `lists`:
    notes, their libraries and folders, and exports.
  - `account`, `account_views`, `credentials`, `redaction`, `bounded_http`: logins,
    secrets, and what must not be shown of them.
  - `environment`, `model_diagnostics`, `model_panels`: tools, devices and models.
  - `choice_group`, `appearance`, `assets`: controls, themes and icons.
- `tests/` runs the library on concrete values.
- `app/` is ordinary Rust around the library: the engine's process, files, credentials
  on disk, requests, and sizes on the screen.

Paths reach the library as texts that their components make up, without separators at
the end or twice in a row, so that equal paths are equal texts; `app/paths.rs` does that.

## What is trusted

A few functions of `serde_json`, `uuid`, `zeroize` and the standard library stand
behind contracts that are believed and not proved. Each names the function it calls
and says what is claimed of it; they are in `text`, `json`, `redaction`, `credentials`
and `conversion`.
