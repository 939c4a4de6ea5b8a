//! The decisions of the course2md desktop application, verified.
//!
//! Windows, processes, files and the network stay with the application; every
//! rule that picks a state, a message or a next step lives here, with a contract.
pub mod table;
pub mod text;
pub mod json;
pub mod redaction;
pub mod workspace;
pub mod input_task;
pub mod follow;
pub mod environment;
pub mod conversion;
pub mod subtitles;
pub mod workbench;
pub mod fields;
pub mod folder_export;
pub mod export_views;
pub mod credentials;
pub mod account;
pub mod account_views;
pub mod choice_group;
pub mod assets;
pub mod bounded_http;
pub mod appearance;
pub mod course_library;
pub mod notes;
pub mod library_page;
pub mod library_views;
pub mod recent_notes;
pub mod folders;
pub mod folder_views;
pub mod model_diagnostics;
pub mod model_panels;
pub mod workbench_page;
pub mod workbench_options;
pub mod workbench_views;
pub mod lists;
pub mod reader;
pub mod jobs;
pub mod process;
pub mod library_scan;
