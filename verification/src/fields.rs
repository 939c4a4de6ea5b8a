//! The text fields of the application: what they hold at first, and what an edit or
//! the enter key leads to.
use crate::folders::{find_id, library_with_id};
use crate::text::{begins, same, starts_with};
use crate::workspace::{is_text, text_of, LibraryLocation, Page};
use vstd::prelude::*;

verus! {

/// A text field.
#[derive(Clone, Copy, Debug, PartialEq, Eq, Structural)]
pub enum Field {
    Source,
    Title,
    FolderName,
    Output,
    Search,
    AsrUrl,
    AsrKey,
    AsrModel,
    LlmUrl,
    LlmKey,
    LlmModel,
}

/// What the settings say of the services.
pub struct ServiceFields {
    pub asr_url: String,
    pub asr_key: String,
    pub asr_model: String,
    pub llm_url: String,
    pub llm_key: String,
    pub llm_model: String,
}

/// A field as it is set up.
pub struct FieldSetup {
    pub field: Field,
    pub placeholder: &'static str,
    pub value: String,
    pub masked: bool,
}

/// The fields, in the order in which they are set up.
pub open spec fn all_fields() -> Seq<Field> {
    seq![
        Field::Source,
        Field::Title,
        Field::Output,
        Field::Search,
        Field::FolderName,
        Field::AsrUrl,
        Field::AsrKey,
        Field::AsrModel,
        Field::LlmUrl,
        Field::LlmKey,
        Field::LlmModel,
    ]
}

pub open spec fn placeholder_of(field: Field) -> Seq<char> {
    match field {
        Field::Source => "粘贴 YouTube 或 Bilibili 视频链接"@,
        Field::Output => "课程笔记保存位置"@,
        Field::Search => "搜索笔记标题"@,
        Field::FolderName => "文件夹名称"@,
        Field::AsrKey | Field::LlmKey => "API Key"@,
        Field::AsrModel => "转写模型"@,
        Field::LlmModel => "模型名称"@,
        Field::Title | Field::AsrUrl | Field::LlmUrl => ""@,
    }
}

/// What a field holds at first.
pub open spec fn first_value(field: Field, output: Seq<char>, services: ServiceFields) -> Seq<char> {
    match field {
        Field::Output => output,
        Field::AsrUrl => services.asr_url@,
        Field::AsrKey => services.asr_key@,
        Field::AsrModel => services.asr_model@,
        Field::LlmUrl => services.llm_url@,
        Field::LlmKey => services.llm_key@,
        Field::LlmModel => services.llm_model@,
        Field::Source | Field::Title | Field::Search | Field::FolderName => Seq::empty(),
    }
}

/// Keys are not shown.
pub open spec fn is_masked(field: Field) -> bool {
    field is AsrKey || field is LlmKey
}

fn set_up(field: Field, output: &str, services: &ServiceFields) -> (result: FieldSetup)
    ensures
        result.field == field,
        result.placeholder@ == placeholder_of(field),
        result.value@ == first_value(field, output@, *services),
        result.masked == is_masked(field),
{
    proof {
        reveal_strlit("");
    }
    let (placeholder, value) = match field {
        Field::Source => ("粘贴 YouTube 或 Bilibili 视频链接", String::new()),
        Field::Title => ("", String::new()),
        Field::Output => ("课程笔记保存位置", output.to_owned()),
        Field::Search => ("搜索笔记标题", String::new()),
        Field::FolderName => ("文件夹名称", String::new()),
        Field::AsrUrl => ("", services.asr_url.clone()),
        Field::AsrKey => ("API Key", services.asr_key.clone()),
        Field::AsrModel => ("转写模型", services.asr_model.clone()),
        Field::LlmUrl => ("", services.llm_url.clone()),
        Field::LlmKey => ("API Key", services.llm_key.clone()),
        Field::LlmModel => ("模型名称", services.llm_model.clone()),
    };
    FieldSetup { field, placeholder, value, masked: matches!(field, Field::AsrKey | Field::LlmKey) }
}

/// All fields, set up.
pub fn input_fields(output: &str, services: &ServiceFields) -> (result: Vec<FieldSetup>)
    ensures
        result@.len() == all_fields().len(),
        forall|i: int|
            0 <= i < result@.len() ==> {
                &&& (#[trigger] result@[i]).field == all_fields()[i]
                &&& result@[i].placeholder@ == placeholder_of(all_fields()[i])
                &&& result@[i].value@ == first_value(all_fields()[i], output@, *services)
                &&& result@[i].masked == is_masked(all_fields()[i])
            },
{
    let fields = [
        Field::Source,
        Field::Title,
        Field::Output,
        Field::Search,
        Field::FolderName,
        Field::AsrUrl,
        Field::AsrKey,
        Field::AsrModel,
        Field::LlmUrl,
        Field::LlmKey,
        Field::LlmModel,
    ];
    assert(fields@ =~= all_fields());
    let mut result: Vec<FieldSetup> = Vec::new();
    let mut i: usize = 0;
    while i < 11
        invariant
            i <= 11,
            result@.len() == i,
            fields@ == all_fields(),
            fields@.len() == 11,
            forall|j: int|
                0 <= j < i ==> {
                    &&& (#[trigger] result@[j]).field == all_fields()[j]
                    &&& result@[j].placeholder@ == placeholder_of(all_fields()[j])
                    &&& result@[j].value@ == first_value(all_fields()[j], output@, *services)
                    &&& result@[j].masked == is_masked(all_fields()[j])
                },
        decreases 11 - i,
    {
        result.push(set_up(fields[i], output, services));
        i += 1;
    }
    result
}

/// What an edit leads to.
#[derive(Clone, Copy, Debug, PartialEq, Eq, Structural)]
pub struct FieldEdit {
    /// Another video is meant: what was read of the last one no longer counts.
    pub source_changed: bool,
    /// The input is saved a little later.
    pub saves_input: bool,
    /// The request for a name is met.
    pub clears_validation: bool,
    /// The list of notes starts at its top.
    pub scrolls_library: bool,
}

/// What an edit leads to. Nothing follows from a value that the application itself
/// enters while it restores an input.
pub fn field_edited(
    field: Field,
    restoring: bool,
    value: &str,
    last_source_input: &str,
    validation: &Option<String>,
) -> (result: Option<FieldEdit>)
    ensures
        result == (if restoring {
            None
        } else {
            Some(
                FieldEdit {
                    source_changed: field is Source && value@ != last_source_input@,
                    saves_input: field is Source || field is Title,
                    clears_validation: field is Title && value@.len() > 0 && text_of(*validation)
                        == Some("请填写笔记名称"@),
                    scrolls_library: field is Search,
                },
            )
        }),
{
    if restoring {
        return None;
    }
    Some(
        FieldEdit {
            source_changed: matches!(field, Field::Source) && !same(value, last_source_input),
            saves_input: matches!(field, Field::Source | Field::Title),
            clears_validation: matches!(field, Field::Title) && !value.is_empty() && is_text(
                validation,
                "请填写笔记名称",
            ),
            scrolls_library: matches!(field, Field::Search),
        },
    )
}

/// What the enter key does in a field.
#[derive(Clone, Copy, Debug, PartialEq, Eq, Structural)]
pub enum EnterAction {
    Start,
    SaveFolder,
    Nothing,
}

/// The enter key starts a conversion in the link field of the workbench, and saves a
/// folder in the field for its name.
pub fn enter_pressed(field: Field, page: Page, online: bool) -> (result: EnterAction)
    ensures
        result == (if field is Source && page is New && online {
            EnterAction::Start
        } else if field is FolderName {
            EnterAction::SaveFolder
        } else {
            EnterAction::Nothing
        }),
{
    if matches!(field, Field::Source) && matches!(page, Page::New) && online {
        EnterAction::Start
    } else if matches!(field, Field::FolderName) {
        EnterAction::SaveFolder
    } else {
        EnterAction::Nothing
    }
}

/// The message beside a field: where settings were not saved, beside the one that is
/// not valid.
pub fn field_error(
    field: Field,
    settings_status: &str,
    invalid: Option<(Field, &'static str)>,
) -> (result: Option<&'static str>)
    ensures
        result == (if begins(settings_status@, "未保存："@) && invalid is Some && (invalid->0).0
            == field {
            Some((invalid->0).1)
        } else {
            None
        }),
{
    match invalid {
        Some((own, message)) => {
            if own == field && starts_with(settings_status, "未保存：") {
                Some(message)
            } else {
                None
            }
        },
        None => None,
    }
}

/// Where notes are written: to the default library, else to the one that is shown.
pub fn output(
    libraries: Option<&Vec<LibraryLocation>>,
    default_library: &str,
    library_root: &str,
) -> (result: String)
    ensures
        result@ == (match libraries {
            Some(known) => match library_with_id(known@, default_library@) {
                Some(library) => library.root@,
                None => library_root@,
            },
            None => library_root@,
        }),
{
    match libraries {
        Some(known) => match find_id(known, default_library) {
            Some(i) => known[i].root.clone(),
            None => library_root.to_owned(),
        },
        None => library_root.to_owned(),
    }
}

/// Every field is set up once; keys are masked, and nothing else is; what is kept in the
/// settings is filled in.
pub proof fn every_field_is_set_up(output: &str, services: ServiceFields, fields: Vec<FieldSetup>, i: int)
    requires
        call_ensures(input_fields, (output, &services), fields),
        0 <= i < fields@.len(),
    ensures
        fields@.len() == 11,
        fields@[i].masked <==> fields@[i].field is AsrKey || fields@[i].field is LlmKey,
        fields@[i].field is Output ==> fields@[i].value@ == output@,
        fields@[i].field is AsrKey ==> fields@[i].value@ == services.asr_key@,
        fields@[i].field is LlmKey ==> fields@[i].value@ == services.llm_key@,
        fields@[i].field is AsrUrl ==> fields@[i].value@ == services.asr_url@,
        fields@[i].field is LlmUrl ==> fields@[i].value@ == services.llm_url@,
        fields@[i].field is AsrModel ==> fields@[i].value@ == services.asr_model@,
        fields@[i].field is LlmModel ==> fields@[i].value@ == services.llm_model@,
        fields@[i].field is Source || fields@[i].field is Title || fields@[i].field is Search
            || fields@[i].field is FolderName ==> fields@[i].value@.len() == 0,
        fields@[0].field is Source,
{
    let first = fields@[0];
    let own = fields@[i];
    assert(all_fields()[0] is Source);
}

/// Typing is the person's where nothing is being restored: another link is another input, a
/// link or a title is saved, and a search scrolls the library.
pub proof fn typing_is_the_persons(
    field: Field,
    restoring: bool,
    value: &str,
    last: &str,
    validation: Option<String>,
    edit: Option<FieldEdit>,
)
    requires
        call_ensures(field_edited, (field, restoring, value, last, &validation), edit),
    ensures
        edit is Some <==> !restoring,
        edit matches Some(done) ==> {
            &&& done.source_changed <==> field is Source && value@ != last@
            &&& done.saves_input <==> field is Source || field is Title
            &&& done.scrolls_library <==> field is Search
            &&& done.clears_validation ==> field is Title && value@.len() > 0
        },
{
}

/// The return key starts a conversion from the link field of the workbench, saves a folder from
/// its name, and does nothing else.
pub proof fn the_return_key_acts_where_it_is_pressed(field: Field, page: Page, online: bool, action: EnterAction)
    requires
        call_ensures(enter_pressed, (field, page, online), action),
    ensures
        action is Start <==> field is Source && page is New && online,
        action is SaveFolder <==> field is FolderName,
{
}

/// An error stands beside the field it is about, and only where the settings were not saved.
pub proof fn an_error_stands_beside_its_field(
    field: Field,
    status: &str,
    invalid: Option<(Field, &'static str)>,
    shown: Option<&'static str>,
)
    requires
        call_ensures(field_error, (field, status, invalid), shown),
    ensures
        shown is Some ==> invalid is Some && (invalid->0).0 == field && shown->0@
            == (invalid->0).1@ && begins(status@, "未保存："@),
        invalid is Some && (invalid->0).0 == field && begins(status@, "未保存："@) ==> shown is Some,
{
}

proof fn with_id_is(libraries: Seq<LibraryLocation>, id: Seq<char>, i: int)
    requires
        0 <= i < libraries.len(),
        libraries[i].id@ == id,
        forall|j: int| 0 <= j < i ==> (#[trigger] libraries[j]).id@ != id,
    ensures
        library_with_id(libraries, id) == Some(libraries[i]),
    decreases libraries.len(),
{
    if i > 0 {
        let rest = libraries.skip(1);
        assert(libraries[0].id@ != id);
        assert(rest[i - 1] == libraries[i]);
        assert forall|j: int| 0 <= j < i - 1 implies (#[trigger] rest[j]).id@ != id by {
            assert(rest[j] == libraries[j + 1]);
        }
        with_id_is(rest, id, i - 1);
    }
}

/// Notes are kept in the default library, and in the one that is shown where no libraries are
/// known.
pub proof fn notes_are_kept_in_the_default_library(
    libraries: Vec<LibraryLocation>,
    default_library: &str,
    shown: &str,
    kept: String,
    other: String,
    i: int,
)
    requires
        call_ensures(output, (Some(&libraries), default_library, shown), kept),
        call_ensures(output, (None, default_library, shown), other),
    ensures
        0 <= i < libraries@.len() && libraries@[i].id@ == default_library@ && (forall|j: int|
            0 <= j < i ==> (#[trigger] libraries@[j]).id@ != default_library@) ==> kept@
            == libraries@[i].root@,
        other@ == shown@,
        libraries@.len() == 0 ==> kept@ == shown@,
{
    if 0 <= i < libraries@.len() && libraries@[i].id@ == default_library@ && (forall|j: int|
        0 <= j < i ==> (#[trigger] libraries@[j]).id@ != default_library@) {
        with_id_is(libraries@, default_library@, i);
    }
}

/// A title that is written takes down the word that asked for one, and no other word.
pub proof fn a_title_takes_down_the_word_that_asked(
    value: &str,
    last: &str,
    validation: Option<String>,
    edit: Option<FieldEdit>,
)
    requires
        call_ensures(field_edited, (Field::Title, false, value, last, &validation), edit),
    ensures
        edit is Some,
        edit->0.clears_validation <==> value@.len() > 0 && text_of(validation) == Some(
            "请填写笔记名称"@,
        ),
{
}

} // verus!
