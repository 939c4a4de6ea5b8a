//! Where the text of a note comes from: subtitles that were read and confirmed, or
//! speech that is recognised.
use crate::text::{
    begins, blank, chars_of, contains, decimal, first_line, holds, is_blank, join2, matches_at,
    number, opening_line, same, string_of, trim, trimmed,
};
use crate::workspace::{Source, SubtitleEvidence, SubtitleReadError, SubtitleTrack};
use vstd::prelude::*;

verus! {

/// The text is taken from speech: in mode 2 always, in mode 0 when it is settled
/// that no subtitle can be read. A subtitle that is chosen, asked for or failed
/// never turns into speech by itself.
pub open spec fn recognises_speech(source: Source, source_mode: usize) -> bool {
    ||| source_mode == 2
    ||| {
        &&& source_mode == 0
        &&& source.selected_subtitle is None
        &&& source.subtitle_request is None
        &&& source.subtitle_read_error is None
        &&& source.subtitles is NoneFound || source.subtitles is Unsupported
            || source.subtitles is Failed
    }
}

pub fn uses_speech(source: &Source, source_mode: usize) -> (result: bool)
    ensures
        result == recognises_speech(*source, source_mode),
{
    source_mode == 2 || (source_mode == 0 && source.selected_subtitle.is_none()
        && source.subtitle_request.is_none() && source.subtitle_read_error.is_none() && matches!(
        source.subtitles,
        SubtitleEvidence::NoneFound
        | SubtitleEvidence::Unsupported { .. }
        | SubtitleEvidence::Failed { .. }
    ))
}

/// The text of an optional string slice.
pub open spec fn given(error: Option<&str>) -> Option<Seq<char>> {
    match error {
        Some(text) => Some(text@),
        None => None,
    }
}

/// Why no subtitle could be read: the given error first, then the error of the
/// last read, then what was found out about the subtitles.
pub open spec fn subtitle_failure(source: Source, error: Option<Seq<char>>) -> Option<Seq<char>> {
    match error {
        Some(text) => Some(text),
        None => match source.subtitle_read_error {
            Some(SubtitleReadError::Failed { message }) => Some(message@),
            Some(SubtitleReadError::Cancelled) => None,
            None => match source.subtitles {
                SubtitleEvidence::Failed { message } => Some(message@),
                _ => None,
            },
        },
    }
}

/// Automatic mode gives up on subtitles: something failed, nothing was confirmed,
/// and the last read was not cancelled by hand.
pub open spec fn falls_back(source: Source, source_mode: usize, error: Option<Seq<char>>) -> bool {
    &&& source_mode == 0
    &&& source.selected_subtitle is None
    &&& source.subtitle_read_error != Some(SubtitleReadError::Cancelled)
    &&& subtitle_failure(source, error) is Some
}

/// The source after automatic mode has given up on subtitles.
pub open spec fn fell_back(before: Source, after: Source, error: Option<Seq<char>>) -> bool {
    &&& after.subtitles matches SubtitleEvidence::Failed { message } && Some(message@)
        == subtitle_failure(before, error)
    &&& after == (Source {
        subtitles: after.subtitles,
        subtitle_request: None,
        subtitle_read_error: None,
        ..before
    })
}

fn failure_message(source: &Source, error: Option<&str>) -> (result: Option<String>)
    ensures
        result is Some == subtitle_failure(*source, given(error)) is Some,
        result matches Some(message) ==> Some(message@) == subtitle_failure(*source, given(error)),
{
    match error {
        Some(text) => Some(text.to_owned()),
        None => match &source.subtitle_read_error {
            Some(SubtitleReadError::Failed { message }) => Some(message.clone()),
            Some(SubtitleReadError::Cancelled) => None,
            None => match &source.subtitles {
                SubtitleEvidence::Failed { message } => Some(message.clone()),
                _ => None,
            },
        },
    }
}

/// Gives up on subtitles in automatic mode, so that speech is used instead.
pub fn automatic_subtitle_fallback(
    source: &mut Source,
    source_mode: usize,
    error: Option<&str>,
) -> (result: bool)
    ensures
        result == falls_back(*old(source), source_mode, given(error)),
        result ==> fell_back(*old(source), *final(source), given(error)),
        !result ==> *final(source) == *old(source),
{
    if source_mode != 0 || source.selected_subtitle.is_some() || matches!(
        source.subtitle_read_error,
        Some(SubtitleReadError::Cancelled)
    ) {
        return false;
    }
    match failure_message(source, error) {
        Some(message) => {
            source.subtitles = SubtitleEvidence::Failed { message };
            source.subtitle_request = None;
            source.subtitle_read_error = None;
            true
        },
        None => false,
    }
}

/// After a fallback speech is used, and nothing is left to confirm.
pub proof fn fallback_settles_the_source(
    before: Source,
    after: Source,
    error: Option<Seq<char>>,
)
    requires
        falls_back(before, 0, error),
        fell_back(before, after, error),
    ensures
        recognises_speech(after, 0),
        !needs_confirmation(after, 0),
{
}

/// A person has to choose: speech is not used, and no subtitle is confirmed or one
/// is asked for or failed.
pub open spec fn needs_confirmation(source: Source, source_mode: usize) -> bool {
    &&& !recognises_speech(source, source_mode)
    &&& source.selected_subtitle is None || source.subtitle_request is Some
        || source.subtitle_read_error is Some
}

pub fn subtitle_needs_confirmation(source: &Source, source_mode: usize) -> (result: bool)
    ensures
        result == needs_confirmation(*source, source_mode),
{
    !uses_speech(source, source_mode) && (source.selected_subtitle.is_none()
        || source.subtitle_request.is_some() || source.subtitle_read_error.is_some())
}

/// A source is always in exactly one of three conditions: speech is used, a person
/// has to choose, or a confirmed subtitle is used.
pub proof fn text_source_is_settled_or_open(source: Source, source_mode: usize)
    ensures
        recognises_speech(source, source_mode) ==> !needs_confirmation(source, source_mode),
        !recognises_speech(source, source_mode) && !needs_confirmation(source, source_mode)
            ==> source.selected_subtitle is Some && source.subtitle_request is None
            && source.subtitle_read_error is None,
{
}

// ------------------------------------------------------------------- messages

/// The failure that is shown with the text source.
pub open spec fn shown_failure(
    source: Source,
    source_mode: usize,
    error: Option<Seq<char>>,
) -> Option<Seq<char>> {
    match error {
        Some(text) => Some(text),
        None => match source.subtitles {
            SubtitleEvidence::Failed { message } if needs_confirmation(source, source_mode) => Some(
                message@,
            ),
            _ => None,
        },
    }
}

pub fn text_source_failure(source: &Source, source_mode: usize, error: Option<&str>) -> (result:
    Option<String>)
    ensures
        result is Some == shown_failure(*source, source_mode, given(error)) is Some,
        result matches Some(message) ==> Some(message@) == shown_failure(
            *source,
            source_mode,
            given(error),
        ),
{
    match error {
        Some(text) => Some(text.to_owned()),
        None => match &source.subtitles {
            SubtitleEvidence::Failed { message } => {
                if subtitle_needs_confirmation(source, source_mode) {
                    Some(message.clone())
                } else {
                    None
                }
            },
            _ => None,
        },
    }
}

/// One line on where the text comes from.
pub open spec fn text_source_state(source: Source, source_mode: usize, loading: bool) -> Seq<char> {
    if loading {
        "正在读取字幕…"@
    } else if recognises_speech(source, source_mode) {
        "识别视频声音"@
    } else if source.subtitle_request is Some || source.subtitle_read_error is Some {
        if source.selected_subtitle is Some {
            "字幕尚未确认，已读内容仍保留"@
        } else {
            "所选字幕尚未确认"@
        }
    } else {
        match source.selected_subtitle {
            Some(subtitle) => subtitle.label@,
            None => match source.subtitles {
                SubtitleEvidence::Unchecked => "尚未检查可读取的字幕"@,
                SubtitleEvidence::Found { .. } => "找到字幕，请确认要使用的文字"@,
                SubtitleEvidence::NoneFound | SubtitleEvidence::Unsupported { .. } => "尚未选择文字来源"@,
                SubtitleEvidence::Failed { .. } => "字幕尚未确认"@,
            },
        }
    }
}

pub fn text_source_description(source: &Source, source_mode: usize, loading: bool) -> (result:
    String)
    ensures
        result@ == text_source_state(*source, source_mode, loading),
{
    let speech = uses_speech(source, source_mode);
    if loading {
        return "正在读取字幕…".to_owned();
    }
    if !speech && (source.subtitle_request.is_some() || source.subtitle_read_error.is_some()) {
        return match &source.selected_subtitle {
            Some(_) => "字幕尚未确认，已读内容仍保留".to_owned(),
            None => "所选字幕尚未确认".to_owned(),
        };
    }
    if speech {
        return "识别视频声音".to_owned();
    }
    match &source.selected_subtitle {
        Some(subtitle) => subtitle.label.clone(),
        None => match &source.subtitles {
            SubtitleEvidence::Unchecked => "尚未检查可读取的字幕".to_owned(),
            SubtitleEvidence::Found { .. } => "找到字幕，请确认要使用的文字".to_owned(),
            SubtitleEvidence::NoneFound | SubtitleEvidence::Unsupported { .. } => {
                "尚未选择文字来源".to_owned()
            },
            SubtitleEvidence::Failed { .. } => "字幕尚未确认".to_owned(),
        },
    }
}

/// The message of a tool, and not of this application.
pub open spec fn is_technical(message: Seq<char>) -> bool {
    holds(message, "WARNING:"@) || holds(message, "ERROR:"@)
}

fn technical(message: &str) -> (result: bool)
    ensures
        result == is_technical(message@),
{
    contains(message, "WARNING:") || contains(message, "ERROR:")
}

/// What a person is told of a subtitle that could not be read.
pub open spec fn subtitle_summary(message: Seq<char>, login_failure: bool) -> Seq<char> {
    if login_failure {
        "字幕需要登录后才能读取；可以登录，或改用语音识别"@
    } else if is_technical(message) {
        "暂时无法读取字幕；可以重试，或改用语音识别"@
    } else {
        first_line(message)
    }
}

/// The summary of a subtitle problem, and the details behind it: the whole message
/// where it says more than the summary.
pub fn subtitle_issue(message: &str, login_failure: bool) -> (result: (String, Option<String>))
    ensures
        result.0@ == subtitle_summary(message@, login_failure),
        result.1 is Some == (result.0@ != message@ && !is_blank(message@)),
        result.1 matches Some(details) ==> details@ == message@,
{
    let summary = if login_failure {
        "字幕需要登录后才能读取；可以登录，或改用语音识别".to_owned()
    } else if technical(message) {
        "暂时无法读取字幕；可以重试，或改用语音识别".to_owned()
    } else {
        opening_line(message)
    };
    if same(summary.as_str(), message) || blank(message) {
        (summary, None)
    } else {
        (summary, Some(message.to_owned()))
    }
}

/// What a person is told of a video that could not be read.
pub open spec fn source_summary(error: Seq<char>, login_failure: bool) -> Seq<char> {
    if login_failure {
        "视频需要登录后读取，请登录后重试转换"@
    } else if is_technical(error) {
        "暂时无法读取这个视频，请检查链接或稍后重试"@
    } else {
        first_line(error)
    }
}

pub fn source_error_summary(error: &str, login_failure: bool) -> (result: String)
    ensures
        result@ == source_summary(error@, login_failure),
{
    if login_failure {
        "视频需要登录后读取，请登录后重试转换".to_owned()
    } else if technical(error) {
        "暂时无法读取这个视频，请检查链接或稍后重试".to_owned()
    } else {
        opening_line(error)
    }
}

/// A candidate is named by its title only where the title says more than the link.
pub open spec fn is_untitled(title: Seq<char>, input: Seq<char>) -> bool {
    is_blank(title) || trimmed(title) == trimmed(input)
}

/// The name of the candidate at `index`, and whether its link has to be shown.
pub fn candidate_title(title: &str, input: &str, index: usize) -> (result: (String, bool))
    requires
        index < usize::MAX,
    ensures
        result.1 == is_untitled(title@, input@),
        result.0@ == (if result.1 {
            "视频 "@ + decimal((index + 1) as nat)
        } else {
            title@
        }),
{
    if blank(title) || same(trim(title).as_str(), trim(input).as_str()) {
        (join2("视频 ", number((index + 1) as u64).as_str()), true)
    } else {
        (title.to_owned(), false)
    }
}

// -------------------------------------------------------------------- choices

impl SubtitleTrack {
    /// The same track again.
    pub fn copy(&self) -> (result: SubtitleTrack)
        ensures
            result == *self,
    {
        SubtitleTrack { id: self.id.clone(), label: self.label.clone(), origin: self.origin }
    }
}

pub open spec fn tracks_of(evidence: SubtitleEvidence) -> Seq<SubtitleTrack> {
    match evidence {
        SubtitleEvidence::Found { tracks, .. } => tracks@,
        _ => Seq::empty(),
    }
}

/// The track at `i` is the first with this id.
pub open spec fn first_track(tracks: Seq<SubtitleTrack>, id: Seq<char>, i: int) -> bool {
    &&& 0 <= i < tracks.len()
    &&& tracks[i].id@ == id
    &&& forall|j: int| 0 <= j < i ==> (#[trigger] tracks[j]).id@ != id
}

pub open spec fn has_track(tracks: Seq<SubtitleTrack>, id: Seq<char>) -> bool {
    exists|i: int| 0 <= i < tracks.len() && (#[trigger] tracks[i]).id@ == id
}

/// The position of the first track with an id.
pub fn find_track(tracks: &Vec<SubtitleTrack>, id: &str) -> (result: Option<usize>)
    ensures
        match result {
            Some(i) => first_track(tracks@, id@, i as int),
            None => !has_track(tracks@, id@),
        },
{
    let mut i: usize = 0;
    while i < tracks.len()
        invariant
            i <= tracks@.len(),
            forall|j: int| 0 <= j < i ==> (#[trigger] tracks@[j]).id@ != id@,
        decreases tracks@.len() - i,
    {
        if same(tracks[i].id.as_str(), id) {
            return Some(i);
        }
        i += 1;
    }
    None
}

/// The tracks that can be chosen: those that were found, and the one that is asked
/// for where it is not among them.
pub open spec fn offered_tracks(source: Source) -> Seq<SubtitleTrack> {
    let found = tracks_of(source.subtitles);
    match source.subtitle_request {
        Some(pending) if !has_track(found, pending.id@) => found.push(pending),
        _ => found,
    }
}

/// The tracks that can be chosen for a source.
pub fn choosable_tracks(source: &Source) -> (result: Vec<SubtitleTrack>)
    ensures
        result@ == offered_tracks(*source),
{
    let mut result: Vec<SubtitleTrack> = Vec::new();
    if let SubtitleEvidence::Found { tracks, .. } = &source.subtitles {
        let mut i: usize = 0;
        while i < tracks.len()
            invariant
                i <= tracks@.len(),
                result@ == tracks@.take(i as int),
            decreases tracks@.len() - i,
        {
            result.push(tracks[i].copy());
            assert(tracks@.take(i + 1) =~= tracks@.take(i as int).push(tracks@[i as int]));
            i += 1;
        }
        assert(tracks@.take(tracks@.len() as int) =~= tracks@);
    }
    assert(result@ =~= tracks_of(source.subtitles));
    if let Some(pending) = &source.subtitle_request {
        if find_track(&result, pending.id.as_str()).is_none() {
            result.push(pending.copy());
        }
    }
    result
}

/// One entry of a list of choices.
pub struct Choice {
    pub value: String,
    pub label: String,
}

impl View for Choice {
    type V = (Seq<char>, Seq<char>);

    open spec fn view(&self) -> (Seq<char>, Seq<char>) {
        (self.value@, self.label@)
    }
}

/// What the entries of a list say.
pub open spec fn entries(choices: Seq<Choice>) -> Seq<(Seq<char>, Seq<char>)> {
    Seq::new(choices.len(), |i: int| choices[i]@)
}

pub open spec fn track_value(id: Seq<char>) -> Seq<char> {
    "track:"@ + id
}

/// The entries for the text source: the tracks, the confirmed subtitle where it is
/// not among them, and speech.
pub open spec fn source_entries(source: Source) -> Seq<(Seq<char>, Seq<char>)> {
    let tracks = offered_tracks(source);
    let listed = Seq::new(
        tracks.len(),
        |i: int| (track_value(tracks[i].id@), tracks[i].label@),
    );
    let confirmed = match source.selected_subtitle {
        Some(cached) if !has_track(tracks, cached.track_id@) => listed.push(
            (track_value(cached.track_id@), cached.label@),
        ),
        _ => listed,
    };
    confirmed.push(("speech"@, "识别视频声音"@))
}

/// The choices for the text source.
pub fn text_source_choices(source: &Source) -> (result: Vec<Choice>)
    ensures
        entries(result@) == source_entries(*source),
{
    let tracks = choosable_tracks(source);
    let mut result: Vec<Choice> = Vec::new();
    let mut i: usize = 0;
    while i < tracks.len()
        invariant
            i <= tracks@.len(),
            result@.len() == i,
            forall|j: int|
                0 <= j < i ==> (#[trigger] result@[j])@ == (
                    track_value(tracks@[j].id@),
                    tracks@[j].label@,
                ),
        decreases tracks@.len() - i,
    {
        result.push(
            Choice {
                value: join2("track:", tracks[i].id.as_str()),
                label: tracks[i].label.clone(),
            },
        );
        i += 1;
    }
    let ghost listed = Seq::new(
        tracks@.len(),
        |i: int| (track_value(tracks@[i].id@), tracks@[i].label@),
    );
    assert(entries(result@) =~= listed);
    if let Some(cached) = &source.selected_subtitle {
        if find_track(&tracks, cached.track_id.as_str()).is_none() {
            result.push(
                Choice {
                    value: join2("track:", cached.track_id.as_str()),
                    label: cached.label.clone(),
                },
            );
            assert(entries(result@) =~= listed.push((track_value(cached.track_id@), cached.label@)));
        }
    }
    let ghost before = entries(result@);
    result.push(Choice { value: "speech".to_owned(), label: "识别视频声音".to_owned() });
    assert(entries(result@) =~= before.push(("speech"@, "识别视频声音"@)));
    result
}

/// The entry that is marked: speech, else the subtitle that is asked for, else the
/// confirmed one.
pub open spec fn marked_entry(source: Source, source_mode: usize) -> Option<Seq<char>> {
    if recognises_speech(source, source_mode) {
        Some("speech"@)
    } else {
        match source.subtitle_request {
            Some(track) => Some(track_value(track.id@)),
            None => match source.selected_subtitle {
                Some(cached) => Some(track_value(cached.track_id@)),
                None => None,
            },
        }
    }
}

/// The value of the entry that is marked among the text sources.
pub fn text_source_selected(source: &Source, source_mode: usize) -> (result: Option<String>)
    ensures
        result is Some == marked_entry(*source, source_mode) is Some,
        result matches Some(value) ==> Some(value@) == marked_entry(*source, source_mode),
{
    if uses_speech(source, source_mode) {
        return Some("speech".to_owned());
    }
    match &source.subtitle_request {
        Some(track) => Some(join2("track:", track.id.as_str())),
        None => match &source.selected_subtitle {
            Some(cached) => Some(join2("track:", cached.track_id.as_str())),
            None => None,
        },
    }
}

/// What happens when an entry is chosen.
pub enum TextSourceAction {
    UseSpeech,
    UseConfirmed,
    Confirm(SubtitleTrack),
    Nothing,
}

/// What happens when the entry with this value is chosen.
pub open spec fn is_action(source: Source, value: Seq<char>, action: TextSourceAction) -> bool {
    if value == "speech"@ {
        action is UseSpeech
    } else if !begins(value, "track:"@) {
        action is Nothing
    } else {
        let id = value.skip("track:"@.len() as int);
        if source.selected_subtitle is Some && source.selected_subtitle->0.track_id@ == id {
            action is UseConfirmed
        } else if has_track(offered_tracks(source), id) {
            action matches TextSourceAction::Confirm(track) && exists|i: int|
                first_track(offered_tracks(source), id, i) && track == #[trigger] offered_tracks(
                    source,
                )[i]
        } else {
            action is Nothing
        }
    }
}

/// What happens when an entry is chosen.
pub fn chosen_text_source(source: &Source, value: &str) -> (result: TextSourceAction)
    ensures
        is_action(*source, value@, result),
{
    if same(value, "speech") {
        return TextSourceAction::UseSpeech;
    }
    let chars = chars_of(value);
    let prefix = chars_of("track:");
    if !matches_at(&chars, &prefix, 0) {
        return TextSourceAction::Nothing;
    }
    let id = string_of(&chars, prefix.len(), chars.len());
    assert(chars@.subrange(prefix@.len() as int, chars@.len() as int) =~= chars@.skip(
        prefix@.len() as int,
    ));
    if let Some(cached) = &source.selected_subtitle {
        if same(cached.track_id.as_str(), id.as_str()) {
            return TextSourceAction::UseConfirmed;
        }
    }
    let tracks = choosable_tracks(source);
    match find_track(&tracks, id.as_str()) {
        Some(i) => {
            assert(has_track(tracks@, id@)) by {
                assert(tracks@[i as int].id@ == id@);
            }
            assert(first_track(offered_tracks(*source), id@, i as int));
            TextSourceAction::Confirm(tracks[i].copy())
        },
        None => TextSourceAction::Nothing,
    }
}

/// Choosing an entry that is on offer always does something.
pub proof fn offered_entries_act(source: Source, i: int, action: TextSourceAction)
    requires
        0 <= i < source_entries(source).len(),
        is_action(source, source_entries(source)[i].0, action),
    ensures
        !(action is Nothing),
{
    reveal_strlit("track:");
    reveal_strlit("speech");
    let value = source_entries(source)[i].0;
    let tracks = offered_tracks(source);
    if value != "speech"@ {
        if i < tracks.len() {
            let id = tracks[i].id@;
            assert(value == track_value(id));
            assert(value.skip("track:"@.len() as int) =~= id);
            assert(value.subrange(0, "track:"@.len() as int) =~= "track:"@);
            assert(has_track(tracks, id));
        } else {
            let id = source.selected_subtitle->0.track_id@;
            assert(value == track_value(id));
            assert(value.skip("track:"@.len() as int) =~= id);
            assert(value.subrange(0, "track:"@.len() as int) =~= "track:"@);
        }
    }
}

/// The entry that is marked is on offer.
pub proof fn the_marked_entry_is_offered(source: Source, source_mode: usize)
    requires
        marked_entry(source, source_mode) is Some,
    ensures
        exists|i: int|
            0 <= i < source_entries(source).len() && (#[trigger] source_entries(source)[i]).0
                == marked_entry(source, source_mode)->0,
{
    let all = source_entries(source);
    let tracks = offered_tracks(source);
    let found = tracks_of(source.subtitles);
    if recognises_speech(source, source_mode) {
        assert(all[all.len() - 1].0 == "speech"@);
    } else if source.subtitle_request is Some {
        let id = source.subtitle_request->0.id@;
        if has_track(found, id) {
            let k = choose|k: int| 0 <= k < found.len() && (#[trigger] found[k]).id@ == id;
            assert(all[k].0 == track_value(id));
        } else {
            assert(all[tracks.len() - 1].0 == track_value(id));
        }
    } else {
        let id = source.selected_subtitle->0.track_id@;
        if has_track(tracks, id) {
            let k = choose|k: int| 0 <= k < tracks.len() && (#[trigger] tracks[k]).id@ == id;
            assert(all[k].0 == track_value(id));
        } else {
            assert(all[tracks.len() as int].0 == track_value(id));
        }
    }
}

// ------------------------------------------------------- where the text comes from

/// Speech is recognised where the person chose it, never where they chose subtitles, and
/// where it is left open only once it is known that no subtitle can be read and none was
/// chosen.
pub proof fn speech_is_the_last_resort(source: Source, mode: usize, speech: bool)
    requires
        call_ensures(uses_speech, (&source, mode), speech),
    ensures
        mode == 2 ==> speech,
        mode == 1 ==> !speech,
        mode == 0 && source.selected_subtitle is Some ==> !speech,
        mode == 0 && source.subtitle_request is Some ==> !speech,
        mode == 0 && source.subtitle_read_error is Some ==> !speech,
        mode == 0 && (source.subtitles is Found || source.subtitles is Unchecked) ==> !speech,
        mode == 0 && source.selected_subtitle is None && source.subtitle_request is None
            && source.subtitle_read_error is None && !(source.subtitles is Found
            || source.subtitles is Unchecked) ==> speech,
{
}

/// A person is asked exactly where neither speech is recognised nor a subtitle is
/// confirmed with nothing open about it.
pub proof fn what_is_open_is_asked(source: Source, mode: usize, speech: bool, asked: bool)
    requires
        call_ensures(uses_speech, (&source, mode), speech),
        call_ensures(subtitle_needs_confirmation, (&source, mode), asked),
    ensures
        speech ==> !asked,
        !speech ==> (!asked <==> source.selected_subtitle is Some && source.subtitle_request is None
            && source.subtitle_read_error is None),
{
}

/// A failure leads to speech only where the source of the text was left open, no subtitle
/// is confirmed and nobody cancelled: never where a person chose. What failed is kept, and
/// nothing else of the source changes.
pub proof fn a_fallback_is_never_against_a_choice(
    source: &mut Source,
    mode: usize,
    error: Option<&str>,
    fell: bool,
)
    requires
        call_ensures(automatic_subtitle_fallback, (source, mode, error), fell),
    ensures
        mode != 0 ==> !fell,
        old(source).selected_subtitle is Some ==> !fell,
        old(source).subtitle_read_error == Some(SubtitleReadError::Cancelled) ==> !fell,
        !fell ==> *final(source) == *old(source),
        mode == 0 && old(source).selected_subtitle is None && old(source).subtitle_read_error is None
            && error is Some ==> fell,
        error is None && old(source).subtitle_read_error is None && !(old(source).subtitles is Failed)
            ==> !fell,
        fell ==> {
            &&& final(source).subtitles is Failed
            &&& error matches Some(text) ==> final(source).subtitles->Failed_message@ == text@
            &&& final(source).subtitle_request is None
            &&& final(source).subtitle_read_error is None
            &&& final(source).selected_subtitle == old(source).selected_subtitle
            &&& final(source).identity == old(source).identity
            &&& final(source).input == old(source).input
            &&& final(source).title == old(source).title
            &&& final(source).online == old(source).online
        },
{
}

/// After a fallback speech is recognised, and nobody is asked.
pub proof fn after_a_fallback_speech_is_recognised(
    source: &mut Source,
    mode: usize,
    error: Option<&str>,
    speech: bool,
    asked: bool,
)
    requires
        call_ensures(automatic_subtitle_fallback, (source, mode, error), true),
        call_ensures(uses_speech, (&*final(source), mode), speech),
        call_ensures(subtitle_needs_confirmation, (&*final(source), mode), asked),
    ensures
        speech,
        !asked,
{
}

/// Every subtitle that was found is offered under its own name, and so is speech, last;
/// what is pending or confirmed is offered too.
#[verifier::rlimit(40)]
pub proof fn everything_found_is_offered(source: Source, choices: Vec<Choice>, i: int)
    requires
        call_ensures(text_source_choices, (&source,), choices),
    ensures
        choices@.len() > 0,
        choices@.last()@ == ("speech"@, "识别视频声音"@),
        source.subtitles matches SubtitleEvidence::Found { tracks, .. } ==> (0 <= i < tracks@.len()
            ==> i < choices@.len() && choices@[i]@ == ("track:"@ + tracks@[i].id@, tracks@[i].label@)),
        source.subtitle_request matches Some(track) ==> exists|k: int|
            0 <= k < choices@.len() && (#[trigger] choices@[k]).value@ == "track:"@ + track.id@,
        source.selected_subtitle matches Some(cached) ==> exists|k: int|
            0 <= k < choices@.len() && (#[trigger] choices@[k]).value@ == "track:"@
                + cached.track_id@,
{
    let said = entries(choices@);
    let tracks = offered_tracks(source);
    assert(said.len() == choices@.len());
    assert(said.last() == choices@.last()@);
    if source.subtitles is Found {
        let found = tracks_of(source.subtitles);
        if 0 <= i < found.len() {
            assert(tracks[i] == found[i]);
            assert(said[i] == choices@[i]@);
        }
    }
    if let Some(track) = source.subtitle_request {
        let found = tracks_of(source.subtitles);
        let k = if has_track(found, track.id@) {
            choose|k: int| 0 <= k < found.len() && (#[trigger] found[k]).id@ == track.id@
        } else {
            found.len() as int
        };
        assert(tracks[k].id@ == track.id@);
        assert(said[k] == choices@[k]@);
        assert(choices@[k].value@ == "track:"@ + track.id@);
    }
    if let Some(cached) = source.selected_subtitle {
        let k = if has_track(tracks, cached.track_id@) {
            choose|k: int| 0 <= k < tracks.len() && (#[trigger] tracks[k]).id@ == cached.track_id@
        } else {
            tracks.len() as int
        };
        assert(said[k] == choices@[k]@);
        assert(choices@[k].value@ == "track:"@ + cached.track_id@);
    }
}

/// Choosing an entry does what it says: speech is recognised, the confirmed subtitle is
/// used, any other is confirmed first; an entry that is not there does nothing.
#[verifier::rlimit(40)]
pub proof fn a_choice_does_what_it_says(source: Source, value: &str, action: TextSourceAction)
    requires
        call_ensures(chosen_text_source, (&source, value), action),
    ensures
        value@ == "speech"@ ==> action is UseSpeech,
        action is UseSpeech ==> value@ == "speech"@,
        action is UseConfirmed ==> source.selected_subtitle is Some && value@ == "track:"@
            + source.selected_subtitle->0.track_id@,
        action matches TextSourceAction::Confirm(track) ==> value@ == "track:"@ + track.id@,
        source.selected_subtitle is Some && value@ == "track:"@
            + source.selected_subtitle->0.track_id@ ==> action is UseConfirmed,
{
    reveal_strlit("track:");
    reveal_strlit("speech");
    assert("track:"@[0] != "speech"@[0]);
    if begins(value@, "track:"@) {
        assert(value@ =~= "track:"@ + value@.skip("track:"@.len() as int));
        assert(value@.subrange(0, 6) == "track:"@);
        assert(value@[0] == "track:"@[0]);
    }
    if source.selected_subtitle is Some && value@ == "track:"@
        + source.selected_subtitle->0.track_id@ {
        let id = source.selected_subtitle->0.track_id@;
        assert(value@.subrange(0, "track:"@.len() as int) =~= "track:"@);
        assert(value@.skip("track:"@.len() as int) =~= id);
        assert(value@[0] == "track:"@[0]);
    }
}

/// The marked entry is what will be used: speech where it is recognised, else what is
/// being asked for, else what is confirmed.
pub proof fn the_mark_is_on_what_is_used(
    source: Source,
    mode: usize,
    speech: bool,
    marked: Option<String>,
)
    requires
        call_ensures(uses_speech, (&source, mode), speech),
        call_ensures(text_source_selected, (&source, mode), marked),
    ensures
        speech ==> marked is Some && marked->0@ == "speech"@,
        !speech && source.subtitle_request is Some ==> marked is Some && marked->0@ == "track:"@
            + source.subtitle_request->0.id@,
        !speech && source.subtitle_request is None && source.selected_subtitle is Some ==> marked
            is Some && marked->0@ == "track:"@ + source.selected_subtitle->0.track_id@,
        !speech && source.subtitle_request is None && source.selected_subtitle is None ==> marked
            is None,
{
}

/// What a person is told of a failure is what failed; it is told where it was not settled.
pub proof fn a_failure_is_told(
    source: Source,
    mode: usize,
    error: Option<&str>,
    asked: bool,
    told: Option<String>,
)
    requires
        call_ensures(subtitle_needs_confirmation, (&source, mode), asked),
        call_ensures(text_source_failure, (&source, mode, error), told),
    ensures
        error matches Some(text) ==> told is Some && told->0@ == text@,
        error is None ==> (told is Some <==> source.subtitles is Failed && asked),
        error is None && told is Some ==> told->0@ == source.subtitles->Failed_message@,
{
}

/// A failure is told in words: a login that is needed is told as such, technical output is
/// kept for the details, and what is not the whole message can be looked up.
pub proof fn details_hold_the_whole_message(
    message: &str,
    login: bool,
    told: (String, Option<String>),
)
    requires
        call_ensures(subtitle_issue, (message, login), told),
    ensures
        login ==> told.0@ == "字幕需要登录后才能读取；可以登录，或改用语音识别"@,
        !login && (holds(message@, "WARNING:"@) || holds(message@, "ERROR:"@)) ==> told.0@
            == "暂时无法读取字幕；可以重试，或改用语音识别"@,
        !login && !holds(message@, "WARNING:"@) && !holds(message@, "ERROR:"@) ==> begins(
            message@,
            told.0@,
        ),
        told.1 matches Some(details) ==> details@ == message@,
        told.1 is None ==> told.0@ == message@ || is_blank(message@),
{
    crate::text::first_index_within(message@, '\n');
    let line = first_line(message@);
    assert(message@.subrange(0, line.len() as int) =~= line);
}

/// A video without a title of its own is called by its number; any other by its title.
pub proof fn a_video_is_called_by_its_title(title: &str, input: &str, index: usize, named: (String, bool))
    requires
        index < usize::MAX,
        call_ensures(candidate_title, (title, input, index), named),
    ensures
        is_blank(title@) ==> named.1,
        title@ == input@ ==> named.1,
        !named.1 ==> named.0@ == title@,
        named.1 ==> named.0@ == "视频 "@ + decimal((index + 1) as nat),
        !is_blank(title@) && trimmed(title@) != trimmed(input@) ==> !named.1,
{
}

/// An error of a video is told in words: that a login is needed, that it could not be read, or its
/// own first line.
pub proof fn an_error_is_told_in_words(error: &str, login: bool, told: String)
    requires
        call_ensures(source_error_summary, (error, login), told),
    ensures
        login ==> told@ == "视频需要登录后读取，请登录后重试转换"@,
        !login && (holds(error@, "WARNING:"@) || holds(error@, "ERROR:"@)) ==> told@
            == "暂时无法读取这个视频，请检查链接或稍后重试"@,
        !login && !holds(error@, "WARNING:"@) && !holds(error@, "ERROR:"@) ==> begins(error@, told@),
{
    crate::text::first_index_within(error@, '\n');
    let line = first_line(error@);
    assert(error@.subrange(0, line.len() as int) =~= line);
}

/// The description of where the text comes from says what is used: speech, or the subtitle that
/// was confirmed by its own name; and while it is read, that it is.
pub proof fn the_description_says_what_is_used(
    source: Source,
    mode: usize,
    loading: bool,
    speech: bool,
    asked: bool,
    text: String,
)
    requires
        call_ensures(uses_speech, (&source, mode), speech),
        call_ensures(subtitle_needs_confirmation, (&source, mode), asked),
        call_ensures(text_source_description, (&source, mode, loading), text),
    ensures
        loading ==> text@ == "正在读取字幕…"@,
        !loading && speech ==> text@ == "识别视频声音"@,
        !loading && !speech && !asked ==> source.selected_subtitle is Some && text@
            == source.selected_subtitle->0.label@,
{
}

} // verus!
