//! The video on the workbench: what was entered, what was read of it, and which
//! results of earlier reads still count.
use crate::conversion::{apply_text_source_mode, conversion_gate, gate, ConversionGate};
use crate::follow::ConversionFollow;
use crate::subtitles::{
    automatic_subtitle_fallback, fell_back, find_track, first_track, falls_back, has_track,
    needs_confirmation, subtitle_needs_confirmation, tracks_of,
};
use crate::text::same;
use crate::workspace::{
    text_of, CachedSubtitle, ConversionOptions, Draft, Page, Source, SubtitleEvidence,
    SubtitleOrigin, SubtitleReadError, SubtitleTrack,
};
use vstd::prelude::*;

verus! {

/// A video among several that an input may mean.
pub struct SourceCandidate {
    pub input: String,
    pub title: String,
    pub identity: Option<String>,
}

/// The state of the workbench. A generation counts how often what it guards was
/// abandoned; a result that was asked for in another generation is ignored.
pub struct Workbench {
    pub online: bool,
    pub last_source_input: String,
    pub completed_source: Option<String>,
    pub source_preview: Option<Source>,
    pub source_candidates: Vec<SourceCandidate>,
    pub source_collection_title: Option<String>,
    pub source_editor_open: bool,
    pub source_validation: Option<String>,
    pub previewing: bool,
    pub preview_generation: u64,
    pub preview_error: Option<String>,
    pub preview_workers: usize,
    pub show_preview_details: bool,
    pub subtitle_loading: bool,
    pub subtitle_reading: bool,
    pub subtitle_generation: u64,
    pub subtitle_error: Option<String>,
    pub expanded_subtitle_issue: Option<String>,
    pub generation_options_open: bool,
    pub pending_conversion: Option<u64>,
    pub task_options: ConversionOptions,
}

/// What identifies one read of a subtitle.
pub struct SubtitleTicket {
    pub subtitle_generation: u64,
    pub preview_generation: u64,
    pub identity: String,
    pub explicit: bool,
}

/// What came of choosing a subtitle file.
pub enum SubtitlePick {
    Nothing,
    /// The chooser could not be opened.
    Failed(String),
    /// A file that holds no subtitles.
    Other,
    Subtitle(SubtitleTrack),
}

/// The reads that have to be told to stop.
pub struct Cancelled {
    pub preview: bool,
    pub subtitle: bool,
}

/// The generation after `generation`.
pub open spec fn next_generation(generation: u64) -> u64 {
    if generation == u64::MAX {
        0
    } else {
        (generation + 1) as u64
    }
}

pub fn following_generation(generation: u64) -> (result: u64)
    ensures
        result == next_generation(generation),
        result != generation,
{
    if generation == u64::MAX {
        0
    } else {
        generation + 1
    }
}

/// The person is asked for an input.
pub open spec fn asks_for_input(online: bool) -> Seq<char> {
    if online {
        "先粘贴视频链接"@
    } else {
        "先选择一个视频"@
    }
}

fn input_request(online: bool) -> (result: String)
    ensures
        result@ == asks_for_input(online),
{
    if online {
        "先粘贴视频链接".to_owned()
    } else {
        "先选择一个视频".to_owned()
    }
}

/// What an inspection comes to before anything is read.
pub enum InspectStep {
    /// The same input is being read already.
    Ignored,
    /// The person was asked for an input.
    Refused,
    /// The person has to choose among several links.
    Choose,
    /// This input is to be checked and read.
    Check(String),
}

/// The candidates are the links, each under its own name.
pub open spec fn lists_links(candidates: Seq<SourceCandidate>, links: Seq<String>) -> bool {
    &&& candidates.len() == links.len()
    &&& forall|i: int|
        0 <= i < links.len() ==> {
            &&& (#[trigger] candidates[i]).input@ == links[i]@
            &&& candidates[i].title@ == links[i]@
            &&& candidates[i].identity is None
        }
}

impl Workbench {
    /// Everything that was read or chosen for the source is gone, and nothing that
    /// is still under way will count.
    pub open spec fn is_invalidated(self, after: Workbench) -> bool {
        &&& after.source_candidates@.len() == 0
        &&& after == (Workbench {
            pending_conversion: None,
            previewing: false,
            subtitle_reading: false,
            preview_generation: next_generation(self.preview_generation),
            subtitle_generation: next_generation(self.subtitle_generation),
            source_preview: None,
            source_editor_open: false,
            generation_options_open: false,
            source_candidates: after.source_candidates,
            source_collection_title: None,
            subtitle_loading: false,
            subtitle_error: None,
            preview_error: None,
            source_validation: None,
            show_preview_details: false,
            expanded_subtitle_issue: None,
            ..self
        })
    }

    /// Abandons the source. Says which reads have to be told to stop.
    pub fn invalidate_source(&mut self) -> (result: Cancelled)
        ensures
            old(self).is_invalidated(*final(self)),
            result == (Cancelled {
                preview: old(self).previewing,
                subtitle: old(self).subtitle_reading,
            }),
    {
        let cancelled = Cancelled { preview: self.previewing, subtitle: self.subtitle_reading };
        self.pending_conversion = None;
        self.previewing = false;
        self.subtitle_reading = false;
        self.preview_generation = following_generation(self.preview_generation);
        self.subtitle_generation = following_generation(self.subtitle_generation);
        self.source_preview = None;
        self.source_editor_open = false;
        self.generation_options_open = false;
        self.source_candidates = Vec::new();
        self.source_collection_title = None;
        self.subtitle_loading = false;
        self.subtitle_error = None;
        self.preview_error = None;
        self.source_validation = None;
        self.show_preview_details = false;
        self.expanded_subtitle_issue = None;
        cancelled
    }

    // ------------------------------------------------------------ inspection

    /// The state after an inspection was asked for and refused, left to a choice,
    /// or begun.
    pub open spec fn is_inspected(
        self,
        after: Workbench,
        input: Seq<char>,
        links: Seq<String>,
        step: InspectStep,
    ) -> bool {
        if self.previewing && self.last_source_input@ == input {
            &&& step is Ignored
            &&& after == self
        } else {
            let cleared = Workbench { completed_source: None, ..self };
            if input.len() == 0 {
                &&& step is Refused
                &&& after.source_validation matches Some(message) && message@ == asks_for_input(
                    self.online,
                )
                &&& cleared.is_invalidated(Workbench { source_validation: None, ..after })
            } else if self.online && links.len() > 1 {
                &&& step is Choose
                &&& lists_links(after.source_candidates@, links)
                &&& after.source_collection_title matches Some(title) && title@
                    == "分享内容中有多个链接，请选择一个视频"@
                &&& after == (Workbench {
                    pending_conversion: None,
                    previewing: false,
                    subtitle_reading: false,
                    preview_generation: next_generation(self.preview_generation),
                    subtitle_generation: next_generation(self.subtitle_generation),
                    source_preview: None,
                    source_editor_open: false,
                    generation_options_open: false,
                    source_candidates: after.source_candidates,
                    source_collection_title: after.source_collection_title,
                    subtitle_loading: false,
                    subtitle_error: None,
                    preview_error: None,
                    source_validation: None,
                    show_preview_details: false,
                    expanded_subtitle_issue: None,
                    ..cleared
                })
            } else {
                &&& step matches InspectStep::Check(target) && target@ == (if self.online
                    && links.len() == 1 {
                    links[0]@
                } else {
                    input
                })
                &&& cleared.is_invalidated(after)
            }
        }
    }

    /// Takes an input for inspection. `links` are the video links in it.
    pub fn inspect_source(&mut self, input: &str, links: &Vec<String>) -> (result: (
        InspectStep,
        Option<Cancelled>,
    ))
        ensures
            old(self).is_inspected(*final(self), input@, links@, result.0),
            result.1 == (if result.0 is Ignored {
                None
            } else {
                Some(
                    Cancelled {
                        preview: old(self).previewing,
                        subtitle: old(self).subtitle_reading,
                    },
                )
            }),
    {
        if self.previewing && same(self.last_source_input.as_str(), input) {
            return (InspectStep::Ignored, None);
        }
        self.completed_source = None;
        let cancelled = self.invalidate_source();
        if input.is_empty() {
            self.source_validation = Some(input_request(self.online));
            return (InspectStep::Refused, Some(cancelled));
        }
        if self.online && links.len() > 1 {
            self.source_candidates = link_candidates(links);
            self.source_collection_title = Some(
                "分享内容中有多个链接，请选择一个视频".to_owned(),
            );
            return (InspectStep::Choose, Some(cancelled));
        }
        let target = if self.online && links.len() == 1 {
            links[0].clone()
        } else {
            input.to_owned()
        };
        (InspectStep::Check(target), Some(cancelled))
    }

    /// Takes the verdict on an input that was checked: a link that cannot be read
    /// is refused with the reason, any other input is remembered.
    pub fn accept_input(&mut self, target: String, invalid: Option<String>) -> (result: bool)
        ensures
            result == !(old(self).online && invalid is Some),
            *final(self) == (if result {
                Workbench { last_source_input: target, ..*old(self) }
            } else {
                Workbench { source_validation: invalid, ..*old(self) }
            }),
    {
        if self.online && invalid.is_some() {
            self.source_validation = invalid;
            false
        } else {
            self.last_source_input = target;
            true
        }
    }

    /// A read of the source has begun; its result must come back with this
    /// generation.
    pub fn inspection_started(&mut self) -> (result: u64)
        requires
            old(self).preview_workers < usize::MAX,
        ensures
            result == old(self).preview_generation,
            *final(self) == (Workbench {
                preview_workers: (old(self).preview_workers + 1) as usize,
                previewing: true,
                ..*old(self)
            }),
    {
        self.preview_workers += 1;
        self.previewing = true;
        self.preview_generation
    }

    /// A worker has ended, whether or not its result still counts.
    pub fn worker_ended(&mut self)
        ensures
            *final(self) == (Workbench {
                preview_workers: if old(self).preview_workers > 0 {
                    (old(self).preview_workers - 1) as usize
                } else {
                    0
                },
                ..*old(self)
            }),
    {
        if self.preview_workers > 0 {
            self.preview_workers -= 1;
        }
    }

    /// The result of reading a source still counts: nothing was abandoned and the
    /// field still holds the input that was read.
    pub open spec fn inspection_counts(
        self,
        generation: u64,
        requested: Seq<char>,
        current: Seq<char>,
        input_matches: bool,
    ) -> bool {
        self.preview_generation == generation && requested == current && input_matches
    }

    /// `input_matches` tells whether the saved input is still the one that was read.
    pub fn inspection_is_current(
        &self,
        generation: u64,
        requested: &str,
        current: &str,
        input_matches: bool,
    ) -> (result: bool)
        ensures
            result == self.inspection_counts(generation, requested@, current@, input_matches),
    {
        self.preview_generation == generation && same(requested, current) && input_matches
    }

    /// The result of reading a list: the person chooses among what it holds.
    pub fn finish_collection(
        &mut self,
        title: String,
        candidates: Vec<SourceCandidate>,
        unavailable: u64,
    )
        ensures
            final(self).source_candidates == candidates,
            final(self).source_collection_title matches Some(shown) && shown@ == (if title@.len()
                == 0 {
                "请选择本次处理的视频"@
            } else {
                title@
            }),
            *final(self) == (Workbench {
                previewing: false,
                source_candidates: candidates,
                source_collection_title: final(self).source_collection_title,
                preview_error: final(self).preview_error,
                ..*old(self)
            }),
            candidates@.len() == 0 ==> (final(self).preview_error matches Some(message) && message@
                == "还无法确定要处理哪个视频。请复制具体视频的链接。"@),
            candidates@.len() > 0 && unavailable > 0 ==> (final(self).preview_error matches Some(
                message,
            ) && message@ == "另有 "@ + crate::text::decimal(unavailable as nat)
                + " 个条目暂时无法确认。可选择下列视频，或复制具体视频的链接。"@),
            candidates@.len() > 0 && unavailable == 0 ==> final(self).preview_error == old(
                self,
            ).preview_error,
    {
        self.previewing = false;
        self.source_collection_title = Some(
            if title.as_str().is_empty() {
                "请选择本次处理的视频".to_owned()
            } else {
                title
            },
        );
        let empty = candidates.is_empty();
        self.source_candidates = candidates;
        if empty {
            self.preview_error = Some(
                "还无法确定要处理哪个视频。请复制具体视频的链接。".to_owned(),
            );
        } else if unavailable > 0 {
            self.preview_error = Some(
                crate::text::join3(
                    "另有 ",
                    crate::text::number(unavailable).as_str(),
                    " 个条目暂时无法确认。可选择下列视频，或复制具体视频的链接。",
                ),
            );
        }
    }

    /// The source could not be read, or not told apart.
    pub fn finish_failed(&mut self, message: String)
        ensures
            *final(self) == (Workbench {
                previewing: false,
                preview_error: Some(message),
                ..*old(self)
            }),
    {
        self.previewing = false;
        self.preview_error = Some(message);
    }

    /// The result of reading a single video. What was confirmed for the same video
    /// before is kept. Gives back the subtitle that is to be read next, if any.
    pub fn finish_single(&mut self, source: Source, previous: Option<Source>) -> (result: Option<
        SubtitleTrack,
    >)
        ensures
            old(self).is_found(*final(self), source, kept_source(source, previous), result),
    {
        self.previewing = false;
        let previous = match previous {
            Some(earlier) => {
                if same(earlier.identity.as_str(), source.identity.as_str()) {
                    Some(earlier)
                } else {
                    None
                }
            },
            None => None,
        };
        let wanted = wanted_track(&previous);
        let track = default_track(&source, &previous, &wanted);
        let mut source = source;
        if let Some(earlier) = previous {
            source.selected_subtitle = earlier.selected_subtitle;
        }
        if wanted.is_some() && track.is_none() {
            let message = "原来选择的字幕暂时无法读取。已确认的正文仍保留，请明确选择要使用的文字来源。".to_owned();
            self.subtitle_error = Some(message.clone());
            source.subtitle_read_error = Some(SubtitleReadError::Failed { message });
        }
        self.source_preview = Some(source);
        if self.task_options.source_mode != 2 {
            track
        } else {
            None
        }
    }

    /// The state after a single video was read.
    pub open spec fn is_found(
        self,
        after: Workbench,
        source: Source,
        previous: Option<Source>,
        next: Option<SubtitleTrack>,
    ) -> bool {
        let track = track_to_read(source, previous);
        let lost = wanted_id(previous) is Some && track is None;
        &&& after == (Workbench {
            previewing: false,
            source_preview: after.source_preview,
            subtitle_error: after.subtitle_error,
            ..self
        })
        &&& after.source_preview matches Some(shown) && shown == (Source {
            selected_subtitle: match previous {
                Some(earlier) => earlier.selected_subtitle,
                None => source.selected_subtitle,
            },
            subtitle_read_error: shown.subtitle_read_error,
            ..source
        }) && (if lost {
            &&& after.subtitle_error matches Some(message) && message@
                == "原来选择的字幕暂时无法读取。已确认的正文仍保留，请明确选择要使用的文字来源。"@
            &&& shown.subtitle_read_error == Some(
                SubtitleReadError::Failed { message: after.subtitle_error->0 },
            )
        } else {
            &&& after.subtitle_error == self.subtitle_error
            &&& shown.subtitle_read_error == source.subtitle_read_error
        })
        &&& next == (if self.task_options.source_mode != 2 {
            track
        } else {
            None
        })
    }
}

fn link_candidates(links: &Vec<String>) -> (result: Vec<SourceCandidate>)
    ensures
        lists_links(result@, links@),
{
    let mut result: Vec<SourceCandidate> = Vec::new();
    let mut i: usize = 0;
    while i < links.len()
        invariant
            i <= links@.len(),
            lists_links(result@, links@.take(i as int)),
        decreases links@.len() - i,
    {
        result.push(
            SourceCandidate { input: links[i].clone(), title: links[i].clone(), identity: None },
        );
        i += 1;
    }
    assert(links@.take(links@.len() as int) =~= links@);
    result
}

/// The earlier source, where it is the same video.
pub open spec fn kept_source(source: Source, previous: Option<Source>) -> Option<Source> {
    match previous {
        Some(earlier) if earlier.identity@ == source.identity@ => Some(earlier),
        _ => None,
    }
}

/// The subtitle that was asked for, else the one that was confirmed.
pub open spec fn wanted_id(previous: Option<Source>) -> Option<Seq<char>> {
    match previous {
        Some(earlier) => match earlier.subtitle_request {
            Some(track) => Some(track.id@),
            None => match earlier.selected_subtitle {
                Some(cached) => Some(cached.track_id@),
                None => None,
            },
        },
        None => None,
    }
}

fn wanted_track(previous: &Option<Source>) -> (result: Option<String>)
    ensures
        text_of(result) == wanted_id(*previous),
{
    match previous {
        Some(earlier) => match &earlier.subtitle_request {
            Some(track) => Some(track.id.clone()),
            None => match &earlier.selected_subtitle {
                Some(cached) => Some(cached.track_id.clone()),
                None => None,
            },
        },
        None => None,
    }
}

/// The first track with an id.
pub open spec fn track_with_id(tracks: Seq<SubtitleTrack>, id: Seq<char>) -> Option<SubtitleTrack>
    decreases tracks.len(),
{
    if tracks.len() == 0 {
        None
    } else if tracks[0].id@ == id {
        Some(tracks[0])
    } else {
        track_with_id(tracks.skip(1), id)
    }
}

/// The first track with an id that is a file.
pub open spec fn file_with_id(tracks: Seq<SubtitleTrack>, id: Seq<char>) -> Option<SubtitleTrack>
    decreases tracks.len(),
{
    if tracks.len() == 0 {
        None
    } else if tracks[0].id@ == id && tracks[0].origin is File {
        Some(tracks[0])
    } else {
        file_with_id(tracks.skip(1), id)
    }
}

/// The subtitle that is read by itself: the wanted one if it was found again or is
/// a file that was attached before; the first one if none is wanted.
pub open spec fn track_to_read(source: Source, previous: Option<Source>) -> Option<SubtitleTrack> {
    let found = tracks_of(source.subtitles);
    match wanted_id(previous) {
        Some(id) => match track_with_id(found, id) {
            Some(track) => Some(track),
            None => file_with_id(tracks_of(previous->0.subtitles), id),
        },
        None => if found.len() > 0 {
            Some(found[0])
        } else {
            None
        },
    }
}

proof fn track_with_id_at(tracks: Seq<SubtitleTrack>, id: Seq<char>, i: int)
    requires
        first_track(tracks, id, i),
    ensures
        track_with_id(tracks, id) == Some(tracks[i]),
    decreases tracks.len(),
{
    if i > 0 {
        assert(tracks[0].id@ != id);
        assert forall|j: int| 0 <= j < i - 1 implies (#[trigger] tracks.skip(1)[j]).id@ != id by {
            assert(tracks.skip(1)[j] == tracks[j + 1]);
        }
        track_with_id_at(tracks.skip(1), id, i - 1);
    }
}

proof fn track_with_id_missing(tracks: Seq<SubtitleTrack>, id: Seq<char>)
    requires
        !has_track(tracks, id),
    ensures
        track_with_id(tracks, id) is None,
    decreases tracks.len(),
{
    if tracks.len() > 0 {
        assert(tracks[0].id@ != id);
        assert(!has_track(tracks.skip(1), id)) by {
            if has_track(tracks.skip(1), id) {
                let i = choose|i: int|
                    0 <= i < tracks.skip(1).len() && (#[trigger] tracks.skip(1)[i]).id@ == id;
                assert(tracks[i + 1].id@ == id);
            }
        }
        track_with_id_missing(tracks.skip(1), id);
    }
}

/// The first of some tracks with an id.
fn pick_track(evidence: &SubtitleEvidence, id: &str) -> (result: Option<SubtitleTrack>)
    ensures
        result == track_with_id(tracks_of(*evidence), id@),
{
    match evidence {
        SubtitleEvidence::Found { tracks, .. } => match find_track(tracks, id) {
            Some(i) => {
                proof {
                    track_with_id_at(tracks@, id@, i as int);
                }
                Some(tracks[i].copy())
            },
            None => {
                proof {
                    track_with_id_missing(tracks@, id@);
                }
                None
            },
        },
        _ => None,
    }
}

fn pick_file(evidence: &SubtitleEvidence, id: &str) -> (result: Option<SubtitleTrack>)
    ensures
        result == file_with_id(tracks_of(*evidence), id@),
{
    match evidence {
        SubtitleEvidence::Found { tracks, .. } => {
            let mut i: usize = 0;
            assert(tracks@.skip(0) =~= tracks@);
            while i < tracks.len()
                invariant
                    i <= tracks@.len(),
                    tracks_of(*evidence) == tracks@,
                    file_with_id(tracks@.skip(i as int), id@) == file_with_id(tracks@, id@),
                decreases tracks@.len() - i,
            {
                assert(tracks@.skip(i as int)[0] == tracks@[i as int]);
                if same(tracks[i].id.as_str(), id) && matches!(tracks[i].origin, SubtitleOrigin::File) {
                    return Some(tracks[i].copy());
                }
                assert(tracks@.skip(i as int).skip(1) =~= tracks@.skip(i + 1));
                i += 1;
            }
            None
        },
        _ => None,
    }
}

fn first_found(evidence: &SubtitleEvidence) -> (result: Option<SubtitleTrack>)
    ensures
        result == (if tracks_of(*evidence).len() > 0 {
            Some(tracks_of(*evidence)[0])
        } else {
            None
        }),
{
    match evidence {
        SubtitleEvidence::Found { tracks, .. } => {
            if tracks.len() > 0 {
                Some(tracks[0].copy())
            } else {
                None
            }
        },
        _ => None,
    }
}

fn default_track(source: &Source, previous: &Option<Source>, wanted: &Option<String>) -> (result:
    Option<SubtitleTrack>)
    requires
        text_of(*wanted) == wanted_id(*previous),
    ensures
        result == track_to_read(*source, *previous),
{
    match wanted {
        Some(id) => match pick_track(&source.subtitles, id.as_str()) {
            Some(track) => Some(track),
            None => match previous {
                Some(earlier) => pick_file(&earlier.subtitles, id.as_str()),
                None => None,
            },
        },
        None => first_found(&source.subtitles),
    }
}

// ------------------------------------------------------------ subtitle reads

impl Source {
    /// The source without a subtitle that is asked for or failed.
    pub open spec fn settled(self) -> Source {
        Source { subtitle_request: None, subtitle_read_error: None, ..self }
    }
}

/// A source where there is one, with its open subtitle read withdrawn.
pub open spec fn settled_source(source: Option<Source>) -> Option<Source> {
    match source {
        Some(own) => Some(own.settled()),
        None => None,
    }
}

impl Workbench {
    /// The reads of subtitles that are under way will not count.
    fn abandon_subtitle_read(&mut self) -> (result: bool)
        ensures
            result == old(self).subtitle_reading,
            *final(self) == (Workbench {
                subtitle_reading: false,
                subtitle_generation: next_generation(old(self).subtitle_generation),
                ..*old(self)
            }),
    {
        let reading = self.subtitle_reading;
        self.subtitle_reading = false;
        self.subtitle_generation = following_generation(self.subtitle_generation);
        reading
    }

    fn settle_source(&mut self)
        ensures
            *final(self) == (Workbench {
                source_preview: settled_source(old(self).source_preview),
                ..*old(self)
            }),
    {
        if let Some(source) = &mut self.source_preview {
            source.subtitle_request = None;
            source.subtitle_read_error = None;
        }
    }

    /// The state once a subtitle of the source was asked for.
    pub open spec fn is_asking(
        self,
        after: Workbench,
        track: SubtitleTrack,
        explicit: bool,
        ticket: SubtitleTicket,
    ) -> bool {
        let generation = next_generation(self.subtitle_generation);
        &&& self.source_preview matches Some(source) && {
            &&& ticket.subtitle_generation == generation
            &&& ticket.preview_generation == self.preview_generation
            &&& ticket.identity@ == source.identity@
            &&& ticket.explicit == explicit
            &&& after == (Workbench {
                subtitle_generation: generation,
                subtitle_reading: true,
                subtitle_loading: true,
                subtitle_error: None,
                task_options: ConversionOptions {
                    source_mode: if explicit {
                        1
                    } else {
                        self.task_options.source_mode
                    },
                    ..self.task_options
                },
                source_preview: Some(
                    Source { subtitle_request: Some(track), subtitle_read_error: None, ..source },
                ),
                ..self
            })
        }
    }

    /// Asks for a subtitle. One that a person asked for is the text source from
    /// now on, before anything is read: a failed read never falls back to speech
    /// silently. Without a source nothing happens.
    pub fn confirm_subtitle(&mut self, track: SubtitleTrack, explicit: bool) -> (result: Option<
        SubtitleTicket,
    >)
        ensures
            match result {
                Some(ticket) => old(self).is_asking(*final(self), track, explicit, ticket),
                None => old(self).source_preview is None && *final(self) == *old(self),
            },
    {
        let identity = match &self.source_preview {
            Some(source) => source.identity.clone(),
            None => {
                return None;
            },
        };
        self.subtitle_generation = following_generation(self.subtitle_generation);
        self.subtitle_reading = true;
        self.subtitle_loading = true;
        self.subtitle_error = None;
        if explicit {
            self.task_options.source_mode = 1;
        }
        if let Some(source) = &mut self.source_preview {
            source.subtitle_request = Some(track);
            source.subtitle_read_error = None;
        }
        Some(
            SubtitleTicket {
                subtitle_generation: self.subtitle_generation,
                preview_generation: self.preview_generation,
                identity,
                explicit,
            },
        )
    }

    /// The input could not be saved, so nothing is read.
    pub fn subtitle_not_started(&mut self)
        ensures
            *final(self) == (Workbench {
                subtitle_loading: false,
                subtitle_reading: false,
                ..*old(self)
            }),
    {
        self.subtitle_loading = false;
        self.subtitle_reading = false;
    }

    /// The result of a read of subtitles still counts: neither the read nor the
    /// source was abandoned, and the source and the saved input are the same.
    pub open spec fn ticket_counts(self, ticket: SubtitleTicket, input_matches: bool) -> bool {
        &&& self.subtitle_generation == ticket.subtitle_generation
        &&& self.preview_generation == ticket.preview_generation
        &&& self.source_preview matches Some(source) && source.identity@ == ticket.identity@
        &&& input_matches
    }

    pub fn ticket_is_current(&self, ticket: &SubtitleTicket, input_matches: bool) -> (result: bool)
        ensures
            result == self.ticket_counts(*ticket, input_matches),
    {
        self.subtitle_generation == ticket.subtitle_generation && self.preview_generation
            == ticket.preview_generation && input_matches && match &self.source_preview {
            Some(source) => same(source.identity.as_str(), ticket.identity.as_str()),
            None => false,
        }
    }

    /// The state after a subtitle was read, or not, while the read still counted.
    pub open spec fn is_subtitle_read(
        self,
        after: Workbench,
        explicit: bool,
        outcome: Result<CachedSubtitle, SubtitleReadError>,
    ) -> bool {
        let idle = Workbench { subtitle_loading: false, subtitle_reading: false, ..self };
        match outcome {
            Ok(subtitle) => after == (Workbench {
                source_preview: Some(
                    Source { selected_subtitle: Some(subtitle), ..self.source_preview->0.settled() },
                ),
                task_options: ConversionOptions {
                    source_mode: if explicit {
                        1
                    } else {
                        self.task_options.source_mode
                    },
                    ..self.task_options
                },
                ..idle
            }),
            Err(SubtitleReadError::Cancelled) => after == (Workbench {
                pending_conversion: None,
                ..idle
            }),
            Err(SubtitleReadError::Failed { message }) => after == (Workbench {
                subtitle_error: Some(message),
                source_preview: Some(
                    Source {
                        subtitle_read_error: Some(SubtitleReadError::Failed { message }),
                        ..self.source_preview->0
                    },
                ),
                ..idle
            }),
        }
    }

    /// Takes the outcome of a read of a subtitle. Says whether it counted.
    pub fn finish_subtitle(
        &mut self,
        ticket: &SubtitleTicket,
        input_matches: bool,
        outcome: Result<CachedSubtitle, SubtitleReadError>,
    ) -> (result: bool)
        ensures
            result == old(self).ticket_counts(*ticket, input_matches),
            !result ==> *final(self) == *old(self),
            result ==> old(self).is_subtitle_read(*final(self), ticket.explicit, outcome),
    {
        if !self.ticket_is_current(ticket, input_matches) {
            return false;
        }
        self.subtitle_loading = false;
        self.subtitle_reading = false;
        match outcome {
            Ok(subtitle) => {
                if let Some(source) = &mut self.source_preview {
                    source.selected_subtitle = Some(subtitle);
                    source.subtitle_request = None;
                    source.subtitle_read_error = None;
                }
                if ticket.explicit {
                    self.task_options.source_mode = 1;
                }
            },
            Err(SubtitleReadError::Cancelled) => {
                self.pending_conversion = None;
            },
            Err(SubtitleReadError::Failed { message }) => {
                self.subtitle_error = Some(message.clone());
                if let Some(source) = &mut self.source_preview {
                    source.subtitle_read_error = Some(SubtitleReadError::Failed { message });
                }
            },
        }
        true
    }

    /// Asks for the list of subtitles again. Until it is there, what was confirmed
    /// stays but has to be confirmed anew.
    pub fn retry_subtitles(&mut self) -> (result: Option<SubtitleTicket>)
        ensures
            match old(self).source_preview {
                None => result is None && *final(self) == *old(self),
                Some(source) => {
                    let generation = next_generation(old(self).subtitle_generation);
                    &&& result matches Some(ticket) && ticket.subtitle_generation == generation
                        && ticket.preview_generation == old(self).preview_generation
                        && ticket.identity@ == source.identity@ && !ticket.explicit
                    &&& final(self).source_preview matches Some(shown)
                        && shown.subtitle_read_error matches Some(
                        SubtitleReadError::Failed { message },
                    ) && message@ == "字幕重新读取尚未完成。可以重试，或继续使用已确认的正文。"@ && shown == (
                    Source { subtitle_read_error: shown.subtitle_read_error, ..source })
                    &&& *final(self) == (Workbench {
                        subtitle_generation: generation,
                        subtitle_reading: true,
                        subtitle_loading: true,
                        subtitle_error: None,
                        source_preview: final(self).source_preview,
                        ..*old(self)
                    })
                },
            },
    {
        let identity = match &self.source_preview {
            Some(source) => source.identity.clone(),
            None => {
                return None;
            },
        };
        self.subtitle_generation = following_generation(self.subtitle_generation);
        self.subtitle_reading = true;
        self.subtitle_loading = true;
        self.subtitle_error = None;
        if let Some(source) = &mut self.source_preview {
            source.subtitle_read_error = Some(
                SubtitleReadError::Failed {
                    message: "字幕重新读取尚未完成。可以重试，或继续使用已确认的正文。".to_owned(),
                },
            );
        }
        Some(
            SubtitleTicket {
                subtitle_generation: self.subtitle_generation,
                preview_generation: self.preview_generation,
                identity,
                explicit: false,
            },
        )
    }

    /// The subtitle that is read after the list came back: the confirmed one again,
    /// or the first where none was confirmed.
    pub open spec fn retried_track(self, evidence: SubtitleEvidence) -> Option<SubtitleTrack> {
        let found = tracks_of(evidence);
        match self.source_preview->0.selected_subtitle {
            Some(cached) => track_with_id(found, cached.track_id@),
            None => if found.len() > 0 {
                Some(found[0])
            } else {
                None
            },
        }
    }

    /// The state after the list of subtitles came back.
    pub open spec fn is_retried(self, after: Workbench, evidence: SubtitleEvidence) -> bool {
        let source = self.source_preview->0;
        let lost = source.selected_subtitle is Some && self.retried_track(evidence) is None;
        &&& after == (Workbench {
            subtitle_loading: false,
            subtitle_reading: false,
            subtitle_error: after.subtitle_error,
            source_preview: Some(
                Source {
                    subtitles: evidence,
                    subtitle_read_error: match after.subtitle_error {
                        Some(message) => Some(SubtitleReadError::Failed { message }),
                        None => None,
                    },
                    ..source
                },
            ),
            ..self
        })
        &&& if lost {
            after.subtitle_error matches Some(message) && message@
                == "原来选择的字幕已无法重新读取。已确认的正文仍保留；可以继续使用它，或明确选择其他文字来源。"@
        } else {
            after.subtitle_error == self.subtitle_error
        }
    }

    /// Takes the list of subtitles that came back. Gives the one to read next.
    pub fn finish_retry(
        &mut self,
        ticket: &SubtitleTicket,
        input_matches: bool,
        evidence: SubtitleEvidence,
    ) -> (result: (bool, Option<SubtitleTrack>))
        ensures
            result.0 == old(self).ticket_counts(*ticket, input_matches),
            !result.0 ==> *final(self) == *old(self) && result.1 is None,
            result.0 ==> old(self).is_retried(*final(self), evidence) && result.1 == old(
                self,
            ).retried_track(evidence),
    {
        if !self.ticket_is_current(ticket, input_matches) {
            return (false, None);
        }
        self.subtitle_loading = false;
        self.subtitle_reading = false;
        let confirmed = match &self.source_preview {
            Some(source) => match &source.selected_subtitle {
                Some(cached) => Some(cached.track_id.clone()),
                None => None,
            },
            None => None,
        };
        let track = match &confirmed {
            Some(id) => pick_track(&evidence, id.as_str()),
            None => first_found(&evidence),
        };
        if confirmed.is_some() && track.is_none() {
            self.subtitle_error = Some(
                "原来选择的字幕已无法重新读取。已确认的正文仍保留；可以继续使用它，或明确选择其他文字来源。".to_owned(),
            );
        }
        let error = match &self.subtitle_error {
            Some(message) => Some(SubtitleReadError::Failed { message: message.clone() }),
            None => None,
        };
        if let Some(source) = &mut self.source_preview {
            source.subtitles = evidence;
            source.subtitle_read_error = error;
        }
        (true, track)
    }

    /// The list of subtitles did not come back.
    pub fn fail_retry(
        &mut self,
        ticket: &SubtitleTicket,
        input_matches: bool,
        message: String,
    ) -> (result: bool)
        ensures
            result == old(self).ticket_counts(*ticket, input_matches),
            !result ==> *final(self) == *old(self),
            result ==> old(self).is_subtitle_read(
                *final(self),
                false,
                Err(SubtitleReadError::Failed { message }),
            ),
    {
        self.finish_subtitle(
            &SubtitleTicket {
                subtitle_generation: ticket.subtitle_generation,
                preview_generation: ticket.preview_generation,
                identity: ticket.identity.clone(),
                explicit: false,
            },
            input_matches,
            Err(SubtitleReadError::Failed { message }),
        )
    }

    /// Speech is the text source; a subtitle that is being read no longer counts.
    pub fn use_speech(&mut self) -> (result: bool)
        ensures
            result == old(self).subtitle_reading,
            *final(self) == old(self).with_text_source(2),
    {
        let reading = self.abandon_subtitle_read();
        self.subtitle_loading = false;
        self.subtitle_error = None;
        self.task_options.source_mode = 2;
        self.settle_source();
        reading
    }

    /// The state with a text source that needs nothing more to be read.
    pub open spec fn with_text_source(self, source_mode: usize) -> Workbench {
        Workbench {
            subtitle_reading: false,
            subtitle_generation: next_generation(self.subtitle_generation),
            subtitle_loading: false,
            subtitle_error: None,
            task_options: ConversionOptions { source_mode, ..self.task_options },
            source_preview: settled_source(self.source_preview),
            ..self
        }
    }

    /// The confirmed subtitle is the text source, where there is one.
    pub fn use_confirmed_subtitle(&mut self) -> (result: bool)
        ensures
            result == (old(self).source_preview is Some && old(
                self,
            ).source_preview->0.selected_subtitle is Some),
            *final(self) == (if result {
                old(self).with_text_source(1)
            } else {
                *old(self)
            }),
    {
        let confirmed = match &self.source_preview {
            Some(source) => source.selected_subtitle.is_some(),
            None => false,
        };
        if !confirmed {
            return false;
        }
        let _ = self.abandon_subtitle_read();
        self.subtitle_loading = false;
        self.subtitle_error = None;
        self.task_options.source_mode = 1;
        self.settle_source();
        true
    }

    /// A person stops the reading of a subtitle; the start command ends with it.
    pub fn cancel_subtitle_read(&mut self) -> (result: bool)
        ensures
            result == old(self).subtitle_reading,
            *final(self) == (Workbench {
                pending_conversion: None,
                subtitle_reading: false,
                subtitle_generation: next_generation(old(self).subtitle_generation),
                subtitle_loading: false,
                source_preview: settled_source(old(self).source_preview),
                ..*old(self)
            }),
    {
        self.pending_conversion = None;
        let reading = self.abandon_subtitle_read();
        self.subtitle_loading = false;
        self.settle_source();
        reading
    }

    /// The state once a track has joined those of the source, unless it was there.
    pub open spec fn is_attached(self, after: Workbench, track: SubtitleTrack) -> bool {
        match self.source_preview {
            None => after == self,
            Some(source) => {
                &&& after == (Workbench { source_preview: after.source_preview, ..self })
                &&& after.source_preview matches Some(shown) && shown == (Source {
                    subtitles: shown.subtitles,
                    ..source
                }) && shown.subtitles is Found && shown.subtitles->Found_warning == (
                match source.subtitles {
                    SubtitleEvidence::Found { warning, .. } => warning,
                    _ => None,
                }) && tracks_of(shown.subtitles) == (if has_track(
                    tracks_of(source.subtitles),
                    track.id@,
                ) {
                    tracks_of(source.subtitles)
                } else {
                    tracks_of(source.subtitles).push(track)
                })
            },
        }
    }

    /// A subtitle file was attached: it joins the tracks, unless it is there.
    pub fn attach_track(&mut self, track: &SubtitleTrack)
        ensures
            old(self).is_attached(*final(self), *track),
    {
        if let Some(source) = &mut self.source_preview {
            match &mut source.subtitles {
                SubtitleEvidence::Found { tracks, .. } => {
                    if find_track(tracks, track.id.as_str()).is_none() {
                        tracks.push(track.copy());
                    } else {
                        assert(has_track(tracks@, track.id@));
                    }
                },
                _ => {
                    let mut tracks: Vec<SubtitleTrack> = Vec::new();
                    tracks.push(track.copy());
                    assert(tracks@ =~= Seq::<SubtitleTrack>::empty().push(*track));
                    source.subtitles = SubtitleEvidence::Found { tracks, warning: None };
                },
            }
        }
    }

    /// The source is still the one for which a subtitle file was to be chosen.
    pub open spec fn awaits_file(self, generation: u64, identity: Seq<char>) -> bool {
        self.preview_generation == generation && self.source_preview is Some
            && self.source_preview->0.identity@ == identity
    }

    /// A subtitle file was chosen for the source that has this generation and
    /// identity: it is attached and asked for. A file of another kind, or a failed
    /// chooser, is told of; a source that has changed meanwhile is left alone.
    pub fn choose_attached_subtitle(&mut self, generation: u64, identity: &str, pick: SubtitlePick) -> (result:
        Option<SubtitleTicket>)
        ensures
            !old(self).awaits_file(generation, identity@) ==> result is None && *final(self)
                == *old(self),
            old(self).awaits_file(generation, identity@) ==> match pick {
                SubtitlePick::Nothing => result is None && *final(self) == *old(self),
                SubtitlePick::Failed(message) => result is None && *final(self) == (Workbench {
                    subtitle_error: Some(message),
                    ..*old(self)
                }),
                SubtitlePick::Other => result is None && text_of(final(self).subtitle_error)
                    == Some("请选择 SRT 或 VTT 字幕文件"@) && *final(self) == (Workbench {
                    subtitle_error: final(self).subtitle_error,
                    ..*old(self)
                }),
                SubtitlePick::Subtitle(track) => result is Some && exists|attached: Workbench|
                    #[trigger] old(self).is_attached(attached, track) && attached.is_asking(
                        *final(self),
                        track,
                        true,
                        result->0,
                    ),
            },
    {
        let current = self.preview_generation == generation && match &self.source_preview {
            Some(source) => same(source.identity.as_str(), identity),
            None => false,
        };
        if !current {
            return None;
        }
        match pick {
            SubtitlePick::Nothing => None,
            SubtitlePick::Failed(message) => {
                self.subtitle_error = Some(message);
                None
            },
            SubtitlePick::Other => {
                self.subtitle_error = Some("请选择 SRT 或 VTT 字幕文件".to_owned());
                None
            },
            SubtitlePick::Subtitle(track) => {
                self.attach_track(&track);
                let ghost attached = *self;
                assert(old(self).is_attached(attached, track));
                self.confirm_subtitle(track, true)
            },
        }
    }

    // ------------------------------------------------------------------ start

    /// A start command. Where another input stands in the field than the one that was
    /// read last, that one is abandoned first; the reads that have to be told to stop
    /// are handed back. Without an input the person is asked for one; otherwise the
    /// source is inspected first, unless it was or is being read.
    pub fn start_conversion(&mut self, input: &str) -> (result: Start)
        ensures
            ({
                let other = input@ != old(self).last_source_input@;
                let settled = old(self).source_preview is Some || old(self).previewing;
                &&& result.step == (if input@.len() == 0 {
                    StartStep::Refused
                } else if other || !settled {
                    StartStep::Inspect
                } else {
                    StartStep::Go
                })
                &&& other ==> {
                    &&& final(self).last_source_input@ == input@
                    &&& old(self).is_invalidated(
                        Workbench {
                            last_source_input: old(self).last_source_input,
                            source_validation: None,
                            ..*final(self)
                        },
                    )
                    &&& result.cancelled == Some(
                        Cancelled {
                            preview: old(self).previewing,
                            subtitle: old(self).subtitle_reading,
                        },
                    )
                    &&& input@.len() > 0 ==> final(self).source_validation is None
                }
                &&& !other ==> {
                    &&& result.cancelled is None
                    &&& input@.len() > 0 ==> *final(self) == *old(self)
                    &&& *final(self) == (Workbench {
                        source_validation: final(self).source_validation,
                        ..*old(self)
                    })
                }
                &&& input@.len() == 0 ==> text_of(final(self).source_validation) == Some(
                    asks_for_input(old(self).online),
                )
            }),
    {
        let cancelled = if same(input, self.last_source_input.as_str()) {
            None
        } else {
            Some(self.take_source(input.to_owned()))
        };
        let step = if input.is_empty() {
            self.source_validation = Some(input_request(self.online));
            StartStep::Refused
        } else if self.source_preview.is_none() && !self.previewing {
            StartStep::Inspect
        } else {
            StartStep::Go
        };
        Start { step, cancelled }
    }

    /// The start command holds for the source as it now is. On the workbench its
    /// result is followed.
    pub fn arm(&mut self, page: Page) -> (result: Option<ConversionFollow>)
        ensures
            *final(self) == (Workbench {
                pending_conversion: Some(old(self).preview_generation),
                ..*old(self)
            }),
            result == (if page is New {
                Some(ConversionFollow::Preparing(old(self).preview_generation))
            } else {
                None
            }),
    {
        self.pending_conversion = Some(self.preview_generation);
        if matches!(page, Page::New) {
            Some(ConversionFollow::Preparing(self.preview_generation))
        } else {
            None
        }
    }

    /// A source or a subtitle is being read.
    pub open spec fn is_reading(self) -> bool {
        self.previewing || self.subtitle_loading
    }

    /// The start command is still for this source, nothing is being read, and
    /// automatic mode gives up on subtitles.
    pub open spec fn fallback_due(self) -> bool {
        &&& self.pending_conversion == Some(self.preview_generation)
        &&& !self.is_reading()
        &&& self.source_preview matches Some(source) && falls_back(
            source,
            self.task_options.source_mode,
            text_of(self.subtitle_error),
        )
    }

    /// Gives up on subtitles where that is due, before a start command is decided on.
    pub fn fall_back_if_due(&mut self) -> (result: bool)
        ensures
            result == old(self).fallback_due(),
            !result ==> *final(self) == *old(self),
            result ==> {
                &&& *final(self) == (Workbench {
                    subtitle_error: None,
                    source_preview: final(self).source_preview,
                    ..*old(self)
                })
                &&& final(self).source_preview is Some
                &&& fell_back(
                    old(self).source_preview->0,
                    final(self).source_preview->0,
                    text_of(old(self).subtitle_error),
                )
            },
    {
        let due = match self.pending_conversion {
            Some(generation) => generation == self.preview_generation,
            None => false,
        };
        if !due || self.previewing || self.subtitle_loading {
            return false;
        }
        let mode = self.task_options.source_mode;
        let mut fallen = false;
        if let Some(source) = &mut self.source_preview {
            let error = match &self.subtitle_error {
                Some(message) => Some(message.as_str()),
                None => None,
            };
            fallen = automatic_subtitle_fallback(source, mode, error);
        }
        if fallen {
            self.subtitle_error = None;
        }
        fallen
    }

    /// Something about the subtitles is open.
    pub open spec fn needs_attention(self) -> bool {
        ||| self.subtitle_loading
        ||| self.subtitle_error is Some
        ||| (self.source_preview is Some && needs_confirmation(
            self.source_preview->0,
            self.task_options.source_mode,
        ))
    }

    pub fn subtitle_attention_required(&self) -> (result: bool)
        ensures
            result == self.needs_attention(),
    {
        self.subtitle_loading || self.subtitle_error.is_some() || match &self.source_preview {
            Some(source) => subtitle_needs_confirmation(source, self.task_options.source_mode),
            None => false,
        }
    }

    /// Decides on the pending start command. One that is stopped is gone.
    pub fn advance_conversion(
        &mut self,
        environment_ready: bool,
        library_ready: bool,
        existing_note: bool,
    ) -> (result: Option<ConversionGate>)
        ensures
            match old(self).pending_conversion {
                None => result is None && *final(self) == *old(self),
                Some(generation) => {
                    &&& result == Some(
                        gate(
                            generation,
                            old(self).preview_generation,
                            old(self).is_reading(),
                            old(self).source_preview is Some,
                            old(self).needs_attention(),
                            environment_ready,
                            library_ready,
                            existing_note,
                        ),
                    )
                    &&& *final(self) == (if result == Some(ConversionGate::Stop) {
                        Workbench { pending_conversion: None, ..*old(self) }
                    } else {
                        *old(self)
                    })
                },
            },
    {
        let generation = match self.pending_conversion {
            Some(generation) => generation,
            None => {
                return None;
            },
        };
        let verdict = conversion_gate(
            generation,
            self.preview_generation,
            self.previewing || self.subtitle_loading,
            self.source_preview.is_some(),
            self.subtitle_attention_required(),
            environment_ready,
            library_ready,
            existing_note,
        );
        if matches!(verdict, ConversionGate::Stop) {
            self.pending_conversion = None;
        }
        Some(verdict)
    }

    /// The input could not be saved, so the start command ends.
    pub fn abandon_start(&mut self)
        ensures
            *final(self) == (Workbench { pending_conversion: None, ..*old(self) }),
    {
        self.pending_conversion = None;
    }

    /// What becomes of files that were dropped, once local files are what is converted:
    /// one is entered, several are left to a choice.
    pub fn drop_source_files(&mut self, files: Vec<SourceCandidate>) -> (result: DropStep)
        ensures
            !final(self).online,
            files@.len() == 0 ==> result is Nothing && *final(self) == (Workbench {
                online: false,
                ..*old(self)
            }),
            files@.len() == 1 ==> (result matches DropStep::Enter(input) && input@
                == files@[0].input@) && *final(self) == (Workbench { online: false, ..*old(self) }),
            files@.len() > 1 ==> {
                &&& result == (DropStep::Choose(
                    Cancelled {
                        preview: old(self).previewing,
                        subtitle: old(self).subtitle_reading,
                    },
                ))
                &&& final(self).source_candidates == files
                &&& text_of(final(self).source_collection_title) == Some(
                    "拖入了多个文件，请选择本次处理的视频"@,
                )
                &&& exists|cleared: Workbench| #[trigger]
                    old(self).is_invalidated(cleared) && *final(self) == (Workbench {
                        online: false,
                        source_candidates: files,
                        source_collection_title: final(self).source_collection_title,
                        ..cleared
                    })
            },
    {
        if files.len() == 0 {
            self.online = false;
            return DropStep::Nothing;
        }
        if files.len() == 1 {
            self.online = false;
            return DropStep::Enter(files[0].input.clone());
        }
        let cancelled = self.invalidate_source();
        let ghost cleared = *self;
        self.online = false;
        self.source_collection_title = Some("拖入了多个文件，请选择本次处理的视频".to_owned());
        self.source_candidates = files;
        assert(old(self).is_invalidated(cleared));
        DropStep::Choose(cancelled)
    }
}

impl Workbench {
    /// The workbench as the application opens it.
    pub fn new(task_options: ConversionOptions) -> (result: Workbench)
        ensures
            result.last_source_input@.len() == 0,
            result.source_candidates@.len() == 0,
            result == (Workbench {
                online: true,
                last_source_input: result.last_source_input,
                completed_source: None,
                source_preview: None,
                source_candidates: result.source_candidates,
                source_collection_title: None,
                source_editor_open: false,
                source_validation: None,
                previewing: false,
                preview_generation: 0,
                preview_error: None,
                preview_workers: 0,
                show_preview_details: false,
                subtitle_loading: false,
                subtitle_reading: false,
                subtitle_generation: 0,
                subtitle_error: None,
                expanded_subtitle_issue: None,
                generation_options_open: false,
                pending_conversion: None,
                task_options,
            }),
    {
        Workbench {
            online: true,
            last_source_input: String::new(),
            completed_source: None,
            source_preview: None,
            source_candidates: Vec::new(),
            source_collection_title: None,
            source_editor_open: false,
            source_validation: None,
            previewing: false,
            preview_generation: 0,
            preview_error: None,
            preview_workers: 0,
            show_preview_details: false,
            subtitle_loading: false,
            subtitle_reading: false,
            subtitle_generation: 0,
            subtitle_error: None,
            expanded_subtitle_issue: None,
            generation_options_open: false,
            pending_conversion: None,
            task_options,
        }
    }

    /// Another input was entered: what was read of the last one is gone.
    pub fn take_source(&mut self, value: String) -> (result: Cancelled)
        ensures
            final(self).last_source_input == value,
            old(self).is_invalidated(
                Workbench { last_source_input: old(self).last_source_input, ..*final(self) },
            ),
            result == (Cancelled {
                preview: old(self).previewing,
                subtitle: old(self).subtitle_reading,
            }),
    {
        let cancelled = self.invalidate_source();
        self.last_source_input = value;
        cancelled
    }

    /// A fresh input took the place of a submitted one: it brings its own options.
    pub fn prepare_next_import(&mut self, options: ConversionOptions) -> (result: Cancelled)
        ensures
            final(self).completed_source is None,
            final(self).task_options == options,
            old(self).is_invalidated(
                Workbench {
                    completed_source: old(self).completed_source,
                    task_options: old(self).task_options,
                    ..*final(self)
                },
            ),
            result == (Cancelled {
                preview: old(self).previewing,
                subtitle: old(self).subtitle_reading,
            }),
    {
        let cancelled = self.invalidate_source();
        self.task_options = options;
        self.completed_source = None;
        cancelled
    }

    /// A fresh input took the place of one that is history: its field is open.
    pub fn prepare_workbench_input(&mut self) -> (result: Cancelled)
        ensures
            final(self).completed_source is None,
            final(self).source_editor_open,
            !final(self).generation_options_open,
            old(self).is_invalidated(
                Workbench {
                    completed_source: old(self).completed_source,
                    source_editor_open: false,
                    ..*final(self)
                },
            ),
            result == (Cancelled {
                preview: old(self).previewing,
                subtitle: old(self).subtitle_reading,
            }),
    {
        let cancelled = self.invalidate_source();
        self.completed_source = None;
        self.source_editor_open = true;
        self.generation_options_open = false;
        cancelled
    }

    /// A way to get the text was chosen. Speech settles the source at once; the
    /// result says whether a subtitle read has to be told to stop.
    pub fn choose_text_mode(&mut self, mode: usize) -> (result: bool)
        ensures
            *final(self) == (if mode == 2 {
                old(self).with_text_source(2)
            } else {
                Workbench {
                    task_options: ConversionOptions {
                        source_mode: mode,
                        ..old(self).task_options
                    },
                    ..*old(self)
                }
            }),
            result == (mode == 2 && old(self).subtitle_reading),
    {
        if mode == 2 {
            self.use_speech()
        } else {
            apply_text_source_mode(&mut self.task_options, mode);
            false
        }
    }
}

/// What a start command does first.
#[derive(Clone, Copy, Debug, PartialEq, Eq, Structural)]
pub enum StartStep {
    Refused,
    Inspect,
    Go,
}

/// A start command: what it does first, and the reads of an abandoned source.
pub struct Start {
    pub step: StartStep,
    pub cancelled: Option<Cancelled>,
}

/// What files that were dropped lead to.
pub enum DropStep {
    Nothing,
    Enter(String),
    Choose(Cancelled),
}

/// The name of a note: the person's own, where there is one, else the video's.
pub fn note_title(draft: Option<&Draft>, source: &Source) -> (result: String)
    ensures
        result@ == (match draft {
            Some(own) if own.custom_title => own.title@,
            _ => source.title@,
        }),
{
    match draft {
        Some(own) if own.custom_title => own.title.clone(),
        _ => source.title.clone(),
    }
}

/// A submitted input makes way for another one: whether the next import has to be
/// prepared before `value` is taken.
pub fn needs_next_import(draft: Option<&Draft>, value: &str) -> (result: bool)
    ensures
        result == (draft is Some && draft->0.submitted_task is Some && draft->0.input@ != value@),
{
    match draft {
        Some(own) => own.submitted_task.is_some() && !same(own.input.as_str(), value),
        None => false,
    }
}

// ----------------------------------------------------------------------- laws

/// Once the source is abandoned, no result of an earlier read counts: neither of
/// the source, nor of a subtitle, nor does the start command go on.
pub proof fn abandoned_reads_do_not_count(
    before: Workbench,
    after: Workbench,
    ticket: SubtitleTicket,
    requested: Seq<char>,
    current: Seq<char>,
    input_matches: bool,
)
    requires
        before.is_invalidated(after),
        ticket.preview_generation == before.preview_generation,
    ensures
        !after.ticket_counts(ticket, input_matches),
        !after.inspection_counts(before.preview_generation, requested, current, input_matches),
        after.pending_conversion is None,
        !after.is_reading(),
{
}

/// A choice of the text source ends every earlier read of a subtitle, and nothing
/// about the subtitles is open afterwards.
pub proof fn a_choice_ends_earlier_reads(
    before: Workbench,
    source_mode: usize,
    ticket: SubtitleTicket,
    input_matches: bool,
)
    requires
        ticket.subtitle_generation == before.subtitle_generation,
        source_mode == 2 || (source_mode == 1 && before.source_preview is Some
            && before.source_preview->0.selected_subtitle is Some),
    ensures
        !before.with_text_source(source_mode).ticket_counts(ticket, input_matches),
        !before.with_text_source(source_mode).needs_attention(),
{
}

/// A subtitle that a person asked for is the text source whatever becomes of the
/// read: it never turns into speech.
pub proof fn an_explicit_subtitle_never_becomes_speech(
    before: Workbench,
    after: Workbench,
    outcome: Result<CachedSubtitle, SubtitleReadError>,
)
    requires
        before.source_preview is Some,
        before.task_options.source_mode == 1,
        before.is_subtitle_read(after, true, outcome),
    ensures
        after.task_options.source_mode == 1,
        !after.fallback_due(),
        outcome is Ok ==> !after.needs_attention() || before.subtitle_error is Some,
        outcome is Err ==> after.source_preview->0.selected_subtitle
            == before.source_preview->0.selected_subtitle,
{
}

/// A fallback that was due leaves nothing that would make the start command wait
/// for subtitles.
pub proof fn a_fallback_lets_the_start_go_on(before: Workbench, after: Workbench)
    requires
        before.fallback_due(),
        after == (Workbench {
            subtitle_error: None,
            source_preview: after.source_preview,
            ..before
        }),
        after.source_preview is Some,
        fell_back(
            before.source_preview->0,
            after.source_preview->0,
            text_of(before.subtitle_error),
        ),
    ensures
        !after.needs_attention(),
        !after.fallback_due() || after.source_preview->0.subtitles is Failed,
{
}

// ------------------------------------------------------- what a call comes to

/// Another input ends everything that was under way for the one before and keeps what was
/// chosen for the conversion: nothing that was read or asked earlier counts.
pub proof fn another_input_starts_anew(
    bench: &mut Workbench,
    cancelled: Cancelled,
    ticket: SubtitleTicket,
    requested: &str,
    current: &str,
    matching: bool,
    counts: bool,
    inspected: bool,
)
    requires
        call_ensures(Workbench::invalidate_source, (bench,), cancelled),
        ticket.preview_generation == old(bench).preview_generation,
        call_ensures(Workbench::ticket_is_current, (&*final(bench), &ticket, matching), counts),
        call_ensures(
            Workbench::inspection_is_current,
            (&*final(bench), old(bench).preview_generation, requested, current, matching),
            inspected,
        ),
    ensures
        !counts,
        !inspected,
        cancelled.preview == old(bench).previewing,
        cancelled.subtitle == old(bench).subtitle_reading,
        final(bench).source_preview is None,
        final(bench).pending_conversion is None,
        final(bench).source_candidates@.len() == 0,
        final(bench).preview_error is None && final(bench).subtitle_error is None,
        final(bench).task_options == old(bench).task_options,
        final(bench).last_source_input == old(bench).last_source_input,
        final(bench).online == old(bench).online,
        final(bench).preview_workers == old(bench).preview_workers,
{
}

/// What was found of a video counts only for the very read, draft and input it was asked
/// for.
pub proof fn a_finding_counts_for_what_was_asked(
    bench: Workbench,
    generation: u64,
    requested: &str,
    current: &str,
    matching: bool,
    counts: bool,
)
    requires
        call_ensures(
            Workbench::inspection_is_current,
            (&bench, generation, requested, current, matching),
            counts,
        ),
    ensures
        counts ==> generation == bench.preview_generation && requested@ == current@ && matching,
        generation == bench.preview_generation && requested@ == current@ && matching ==> counts,
{
}

/// A subtitle that was read counts only for the read that asked for it, of the video that
/// is still shown.
pub proof fn a_subtitle_counts_for_its_video(
    bench: Workbench,
    ticket: SubtitleTicket,
    matching: bool,
    counts: bool,
)
    requires
        call_ensures(Workbench::ticket_is_current, (&bench, &ticket, matching), counts),
    ensures
        bench.source_preview is None ==> !counts,
        !matching ==> !counts,
        ticket.subtitle_generation != bench.subtitle_generation ==> !counts,
        ticket.preview_generation != bench.preview_generation ==> !counts,
        bench.source_preview is Some && bench.source_preview->0.identity@ != ticket.identity@
            ==> !counts,
        matching && ticket.subtitle_generation == bench.subtitle_generation
            && ticket.preview_generation == bench.preview_generation && bench.source_preview is Some
            && bench.source_preview->0.identity@ == ticket.identity@ ==> counts,
{
}

/// A subtitle that is asked for is read: its ticket counts, the mode is the person's where
/// they chose it, and what was confirmed before stays until it is read.
pub proof fn a_subtitle_that_is_asked_for_is_read(
    bench: &mut Workbench,
    track: SubtitleTrack,
    explicit: bool,
    asked: Option<SubtitleTicket>,
    counts: bool,
)
    requires
        call_ensures(Workbench::confirm_subtitle, (bench, track, explicit), asked),
        asked is Some ==> call_ensures(
            Workbench::ticket_is_current,
            (&*final(bench), &asked->0, true),
            counts,
        ),
    ensures
        asked is Some <==> old(bench).source_preview is Some,
        asked is None ==> *final(bench) == *old(bench),
        asked is Some ==> {
            &&& counts
            &&& asked->0.explicit == explicit
            &&& final(bench).subtitle_loading
            &&& final(bench).subtitle_generation != old(bench).subtitle_generation
            &&& explicit ==> final(bench).task_options.source_mode == 1
            &&& !explicit ==> final(bench).task_options == old(bench).task_options
            &&& final(bench).source_preview->0.subtitle_request == Some(track)
            &&& final(bench).source_preview->0.selected_subtitle == old(
                bench).source_preview->0.selected_subtitle
            &&& final(bench).source_preview->0.subtitles == old(bench).source_preview->0.subtitles
        },
{
}

/// A subtitle that was read is the confirmed one, with nothing open about it. One that
/// failed is told, and what was confirmed before stays; one that was cancelled ends the
/// start of a conversion and leaves the choice. What does not count changes nothing.
pub proof fn a_subtitle_is_confirmed_once_read(
    bench: &mut Workbench,
    ticket: SubtitleTicket,
    matching: bool,
    outcome: Result<CachedSubtitle, SubtitleReadError>,
    counted: bool,
)
    requires
        call_ensures(Workbench::finish_subtitle, (bench, &ticket, matching, outcome), counted),
    ensures
        !counted ==> *final(bench) == *old(bench),
        counted ==> old(bench).source_preview is Some && !final(bench).subtitle_loading && !final(
            bench).subtitle_reading,
        counted && outcome is Ok ==> {
            let shown = final(bench).source_preview->0;
            &&& final(bench).source_preview is Some
            &&& shown.selected_subtitle == Some(outcome->Ok_0)
            &&& shown.subtitle_request is None
            &&& shown.subtitle_read_error is None
            &&& ticket.explicit ==> final(bench).task_options.source_mode == 1
            &&& !ticket.explicit ==> final(bench).task_options == old(bench).task_options
            &&& final(bench).pending_conversion == old(bench).pending_conversion
        },
        counted && outcome is Err ==> final(bench).source_preview->0.selected_subtitle == old(
            bench).source_preview->0.selected_subtitle && final(bench).task_options == old(
            bench).task_options,
        counted && outcome is Err && outcome->Err_0 is Cancelled ==> final(
            bench).pending_conversion is None && final(bench).source_preview == old(
            bench).source_preview && final(bench).subtitle_error == old(bench).subtitle_error,
        counted && outcome is Err && outcome->Err_0 is Failed ==> text_of(
            final(bench).subtitle_error) == Some(outcome->Err_0->message@) && final(
            bench).pending_conversion == old(bench).pending_conversion && final(
            bench).source_preview->0.subtitle_read_error == Some(outcome->Err_0),
{
}

/// Choosing speech takes effect at once: a read that is under way is cancelled and counts
/// no more, nobody is asked about subtitles, and the confirmed text stays.
pub proof fn speech_takes_effect_at_once(
    bench: &mut Workbench,
    cancelled: bool,
    ticket: SubtitleTicket,
    counts: bool,
    asked: bool,
)
    requires
        call_ensures(Workbench::use_speech, (bench,), cancelled),
        ticket.subtitle_generation == old(bench).subtitle_generation,
        call_ensures(Workbench::ticket_is_current, (&*final(bench), &ticket, true), counts),
        call_ensures(Workbench::subtitle_attention_required, (&*final(bench),), asked),
    ensures
        !counts,
        !asked,
        cancelled == old(bench).subtitle_reading,
        final(bench).task_options == (ConversionOptions {
            source_mode: 2,
            ..old(bench).task_options
        }),
        old(bench).source_preview is Some ==> final(bench).source_preview is Some && final(
            bench).source_preview->0.selected_subtitle == old(
            bench).source_preview->0.selected_subtitle && final(
            bench).source_preview->0.subtitle_request is None,
        final(bench).pending_conversion == old(bench).pending_conversion,
{
}

/// The confirmed text can be used exactly where there is one; nobody is asked then.
pub proof fn the_confirmed_text_can_be_used(bench: &mut Workbench, used: bool, asked: bool)
    requires
        call_ensures(Workbench::use_confirmed_subtitle, (bench,), used),
        call_ensures(Workbench::subtitle_attention_required, (&*final(bench),), asked),
    ensures
        used <==> old(bench).source_preview is Some && old(
            bench).source_preview->0.selected_subtitle is Some,
        !used ==> *final(bench) == *old(bench),
        used ==> !asked && final(bench).task_options.source_mode == 1 && final(
            bench).source_preview->0.selected_subtitle == old(
            bench).source_preview->0.selected_subtitle,
{
}

/// Stopping a read stops the start of a conversion too, and leaves the chosen source and
/// the confirmed text.
pub proof fn stopping_a_read_stops_the_start(
    bench: &mut Workbench,
    cancelled: bool,
    ticket: SubtitleTicket,
    counts: bool,
)
    requires
        call_ensures(Workbench::cancel_subtitle_read, (bench,), cancelled),
        ticket.subtitle_generation == old(bench).subtitle_generation,
        call_ensures(Workbench::ticket_is_current, (&*final(bench), &ticket, true), counts),
    ensures
        !counts,
        cancelled == old(bench).subtitle_reading,
        final(bench).pending_conversion is None,
        final(bench).task_options == old(bench).task_options,
        !final(bench).subtitle_loading,
        old(bench).source_preview is Some ==> final(bench).source_preview is Some && final(
            bench).source_preview->0.selected_subtitle == old(
            bench).source_preview->0.selected_subtitle,
{
}

/// A conversion is started from the input that is shown: nothing is started without one,
/// another input is read first, and what was read already is not read again.
pub proof fn a_conversion_starts_from_what_is_shown(bench: &mut Workbench, input: &str, start: Start)
    requires
        call_ensures(Workbench::start_conversion, (bench, input), start),
    ensures
        input@.len() == 0 <==> start.step is Refused,
        start.step is Go ==> *final(bench) == *old(bench) && start.cancelled is None && old(
            bench).last_source_input@ == input@,
        input@.len() > 0 && input@ == old(bench).last_source_input@ && (old(
            bench).source_preview is Some || old(bench).previewing) ==> start.step is Go,
        input@.len() > 0 && input@ != old(bench).last_source_input@ ==> start.step is Inspect
            && final(bench).source_preview is None && final(bench).last_source_input@ == input@
            && final(bench).preview_generation != old(bench).preview_generation,
        input@.len() > 0 && old(bench).source_preview is None && !old(bench).previewing
            ==> start.step is Inspect,
        start.cancelled is Some <==> input@ != old(bench).last_source_input@,
        final(bench).task_options == old(bench).task_options,
        input@.len() == 0 ==> final(bench).source_validation is Some,
{
}

/// A conversion that was started waits for the input it was started for, and its result is
/// followed from the workbench alone.
pub proof fn a_start_waits_for_its_input(
    bench: &mut Workbench,
    page: Page,
    follow: Option<ConversionFollow>,
)
    requires
        call_ensures(Workbench::arm, (bench, page), follow),
    ensures
        final(bench).pending_conversion == Some(old(bench).preview_generation),
        follow is Some <==> page is New,
        follow is Some ==> follow->0 == ConversionFollow::Preparing(old(bench).preview_generation),
        final(bench).source_preview == old(bench).source_preview,
        final(bench).task_options == old(bench).task_options,
{
}

/// A conversion that was started is submitted only once its input was read, everything about
/// its text is settled, and nothing is in its way; it is given up where its input was
/// changed, could not be read, or has a note already. Where nothing was started nothing
/// happens.
pub proof fn a_start_goes_on_once_all_is_ready(
    bench: &mut Workbench,
    environment: bool,
    library: bool,
    existing: bool,
    step: Option<ConversionGate>,
    asked: bool,
)
    requires
        call_ensures(Workbench::advance_conversion, (bench, environment, library, existing), step),
        call_ensures(Workbench::subtitle_attention_required, (&*old(bench),), asked),
    ensures
        old(bench).pending_conversion is None <==> step is None,
        step == Some(ConversionGate::Submit) <==> old(bench).pending_conversion == Some(
            old(bench).preview_generation,
        ) && old(bench).source_preview is Some && !old(bench).previewing && !old(
            bench).subtitle_loading && !asked && environment && library && !existing,
        old(bench).pending_conversion is Some && old(bench).pending_conversion != Some(
            old(bench).preview_generation,
        ) ==> step == Some(ConversionGate::Stop),
        step == Some(ConversionGate::Stop) ==> *final(bench) == (Workbench {
            pending_conversion: None,
            ..*old(bench)
        }),
        step != Some(ConversionGate::Stop) ==> *final(bench) == *old(bench),
{
}

/// A failure to read subtitles lets a started conversion go on with speech only where the
/// person left the source of the text open; nobody is asked then, and the conversion stays
/// started.
pub proof fn a_start_goes_on_with_speech(
    bench: &mut Workbench,
    fell: bool,
    asked: bool,
)
    requires
        call_ensures(Workbench::fall_back_if_due, (bench,), fell),
        call_ensures(Workbench::subtitle_attention_required, (&*final(bench),), asked),
    ensures
        !fell ==> *final(bench) == *old(bench),
        old(bench).task_options.source_mode != 0 ==> !fell,
        old(bench).pending_conversion is None ==> !fell,
        old(bench).previewing || old(bench).subtitle_loading ==> !fell,
        old(bench).source_preview is Some && old(bench).source_preview->0.selected_subtitle is Some
            ==> !fell,
        fell ==> !asked && final(bench).pending_conversion == old(bench).pending_conversion
            && final(bench).task_options == old(bench).task_options && final(
            bench).subtitle_error is None && final(bench).source_preview->0.subtitles is Failed,
{
}

/// A person is asked about the text exactly where it is being read, could not be read, or
/// is not settled.
pub proof fn what_is_not_settled_is_asked(
    bench: Workbench,
    asked: bool,
    unsettled: bool,
)
    requires
        call_ensures(Workbench::subtitle_attention_required, (&bench,), asked),
        bench.source_preview is Some ==> call_ensures(
            crate::subtitles::subtitle_needs_confirmation,
            (&bench.source_preview->0, bench.task_options.source_mode),
            unsettled,
        ),
    ensures
        bench.subtitle_loading || bench.subtitle_error is Some ==> asked,
        bench.source_preview is Some && unsettled ==> asked,
        !bench.subtitle_loading && bench.subtitle_error is None && (bench.source_preview is None
            || !unsettled) ==> !asked,
{
}

/// What is pasted leads to one video: an input with one link to that link, one with several
/// to a choice among all of them, and a file to itself. What is being read already is not
/// read again, and nothing is read without an input.
pub proof fn an_input_leads_to_one_video(
    bench: &mut Workbench,
    input: &str,
    links: Vec<String>,
    led: (InspectStep, Option<Cancelled>),
    i: int,
)
    requires
        call_ensures(Workbench::inspect_source, (bench, input, &links), led),
    ensures
        led.0 is Ignored <==> old(bench).previewing && old(bench).last_source_input@ == input@,
        led.0 is Ignored ==> *final(bench) == *old(bench),
        !(led.0 is Ignored) && input@.len() == 0 ==> led.0 is Refused && final(
            bench).source_validation is Some,
        led.0 is Refused ==> input@.len() == 0,
        led.0 is Choose ==> old(bench).online && links@.len() > 1 && final(
            bench).source_candidates@.len() == links@.len(),
        led.0 is Choose && 0 <= i < links@.len() ==> final(bench).source_candidates@[i].input@
            == links@[i]@,
        led.0 matches InspectStep::Check(target) ==> {
            &&& old(bench).online && links@.len() == 1 ==> target@ == links@[0]@
            &&& !old(bench).online || links@.len() == 0 ==> target@ == input@
            &&& !(old(bench).online && links@.len() > 1)
        },
        !(led.0 is Ignored) ==> final(bench).preview_generation != old(bench).preview_generation
            && final(bench).pending_conversion is None && final(bench).source_preview is None,
        final(bench).task_options == old(bench).task_options,
{
}

/// Files that are dropped: one is entered, several are offered to choose from, all of them
/// and in their order.
pub proof fn dropped_files_are_offered(
    bench: &mut Workbench,
    files: Vec<SourceCandidate>,
    step: DropStep,
)
    requires
        call_ensures(Workbench::drop_source_files, (bench, files), step),
    ensures
        !final(bench).online,
        step is Nothing <==> files@.len() == 0,
        step is Enter <==> files@.len() == 1,
        step is Choose <==> files@.len() > 1,
        step matches DropStep::Enter(input) ==> input@ == files@[0].input@,
        step is Choose ==> final(bench).source_candidates@ == files@,
        files@.len() <= 1 ==> final(bench).source_preview == old(bench).source_preview,
{
}

proof fn track_is_first(tracks: Seq<SubtitleTrack>, id: Seq<char>)
    ensures
        track_with_id(tracks, id) is Some <==> has_track(tracks, id),
        track_with_id(tracks, id) matches Some(track) ==> track.id@ == id && tracks.contains(track),
    decreases tracks.len(),
{
    if tracks.len() > 0 {
        let rest = tracks.skip(1);
        track_is_first(rest, id);
        if has_track(tracks, id) && tracks[0].id@ != id {
            let i = choose|i: int| 0 <= i < tracks.len() && (#[trigger] tracks[i]).id@ == id;
            assert(rest[i - 1] == tracks[i]);
        }
        if has_track(rest, id) {
            let i = choose|i: int| 0 <= i < rest.len() && (#[trigger] rest[i]).id@ == id;
            assert(tracks[i + 1] == rest[i]);
        }
        if track_with_id(tracks, id) is Some && tracks[0].id@ != id {
            let track = track_with_id(tracks, id)->0;
            let i = choose|i: int| 0 <= i < rest.len() && rest[i] == track;
            assert(tracks[i + 1] == track);
        }
        if tracks[0].id@ == id {
            assert(tracks.contains(tracks[0]));
        }
    }
}

/// A video that is read again keeps the subtitle that was confirmed for it, and the one that
/// was wanted is read again where it was found; another video keeps nothing of it. Where
/// speech was chosen no subtitle is read.
pub proof fn a_video_keeps_its_subtitle(
    bench: &mut Workbench,
    source: Source,
    previous: Option<Source>,
    next: Option<SubtitleTrack>,
)
    requires
        call_ensures(Workbench::finish_single, (bench, source, previous), next),
    ensures
        !final(bench).previewing,
        final(bench).source_preview is Some,
        final(bench).source_preview->0.identity == source.identity,
        final(bench).source_preview->0.subtitles == source.subtitles,
        previous is Some && previous->0.identity@ == source.identity@ ==> final(
            bench).source_preview->0.selected_subtitle == previous->0.selected_subtitle,
        previous is None || previous->0.identity@ != source.identity@ ==> final(
            bench).source_preview->0.selected_subtitle == source.selected_subtitle,
        old(bench).task_options.source_mode == 2 ==> next is None,
        old(bench).task_options.source_mode != 2 && (previous is None || previous->0.identity@
            != source.identity@) ==> (next is Some <==> tracks_of(source.subtitles).len() > 0)
            && (next is Some ==> next->0 == tracks_of(source.subtitles)[0]),
        old(bench).task_options.source_mode != 2 && previous is Some && previous->0.identity@
            == source.identity@ && previous->0.subtitle_request is Some && has_track(
            tracks_of(source.subtitles),
            previous->0.subtitle_request->0.id@,
        ) ==> next is Some && next->0.id@ == previous->0.subtitle_request->0.id@,
        old(bench).task_options.source_mode != 2 && previous is Some && previous->0.identity@
            == source.identity@ && previous->0.subtitle_request is None
            && previous->0.selected_subtitle is Some && has_track(
            tracks_of(source.subtitles),
            previous->0.selected_subtitle->0.track_id@,
        ) ==> next is Some && next->0.id@ == previous->0.selected_subtitle->0.track_id@,
        final(bench).task_options == old(bench).task_options,
        final(bench).pending_conversion == old(bench).pending_conversion,
{
    let kept = kept_source(source, previous);
    if let Some(id) = wanted_id(kept) {
        track_is_first(tracks_of(source.subtitles), id);
    }
}

/// A subtitle file joins what was found, once; what was found stays.
pub proof fn a_file_joins_what_was_found(bench: &mut Workbench, track: SubtitleTrack, i: int)
    requires
        call_ensures(Workbench::attach_track, (bench, &track), ()),
        old(bench).source_preview is Some,
    ensures
        final(bench).source_preview is Some,
        ({
            let before = tracks_of(old(bench).source_preview->0.subtitles);
            let after = tracks_of(final(bench).source_preview->0.subtitles);
            &&& has_track(after, track.id@)
            &&& 0 <= i < before.len() ==> i < after.len() && after[i] == before[i]
            &&& after.len() <= before.len() + 1
            &&& has_track(before, track.id@) ==> after == before
        }),
        final(bench).source_preview->0.selected_subtitle == old(
            bench).source_preview->0.selected_subtitle,
        final(bench).task_options == old(bench).task_options,
{
    let before = tracks_of(old(bench).source_preview->0.subtitles);
    let after = tracks_of(final(bench).source_preview->0.subtitles);
    if !has_track(before, track.id@) {
        assert(after[before.len() as int].id@ == track.id@);
    }
}

/// A file that is picked is asked for as the person's choice, where the video it was picked
/// for is still shown; anything else that was picked is told, and changes nothing more.
pub proof fn a_picked_file_is_a_choice(
    bench: &mut Workbench,
    generation: u64,
    identity: &str,
    pick: SubtitlePick,
    asked: Option<SubtitleTicket>,
)
    requires
        call_ensures(
            Workbench::choose_attached_subtitle,
            (bench, generation, identity, pick),
            asked,
        ),
    ensures
        asked is Some ==> pick is Subtitle && asked->0.explicit && final(
            bench).task_options.source_mode == 1 && old(bench).source_preview is Some && old(
            bench).source_preview->0.identity@ == identity@ && old(bench).preview_generation
            == generation,
        generation != old(bench).preview_generation ==> *final(bench) == *old(bench),
        pick is Nothing ==> *final(bench) == *old(bench),
        pick is Failed || pick is Other ==> final(bench).source_preview == old(
            bench).source_preview && final(bench).task_options == old(bench).task_options,
        pick is Subtitle && old(bench).source_preview is Some && old(
            bench).source_preview->0.identity@ == identity@ && old(bench).preview_generation
            == generation ==> asked is Some,
{
}

/// A collection of videos is offered whole, and nothing of it is read before one is chosen.
pub proof fn a_collection_is_offered_whole(
    bench: &mut Workbench,
    title: String,
    candidates: Vec<SourceCandidate>,
    unavailable: u64,
)
    requires
        call_ensures(Workbench::finish_collection, (bench, title, candidates, unavailable), ()),
    ensures
        final(bench).source_candidates@ == candidates@,
        !final(bench).previewing,
        final(bench).source_preview == old(bench).source_preview,
        candidates@.len() == 0 || unavailable > 0 ==> final(bench).preview_error is Some,
        candidates@.len() > 0 && unavailable == 0 ==> final(bench).preview_error == old(
            bench).preview_error,
        title@.len() > 0 ==> text_of(final(bench).source_collection_title) == Some(title@),
{
}

/// A note is called as the person says, and as the video where they do not.
pub proof fn a_note_is_called_as_the_person_says(draft: Option<&Draft>, source: Source, title: String)
    requires
        call_ensures(note_title, (draft, &source), title),
    ensures
        draft is Some && draft->0.custom_title ==> title@ == draft->0.title@,
        draft is None || !draft->0.custom_title ==> title@ == source.title@,
{
}

/// An input that was submitted makes room for another exactly where another is entered.
pub proof fn a_submitted_input_makes_room(draft: Option<&Draft>, value: &str, next: bool)
    requires
        call_ensures(needs_next_import, (draft, value), next),
    ensures
        next ==> draft is Some && draft->0.submitted_task is Some && draft->0.input@ != value@,
        draft is Some && draft->0.submitted_task is Some && draft->0.input@ != value@ ==> next,
{
}

/// A link that is refused is not read, and the person is told why; a file is never refused
/// here.
pub proof fn a_refused_link_is_not_read(
    bench: &mut Workbench,
    target: String,
    invalid: Option<String>,
    accepted: bool,
)
    requires
        call_ensures(Workbench::accept_input, (bench, target, invalid), accepted),
    ensures
        !accepted <==> old(bench).online && invalid is Some,
        accepted ==> final(bench).last_source_input == target,
        !accepted ==> final(bench).source_validation == invalid && final(bench).last_source_input
            == old(bench).last_source_input,
        final(bench).source_preview == old(bench).source_preview,
{
}

/// A read of the subtitles that is tried again counts for the video that is shown; until it has
/// ended what was confirmed stays, and the person is told that it is not done.
pub proof fn a_retry_keeps_what_was_confirmed(
    bench: &mut Workbench,
    ticket: Option<SubtitleTicket>,
    counts: bool,
)
    requires
        call_ensures(Workbench::retry_subtitles, (bench,), ticket),
        ticket is Some ==> call_ensures(
            Workbench::ticket_is_current,
            (&*final(bench), &ticket->0, true),
            counts,
        ),
    ensures
        ticket is Some <==> old(bench).source_preview is Some,
        ticket is None ==> *final(bench) == *old(bench),
        ticket is Some ==> {
            &&& counts
            &&& !ticket->0.explicit
            &&& final(bench).subtitle_loading
            &&& final(bench).source_preview->0.selected_subtitle == old(
                bench).source_preview->0.selected_subtitle
            &&& final(bench).source_preview->0.subtitle_read_error is Some
            &&& final(bench).task_options == old(bench).task_options
        },
{
}

/// What a retry found is what is known of the subtitles from then on; the one that was confirmed
/// is read again where it is still there, and where it is not the person is told and keeps it.
pub proof fn a_retry_finds_the_subtitle_again(
    bench: &mut Workbench,
    ticket: SubtitleTicket,
    matching: bool,
    evidence: SubtitleEvidence,
    found: (bool, Option<SubtitleTrack>),
)
    requires
        call_ensures(Workbench::finish_retry, (bench, &ticket, matching, evidence), found),
    ensures
        !found.0 ==> *final(bench) == *old(bench) && found.1 is None,
        found.0 ==> {
            let before = old(bench).source_preview->0;
            let after = final(bench).source_preview->0;
            &&& old(bench).source_preview is Some && final(bench).source_preview is Some
            &&& after.subtitles == evidence
            &&& after.selected_subtitle == before.selected_subtitle
            &&& !final(bench).subtitle_loading
            &&& before.selected_subtitle matches Some(cached) ==> {
                &&& found.1 is Some <==> has_track(tracks_of(evidence), cached.track_id@)
                &&& found.1 is Some ==> found.1->0.id@ == cached.track_id@
                &&& found.1 is None ==> final(bench).subtitle_error is Some
            }
            &&& before.selected_subtitle is None ==> (found.1 is Some <==> tracks_of(evidence).len()
                > 0)
        },
{
    if found.0 {
        let before = old(bench).source_preview->0;
        if let Some(cached) = before.selected_subtitle {
            track_is_first(tracks_of(evidence), cached.track_id@);
        }
    }
}

/// A retry that failed is told, and what was confirmed stays.
pub proof fn a_failed_retry_is_told(
    bench: &mut Workbench,
    ticket: SubtitleTicket,
    matching: bool,
    message: String,
    counted: bool,
)
    requires
        call_ensures(Workbench::fail_retry, (bench, &ticket, matching, message), counted),
    ensures
        !counted ==> *final(bench) == *old(bench),
        counted ==> text_of(final(bench).subtitle_error) == Some(message@) && final(
            bench).source_preview->0.selected_subtitle == old(
            bench).source_preview->0.selected_subtitle && !final(bench).subtitle_loading && final(
            bench).task_options == old(bench).task_options,
{
}

/// Choosing a mode is choosing where the text comes from; speech ends what is being read, the
/// other modes leave it.
pub proof fn a_mode_is_a_choice_of_text(bench: &mut Workbench, mode: usize, cancelled: bool)
    requires
        call_ensures(Workbench::choose_text_mode, (bench, mode), cancelled),
    ensures
        final(bench).task_options == (ConversionOptions {
            source_mode: mode,
            ..old(bench).task_options
        }),
        mode != 2 ==> !cancelled && final(bench).source_preview == old(bench).source_preview && final(
            bench).subtitle_generation == old(bench).subtitle_generation && final(
            bench).subtitle_loading == old(bench).subtitle_loading,
        mode == 2 ==> cancelled == old(bench).subtitle_reading && !final(bench).subtitle_loading
            && final(bench).subtitle_generation != old(bench).subtitle_generation,
{
}

/// What is typed or entered is the input from then on; another input begins with the options it
/// is given and leaves nothing of the one before.
pub proof fn a_new_input_leaves_the_one_before(
    typed: &mut Workbench,
    value: String,
    ended: Cancelled,
    next: &mut Workbench,
    options: ConversionOptions,
    over: Cancelled,
)
    requires
        call_ensures(Workbench::take_source, (typed, value), ended),
        call_ensures(Workbench::prepare_next_import, (next, options), over),
    ensures
        final(typed).last_source_input == value,
        final(typed).source_preview is None && final(typed).pending_conversion is None,
        final(typed).task_options == old(typed).task_options,
        ended.preview == old(typed).previewing && ended.subtitle == old(typed).subtitle_reading,
        final(next).task_options == options,
        final(next).source_preview is None && final(next).completed_source is None && final(
            next).pending_conversion is None,
        over.preview == old(next).previewing && over.subtitle == old(next).subtitle_reading,
{
}

/// A new workbench is for links, has nothing on it, and the options it is given.
pub proof fn a_new_workbench_is_empty(options: ConversionOptions, bench: Workbench)
    requires
        call_ensures(Workbench::new, (options,), bench),
    ensures
        bench.online,
        bench.task_options == options,
        bench.source_preview is None && bench.pending_conversion is None && !bench.previewing,
        bench.last_source_input@.len() == 0,
{
}

/// A read that has begun is counted among those under way and is the one of the input that is
/// shown; one that has ended is counted no more.
pub proof fn reads_under_way_are_counted(
    begun: &mut Workbench,
    generation: u64,
    ended: &mut Workbench,
)
    requires
        old(begun).preview_workers < usize::MAX,
        call_ensures(Workbench::inspection_started, (begun,), generation),
        *old(ended) == *final(begun),
        call_ensures(Workbench::worker_ended, (ended,), ()),
    ensures
        generation == old(begun).preview_generation,
        final(begun).previewing,
        final(begun).preview_workers == old(begun).preview_workers + 1,
        final(ended).preview_workers == old(begun).preview_workers,
        final(begun).last_source_input == old(begun).last_source_input,
        final(begun).pending_conversion == old(begun).pending_conversion,
{
}

/// A video that could not be read is told, and the conversion stays started until that is
/// decided.
pub proof fn a_failed_read_is_told(bench: &mut Workbench, message: String)
    requires
        call_ensures(Workbench::finish_failed, (bench, message), ()),
    ensures
        text_of(final(bench).preview_error) == Some(message@),
        !final(bench).previewing,
        final(bench).source_preview == old(bench).source_preview,
        final(bench).pending_conversion == old(bench).pending_conversion,
        final(bench).task_options == old(bench).task_options,
{
}

/// Giving a start up gives up nothing else, and neither does a read that did not begin.
pub proof fn giving_up_changes_nothing_else(given_up: &mut Workbench, unread: &mut Workbench)
    requires
        call_ensures(Workbench::abandon_start, (given_up,), ()),
        call_ensures(Workbench::subtitle_not_started, (unread,), ()),
    ensures
        *final(given_up) == (Workbench { pending_conversion: None, ..*old(given_up) }),
        !final(unread).subtitle_loading && !final(unread).subtitle_reading,
        final(unread).source_preview == old(unread).source_preview,
        final(unread).pending_conversion == old(unread).pending_conversion,
        final(unread).task_options == old(unread).task_options,
{
}

/// An input that is to be entered anew finds the field open and nothing of the one before.
pub proof fn a_new_input_finds_the_field_open(bench: &mut Workbench, ended: Cancelled)
    requires
        call_ensures(Workbench::prepare_workbench_input, (bench,), ended),
    ensures
        final(bench).source_editor_open,
        !final(bench).generation_options_open,
        final(bench).source_preview is None && final(bench).completed_source is None && final(
            bench).pending_conversion is None,
        final(bench).preview_generation != old(bench).preview_generation,
        final(bench).task_options == old(bench).task_options,
        ended.preview == old(bench).previewing && ended.subtitle == old(bench).subtitle_reading,
{
}

/// Each generation differs from the one before it.
pub proof fn a_generation_differs_from_the_one_before(generation: u64, next: u64)
    requires
        call_ensures(following_generation, (generation,), next),
    ensures
        next != generation,
        generation < u64::MAX ==> next == generation + 1,
{
}

} // verus!
