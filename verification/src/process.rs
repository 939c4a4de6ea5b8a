//! The engine's process: what becomes of a line of its output, when it is stopped,
//! and which program is run.
use crate::jobs::Event;
use crate::redaction::{hidden_line, Redactions};
use crate::text::{is_blank, join2};
use vstd::prelude::*;
use vstd::string::*;

verus! {

// ------------------------------------------------------------------------- output

/// What becomes of a line of output.
pub enum LineStep {
    /// A blank line says nothing.
    Skip,
    /// This event is told.
    Tell(Event),
    /// The line may be an event of the engine's protocol.
    Decode(String),
}

impl Redactions {
    /// What becomes of a line of output, once every credential in it is hidden. `json`
    /// says that the engine speaks its protocol there.
    pub fn read_line(&self, line: Result<String, String>, json: bool) -> (result: LineStep)
        ensures
            match line {
                Err(error) => result matches LineStep::Tell(Event::Error { message }) && message@
                    == "读取任务输出失败："@ + error@,
                Ok(text) => if is_blank(text@) {
                    result is Skip
                } else if json {
                    result matches LineStep::Decode(shown) && shown@ == hidden_line(
                        self.keys(),
                        text@,
                    )
                } else {
                    result matches LineStep::Tell(Event::Log { message }) && message@
                        == hidden_line(self.keys(), text@)
                },
            },
    {
        match line {
            Err(error) => LineStep::Tell(
                Event::Error { message: join2("读取任务输出失败：", error.as_str()) },
            ),
            Ok(text) => match self.shown(text.as_str()) {
                None => LineStep::Skip,
                Some(shown) => {
                    if json {
                        LineStep::Decode(shown)
                    } else {
                        LineStep::Tell(Event::Log { message: shown })
                    }
                },
            },
        }
    }
}

/// A line that is no event of the protocol is told as it stands.
pub fn decoded(line: String, event: Option<Event>) -> (result: Event)
    ensures
        result == (match event {
            Some(own) => own,
            None => Event::Log { message: line },
        }),
{
    match event {
        Some(own) => own,
        None => Event::Log { message: line },
    }
}

// -------------------------------------------------------------------- supervision

/// What is known of a process.
pub enum ProcessState {
    Running,
    Ended { success: bool },
    /// The system could not tell.
    Unknown(String),
}

/// What the supervision of a process does next.
pub enum Supervision {
    /// Look again a little later.
    Wait,
    /// The process is over: it is stopped first where it may still run, an error is
    /// told where there is one, then how it ended.
    Over { stop: bool, error: Option<String>, success: bool, cancelled: bool },
}

/// What the supervision of a process does next.
pub open spec fn next_step(state: ProcessState, cancel_requested: bool) -> Supervision {
    match state {
        ProcessState::Ended { success } => Supervision::Over {
            stop: false,
            error: None,
            success,
            cancelled: false,
        },
        ProcessState::Unknown(error) => Supervision::Over {
            stop: true,
            error: Some(error),
            success: false,
            cancelled: false,
        },
        ProcessState::Running => if cancel_requested {
            Supervision::Over { stop: true, error: None, success: false, cancelled: true }
        } else {
            Supervision::Wait
        },
    }
}

/// What the supervision does next. A process that has ended is never stopped,
/// whether or not somebody asked for it.
pub fn supervise(state: ProcessState, cancel_requested: bool) -> (result: Supervision)
    ensures
        result == next_step(state, cancel_requested),
{
    match state {
        ProcessState::Ended { success } => Supervision::Over {
            stop: false,
            error: None,
            success,
            cancelled: false,
        },
        ProcessState::Unknown(error) => Supervision::Over {
            stop: true,
            error: Some(error),
            success: false,
            cancelled: false,
        },
        ProcessState::Running => {
            if cancel_requested {
                Supervision::Over { stop: true, error: None, success: false, cancelled: true }
            } else {
                Supervision::Wait
            }
        },
    }
}

/// The longest time that a tool may take to say what it is, in milliseconds.
pub const PROBE_MS: u64 = 5000;

/// What the probe of a tool does next.
#[derive(Clone, Copy, Debug, PartialEq, Eq, Structural)]
pub enum ProbeStep {
    /// The tool has answered.
    Read,
    Wait,
    /// There is no answer; a tool that still runs is stopped.
    GiveUp { stop: bool },
}

/// What the probe of a tool does next.
pub fn probe(state: &ProcessState, elapsed_ms: u64) -> (result: ProbeStep)
    ensures
        result == (match *state {
            ProcessState::Ended { success } => if success {
                ProbeStep::Read
            } else {
                ProbeStep::GiveUp { stop: false }
            },
            ProcessState::Running => if elapsed_ms < PROBE_MS {
                ProbeStep::Wait
            } else {
                ProbeStep::GiveUp { stop: true }
            },
            ProcessState::Unknown(_) => ProbeStep::GiveUp { stop: true },
        }),
{
    match state {
        ProcessState::Ended { success } => {
            if *success {
                ProbeStep::Read
            } else {
                ProbeStep::GiveUp { stop: false }
            }
        },
        ProcessState::Running => {
            if elapsed_ms < PROBE_MS {
                ProbeStep::Wait
            } else {
                ProbeStep::GiveUp { stop: true }
            }
        },
        ProcessState::Unknown(_) => ProbeStep::GiveUp { stop: true },
    }
}

// ------------------------------------------------------------------------ programs

/// A file where the engine may be, and whether it is there.
pub struct Candidate {
    pub path: String,
    pub is_file: bool,
}

/// The candidate at `i` is the first that is there.
pub open spec fn first_file(candidates: Seq<Candidate>, i: int) -> bool {
    &&& 0 <= i < candidates.len()
    &&& candidates[i].is_file
    &&& forall|j: int| 0 <= j < i ==> !(#[trigger] candidates[j]).is_file
}

/// The engine: the one that the person names, which must be there, else the first
/// that is found.
pub fn resolve_cli(named: Option<&Candidate>, candidates: &Vec<Candidate>) -> (result: Result<
    String,
    String,
>)
    ensures
        match named {
            Some(own) => if own.is_file {
                result matches Ok(path) && path@ == own.path@
            } else {
                result matches Err(message) && message@ == "COURSE2MD_BIN 指向的文件不存在："@
                    + own.path@
            },
            None => match result {
                Ok(path) => exists|i: int| #[trigger]
                    first_file(candidates@, i) && path@ == candidates@[i].path@,
                Err(message) => (forall|i: int|
                    0 <= i < candidates@.len() ==> !(#[trigger] candidates@[i]).is_file)
                    && message@
                    == "找不到 course2md 引擎。请将 CLI 放在应用旁，或设置 COURSE2MD_BIN。"@,
            },
        },
{
    if let Some(own) = named {
        return if own.is_file {
            Ok(own.path.clone())
        } else {
            Err(join2("COURSE2MD_BIN 指向的文件不存在：", own.path.as_str()))
        };
    }
    let mut i: usize = 0;
    while i < candidates.len()
        invariant
            named is None,
            i <= candidates@.len(),
            forall|j: int| 0 <= j < i ==> !(#[trigger] candidates@[j]).is_file,
        decreases candidates@.len() - i,
    {
        if candidates[i].is_file {
            assert(first_file(candidates@, i as int));
            return Ok(candidates[i].path.clone());
        }
        i += 1;
    }
    Err("找不到 course2md 引擎。请将 CLI 放在应用旁，或设置 COURSE2MD_BIN。".to_owned())
}

// ---------------------------------------------------------------------------- laws

/// A process that has ended is never stopped: by then its number may belong to
/// another one.
pub proof fn what_has_ended_is_not_stopped(state: ProcessState, cancel_requested: bool)
    requires
        state is Ended,
    ensures
        next_step(state, cancel_requested) matches Supervision::Over { stop, cancelled, .. }
            && !stop && !cancelled,
{
}

/// A process counts as cancelled only where somebody asked for it, and then it has
/// not succeeded.
pub proof fn only_a_request_cancels(state: ProcessState, cancel_requested: bool)
    ensures
        next_step(state, cancel_requested) matches Supervision::Over { cancelled: true, success, .. }
            ==> cancel_requested && !success,
{
}

// ------------------------------------------------------------------ what is read

/// What the engine prints is told: nothing of a blank line, every other one, and an error
/// of reading; a line that is decoded or told is the hidden one.
pub proof fn what_is_printed_is_told(
    redactions: Redactions,
    line: Result<String, String>,
    json: bool,
    step: LineStep,
)
    requires
        call_ensures(Redactions::read_line, (&redactions, line, json), step),
    ensures
        step is Skip <==> (line matches Ok(text) && is_blank(text@)),
        step is Decode ==> json && line is Ok && step->Decode_0@ == hidden_line(
            redactions.keys(),
            line->Ok_0@,
        ),
        line is Ok && !is_blank(line->Ok_0@) && json ==> step is Decode,
        line is Ok && !is_blank(line->Ok_0@) && !json ==> (
        step matches LineStep::Tell(Event::Log { message }) && message@ == hidden_line(
            redactions.keys(),
            line->Ok_0@,
        )),
        line is Err ==> step is Tell && step->Tell_0 is Error,
{
}

/// A line that is no message of the engine is told as it is; a message is passed on.
pub proof fn a_line_is_told_or_decoded(line: String, event: Option<Event>, told: Event)
    requires
        call_ensures(decoded, (line, event), told),
    ensures
        event matches Some(own) ==> told == own,
        event is None ==> (told matches Event::Log { message } && message@ == line@),
{
}

/// A process is over exactly where it has ended, cannot be watched, or is to be cancelled;
/// it is stopped exactly where it may still run; and it succeeded exactly where it ended
/// well.
pub proof fn a_process_is_over_once_it_ended(
    state: ProcessState,
    cancel: bool,
    step: Supervision,
)
    requires
        call_ensures(supervise, (state, cancel), step),
    ensures
        step is Wait <==> state is Running && !cancel,
        step matches Supervision::Over { stop, success, cancelled, error } ==> {
            &&& stop <==> !(state is Ended)
            &&& success <==> (state matches ProcessState::Ended { success: well } && well)
            &&& cancelled <==> state is Running && cancel
            &&& error is Some <==> state is Unknown
        },
{
}

/// What a probe prints is read exactly where it ended well; one that has not ended is given
/// five seconds and stopped then.
pub proof fn a_probe_is_given_its_time(state: ProcessState, elapsed_ms: u64, step: ProbeStep)
    requires
        call_ensures(probe, (&state, elapsed_ms), step),
    ensures
        step is Read <==> (state matches ProcessState::Ended { success } && success),
        step is Wait <==> state is Running && elapsed_ms < 5000,
        state is Running && elapsed_ms >= 5000 ==> step == (ProbeStep::GiveUp { stop: true }),
        state is Ended ==> step != (ProbeStep::GiveUp { stop: true }),
        state is Unknown ==> step == (ProbeStep::GiveUp { stop: true }),
{
}

/// The engine that is named is the one that is run, and no other takes its place; without
/// one the first that is there.
pub proof fn the_named_engine_is_run(
    named: Option<&Candidate>,
    candidates: Vec<Candidate>,
    found: Result<String, String>,
    i: int,
)
    requires
        call_ensures(resolve_cli, (named, &candidates), found),
    ensures
        named is Some ==> (found is Ok <==> named->0.is_file),
        named is Some && found is Ok ==> found->Ok_0@ == named->0.path@,
        named is None && 0 <= i < candidates@.len() && candidates@[i].is_file ==> found is Ok,
        named is None && 0 <= i < candidates@.len() && candidates@[i].is_file && (forall|j: int|
            0 <= j < i ==> !(#[trigger] candidates@[j]).is_file) ==> found->Ok_0@
            == candidates@[i].path@,
        found is Ok && named is None ==> exists|k: int|
            0 <= k < candidates@.len() && (#[trigger] candidates@[k]).is_file
                && candidates@[k].path@ == found->Ok_0@,
{
    let given = (named, &candidates);
    assert(given.1@[i] == candidates@[i]);
    if named is None && found is Ok {
        let k = choose|k: int| #[trigger]
            first_file(candidates@, k) && found->Ok_0@ == candidates@[k].path@;
        assert(candidates@[k].is_file);
        if 0 <= i < k {
            assert(!candidates@[i].is_file);
        }
    }
}

} // verus!
