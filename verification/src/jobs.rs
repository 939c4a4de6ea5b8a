//! The engine at work: what its events change, when the window is drawn again, and
//! when the application may quit.
use crate::json::Json;
use crate::text::{same, texts};
use crate::workspace::{is_text, text_of};
use vstd::prelude::*;
use vstd::string::*;

verus! {

/// What the engine is asked to do.
#[derive(Clone, Copy, Debug, PartialEq, Eq, Structural)]
pub enum Kind {
    Convert,
    Doctor,
    Models,
}

/// What the engine says of a finished conversion.
pub struct Completed {
    pub out_dir: String,
    pub title: String,
    pub slides: usize,
    pub segments: usize,
    pub partial: Option<bool>,
    pub outcomes: Option<Json>,
}

/// One message of the engine, or its end.
pub enum Event {
    Log { message: String },
    Stage { stage: String, status: String },
    Progress { stage: String, current: u64, total: u64, message: Option<String> },
    Workers { stage: String, workers: usize },
    Done(Completed),
    Error { message: String },
    Blocked {
        reason: String,
        request_id: Option<String>,
        purpose: Option<String>,
        description: Option<String>,
        message: String,
    },
    Exit { success: bool, cancelled: bool },
}

/// The engine as the application sees it. `logs` are the latest lines.
pub struct JobState {
    pub running: bool,
    pub cancelling: bool,
    pub kind: Kind,
    pub active_task: Option<String>,
    pub task_error: Option<String>,
    pub task_status: String,
    pub message: Option<String>,
    pub logs: Vec<String>,
    pub pending_done: Option<Completed>,
}

/// What has to be done about an event.
pub enum JobAction {
    /// A stage has begun: its progress starts anew.
    BeginStage(String),
    /// A stage has ended.
    EndStage(String),
    /// A stage has come this far.
    Advance { stage: String, current: u64, total: u64, message: Option<String> },
    /// So many workers are at a stage.
    SetWorkers { stage: String, workers: usize },
    /// The task has ended.
    FinishTask { id: String, success: bool, cancelled: bool },
    /// The preparation of a model has ended.
    FinishModels { success: bool, cancelled: bool },
    /// The check of the computer has ended well: look at it again.
    RefreshEnvironment,
    /// The engine may have changed what is on disk: look at all models again.
    RefreshModels,
}

/// What an event asks for: the task is saved, at once or later; the window is drawn
/// at once; and the actions are carried out one after the other.
pub struct EventStep {
    pub save: bool,
    pub flush: Option<bool>,
    pub immediate: bool,
    pub actions: Vec<JobAction>,
}

/// The number of lines that are kept.
pub const LOG_LINES: usize = 400;

/// The last lines.
pub open spec fn latest(lines: Seq<Seq<char>>) -> Seq<Seq<char>> {
    if lines.len() > LOG_LINES {
        lines.skip(lines.len() - LOG_LINES)
    } else {
        lines
    }
}

/// How a job that is no task ended.
pub open spec fn exit_status(success: bool, cancelled: bool) -> Seq<char> {
    if success {
        "已完成"@
    } else if cancelled {
        "已停止"@
    } else {
        "未完成"@
    }
}

impl JobState {
    /// A task is being carried out, so that its events are recorded.
    pub open spec fn is_recording(self) -> bool {
        self.active_task is Some
    }

    /// The state after an event.
    pub open spec fn is_after(self, after: JobState, event: Event) -> bool {
        match event {
            Event::Log { message } => {
                &&& texts(after.logs@) == latest(texts(self.logs@).push(message@))
                &&& after == (JobState { logs: after.logs, ..self })
            },
            Event::Error { message } => {
                &&& texts(after.logs@) == latest(texts(self.logs@).push(message@))
                &&& text_of(after.task_error) == Some(message@)
                &&& after == (JobState {
                    logs: after.logs,
                    task_error: after.task_error,
                    ..self
                })
            },
            Event::Blocked { message, .. } => {
                &&& after == (JobState {
                    logs: after.logs,
                    task_error: Some(message),
                    ..self
                })
                &&& texts(after.logs@) == latest(texts(self.logs@))
            },
            Event::Exit { success, cancelled } => {
                &&& texts(after.logs@) == latest(texts(self.logs@))
                &&& if self.is_recording() {
                    after == (JobState {
                        logs: after.logs,
                        running: false,
                        cancelling: false,
                        active_task: None,
                        ..self
                    })
                } else {
                    &&& after.task_status@ == exit_status(success, cancelled)
                    &&& after == (JobState {
                        logs: after.logs,
                        running: false,
                        cancelling: false,
                        task_status: after.task_status,
                        message: after.message,
                        ..self
                    })
                    &&& if self.kind is Models {
                        after.message == self.message
                    } else {
                        text_of(after.message) == Some(
                            match self.task_error {
                                Some(error) => error@,
                                None => exit_status(success, cancelled),
                            },
                        )
                    }
                }
            },
            Event::Done(done) => {
                &&& texts(after.logs@) == latest(texts(self.logs@))
                &&& after == (JobState {
                    logs: after.logs,
                    pending_done: Some(done),
                    ..self
                })
            },
            _ => {
                &&& texts(after.logs@) == latest(texts(self.logs@))
                &&& after == (JobState { logs: after.logs, ..self })
            },
        }
    }

    /// What an event asks for.
    pub open spec fn is_step(self, step: EventStep, event: Event) -> bool {
        let recording = self.is_recording();
        &&& step.save == recording
        &&& step.immediate == !(event is Log || event is Progress || event is Workers)
        &&& step.flush == (if event is Stage || event is Error || event is Blocked {
            Some(recording)
        } else {
            None
        })
        &&& step.actions@ == self.actions_for(event)
    }

    /// What is done about an event. Once a task or the preparation of a model has
    /// ended, the models are looked at again.
    pub open spec fn actions_for(self, event: Event) -> Seq<JobAction> {
        match event {
            Event::Stage { stage, status } => if status@ == "start"@ {
                seq![JobAction::BeginStage(stage)]
            } else if status@ == "done"@ {
                seq![JobAction::EndStage(stage)]
            } else {
                Seq::empty()
            },
            Event::Progress { stage, current, total, message } => seq![
                JobAction::Advance { stage, current, total, message },
            ],
            Event::Workers { stage, workers } => seq![JobAction::SetWorkers { stage, workers }],
            Event::Exit { success, cancelled } => match self.active_task {
                Some(id) => seq![
                    JobAction::FinishTask { id, success, cancelled },
                    JobAction::RefreshModels,
                ],
                None => if self.kind is Models {
                    seq![
                        JobAction::FinishModels { success, cancelled },
                        JobAction::RefreshModels,
                    ]
                } else if success {
                    seq![JobAction::RefreshEnvironment]
                } else {
                    Seq::empty()
                },
            },
            _ => Seq::empty(),
        }
    }

    fn trim_logs(&mut self)
        ensures
            texts(final(self).logs@) == latest(texts(old(self).logs@)),
            *final(self) == (JobState { logs: final(self).logs, ..*old(self) }),
    {
        let ghost all = texts(self.logs@);
        assert(all.skip(0) =~= all);
        while self.logs.len() > LOG_LINES
            invariant
                *self == (JobState { logs: self.logs, ..*old(self) }),
                self.logs@.len() <= all.len(),
                all.len() > LOG_LINES ==> self.logs@.len() >= LOG_LINES,
                all.len() <= LOG_LINES ==> self.logs@.len() == all.len(),
                texts(self.logs@) == all.skip(all.len() - self.logs@.len()),
            decreases self.logs@.len(),
        {
            let ghost before = texts(self.logs@);
            let _ = self.logs.remove(0);
            assert(texts(self.logs@) =~= before.skip(1));
            assert(texts(self.logs@) =~= all.skip(all.len() - self.logs@.len()));
        }
        assert(texts(self.logs@) =~= latest(all));
    }

    fn add_log(&mut self, message: String)
        ensures
            texts(final(self).logs@) == latest(texts(old(self).logs@).push(message@)),
            *final(self) == (JobState { logs: final(self).logs, ..*old(self) }),
    {
        let ghost before = texts(self.logs@);
        let ghost added = message@;
        self.logs.push(message);
        assert(texts(self.logs@) =~= before.push(added));
        self.trim_logs();
    }

    /// Takes an event of the engine.
    pub fn apply(&mut self, event: Event) -> (result: EventStep)
        ensures
            old(self).is_after(*final(self), event),
            old(self).is_step(result, event),
    {
        let recording = self.active_task.is_some();
        let ghost given = event;
        let step = match event {
            Event::Log { message } => {
                self.add_log(message);
                EventStep {
                    save: recording,
                    flush: None,
                    immediate: false,
                    actions: Vec::new(),
                }
            },
            Event::Stage { stage, status } => {
                self.trim_logs();
                let mut actions: Vec<JobAction> = Vec::new();
                if same(status.as_str(), "start") {
                    actions.push(JobAction::BeginStage(stage));
                } else if same(status.as_str(), "done") {
                    actions.push(JobAction::EndStage(stage));
                }
                EventStep { save: recording, flush: Some(recording), immediate: true, actions }
            },
            Event::Progress { stage, current, total, message } => {
                self.trim_logs();
                EventStep {
                    save: recording,
                    flush: None,
                    immediate: false,
                    actions: vec![JobAction::Advance { stage, current, total, message }],
                }
            },
            Event::Workers { stage, workers } => {
                self.trim_logs();
                EventStep {
                    save: recording,
                    flush: None,
                    immediate: false,
                    actions: vec![JobAction::SetWorkers { stage, workers }],
                }
            },
            Event::Error { message } => {
                self.task_error = Some(message.clone());
                self.add_log(message);
                EventStep {
                    save: recording,
                    flush: Some(recording),
                    immediate: true,
                    actions: Vec::new(),
                }
            },
            Event::Blocked { reason: _, request_id: _, purpose: _, description: _, message } => {
                self.task_error = Some(message);
                self.trim_logs();
                EventStep {
                    save: recording,
                    flush: Some(recording),
                    immediate: true,
                    actions: Vec::new(),
                }
            },
            Event::Done(done) => {
                self.pending_done = Some(done);
                self.trim_logs();
                EventStep {
                    save: recording,
                    flush: None,
                    immediate: true,
                    actions: Vec::new(),
                }
            },
            Event::Exit { success, cancelled } => {
                self.trim_logs();
                let actions = self.exit(success, cancelled);
                EventStep { save: recording, flush: None, immediate: true, actions }
            },
        };
        assert(step.actions@ =~= old(self).actions_for(given));
        step
    }

    fn exit(&mut self, success: bool, cancelled: bool) -> (result: Vec<JobAction>)
        ensures
            result@ == old(self).actions_for(Event::Exit { success, cancelled }),
            match old(self).active_task {
                Some(_) => *final(self) == (JobState {
                    running: false,
                    cancelling: false,
                    active_task: None,
                    ..*old(self)
                }),
                None => {
                    &&& final(self).task_status@ == exit_status(success, cancelled)
                    &&& *final(self) == (JobState {
                        running: false,
                        cancelling: false,
                        task_status: final(self).task_status,
                        message: final(self).message,
                        ..*old(self)
                    })
                    &&& if old(self).kind is Models {
                        final(self).message == old(self).message
                    } else {
                        text_of(final(self).message) == Some(
                            match old(self).task_error {
                                Some(error) => error@,
                                None => exit_status(success, cancelled),
                            },
                        )
                    }
                },
            },
    {
        self.running = false;
        self.cancelling = false;
        if let Some(id) = self.active_task.take() {
            return vec![
                JobAction::FinishTask { id, success, cancelled },
                JobAction::RefreshModels,
            ];
        }
        let status = if success {
            "已完成"
        } else if cancelled {
            "已停止"
        } else {
            "未完成"
        };
        self.task_status = status.to_owned();
        if matches!(self.kind, Kind::Models) {
            return vec![JobAction::FinishModels { success, cancelled }, JobAction::RefreshModels];
        }
        self.message = Some(
            match &self.task_error {
                Some(error) => error.clone(),
                None => status.to_owned(),
            },
        );
        if success {
            vec![JobAction::RefreshEnvironment]
        } else {
            Vec::new()
        }
    }

    /// A request to the engine. Where something else is under way the person is told.
    pub fn start(&mut self, kind: Kind) -> (result: StartStep)
        ensures
            result == (if kind is Convert {
                StartStep::OpenWorkbench
            } else if old(self).running {
                StartStep::Busy
            } else {
                StartStep::Run
            }),
            result is Busy ==> text_of(final(self).message) == Some(
                "当前任务正在处理，结束后可以进行这项操作。"@,
            ) && *final(self) == (JobState { message: final(self).message, ..*old(self) }),
            !(result is Busy) ==> *final(self) == *old(self),
    {
        if matches!(kind, Kind::Convert) {
            StartStep::OpenWorkbench
        } else if self.running {
            self.message = Some("当前任务正在处理，结束后可以进行这项操作。".to_owned());
            StartStep::Busy
        } else {
            StartStep::Run
        }
    }

    /// The engine could not be started. Where it was asked to prepare a model the
    /// preparation ends; otherwise the person is told.
    pub fn start_failed(&mut self, kind: Kind, error: String) -> (result: Vec<JobAction>)
        ensures
            *final(self) == (JobState {
                task_error: Some(error),
                message: final(self).message,
                ..*old(self)
            }),
            kind is Models ==> final(self).message == old(self).message && result@ == seq![
                JobAction::FinishModels { success: false, cancelled: false },
                JobAction::RefreshModels,
            ],
            !(kind is Models) ==> text_of(final(self).message) == Some(error@) && result@.len()
                == 0,
    {
        if matches!(kind, Kind::Models) {
            self.task_error = Some(error);
            vec![
                JobAction::FinishModels { success: false, cancelled: false },
                JobAction::RefreshModels,
            ]
        } else {
            self.message = Some(error.clone());
            self.task_error = Some(error);
            Vec::new()
        }
    }

    /// The engine has started on something that is no task.
    pub fn started(&mut self, kind: Kind)
        ensures
            final(self).logs@.len() == 0,
            final(self).task_status@ == (if kind is Doctor {
                "正在检查运行环境"@
            } else {
                "正在准备识别模型"@
            }),
            *final(self) == (JobState {
                running: true,
                cancelling: false,
                kind,
                active_task: None,
                task_error: None,
                task_status: final(self).task_status,
                logs: final(self).logs,
                pending_done: None,
                ..*old(self)
            }),
    {
        self.pending_done = None;
        self.running = true;
        self.cancelling = false;
        self.kind = kind;
        self.active_task = None;
        self.task_error = None;
        self.logs = Vec::new();
        self.task_status = if matches!(kind, Kind::Doctor) {
            "正在检查运行环境".to_owned()
        } else {
            "正在准备识别模型".to_owned()
        };
    }
}

/// What a request to the engine leads to.
#[derive(Clone, Copy, Debug, PartialEq, Eq, Structural)]
pub enum StartStep {
    /// Conversions are started on the workbench.
    OpenWorkbench,
    /// Something else is under way.
    Busy,
    Run,
}

// ------------------------------------------------------------------- one round

/// What a round of events asks for: the task is saved, at once or with the progress;
/// the window is drawn at once; and the actions of the events, in their order.
pub struct Round {
    pub save: bool,
    pub flush: bool,
    pub immediate: bool,
    pub actions: Vec<JobAction>,
}

/// A round of events: `states` are the states between the events, `steps` what each
/// event asks for.
pub open spec fn is_round(
    states: Seq<JobState>,
    steps: Seq<EventStep>,
    events: Seq<Event>,
) -> bool {
    &&& steps.len() == events.len()
    &&& states.len() == events.len() + 1
    &&& forall|i: int|
        0 <= i < events.len() ==> (#[trigger] states[i]).is_after(states[i + 1], events[i])
            && states[i].is_step(steps[i], events[i])
}

/// Whether the task is saved at once: as the latest event that says so wants it.
pub open spec fn flushes(steps: Seq<EventStep>) -> bool
    decreases steps.len(),
{
    if steps.len() == 0 {
        false
    } else {
        match steps.last().flush {
            Some(flush) => flush,
            None => flushes(steps.drop_last()),
        }
    }
}

/// The actions of all events.
pub open spec fn all_actions(steps: Seq<EventStep>) -> Seq<JobAction>
    decreases steps.len(),
{
    if steps.len() == 0 {
        Seq::empty()
    } else {
        all_actions(steps.drop_last()) + steps.last().actions@
    }
}

/// The round asks for what its events ask for.
pub open spec fn sums_up(round: Round, steps: Seq<EventStep>) -> bool {
    &&& round.save == exists|i: int| 0 <= i < steps.len() && (#[trigger] steps[i]).save
    &&& round.immediate == exists|i: int| 0 <= i < steps.len() && (#[trigger] steps[i]).immediate
    &&& round.flush == flushes(steps)
    &&& round.actions@ == all_actions(steps)
}

impl JobState {
    /// The engine before it was asked for anything.
    pub fn new() -> (result: JobState)
        ensures
            result.task_status@.len() == 0,
            result.logs@.len() == 0,
            result == (JobState {
                running: false,
                cancelling: false,
                kind: Kind::Convert,
                active_task: None,
                task_error: None,
                task_status: result.task_status,
                message: None,
                logs: result.logs,
                pending_done: None,
            }),
    {
        JobState {
            running: false,
            cancelling: false,
            kind: Kind::Convert,
            active_task: None,
            task_error: None,
            task_status: String::new(),
            message: None,
            logs: Vec::new(),
            pending_done: None,
        }
    }

    /// Takes a round of events, one after the other.
    pub fn poll(&mut self, events: Vec<Event>) -> (result: Round)
        ensures
            exists|states: Seq<JobState>, steps: Seq<EventStep>|
                {
                    &&& #[trigger] is_round(states, steps, events@)
                    &&& states.first() == *old(self)
                    &&& states.last() == *final(self)
                    &&& sums_up(result, steps)
                },
    {
        let mut round = Round { save: false, flush: false, immediate: false, actions: Vec::new() };
        let ghost mut states = seq![*self];
        let ghost mut steps = Seq::<EventStep>::empty();
        assert(round.actions@ =~= Seq::empty());
        for event in it: events
            invariant
                it.seq() == events@,
                is_round(states, steps, events@.take(it.index() as int)),
                states.first() == *old(self),
                states.last() == *self,
                sums_up(round, steps),
        {
            let ghost n = it.index() as int;
            let ghost states_before = states;
            let ghost steps_before = steps;
            let step = self.apply(event);
            proof {
                states = states.push(*self);
                steps = steps.push(step);
                let seen = events@.take(n + 1);
                assert(seen.len() == n + 1);
                assert(steps.drop_last() =~= steps_before);
                assert forall|i: int| 0 <= i < seen.len() implies (#[trigger] states[i]).is_after(
                    states[i + 1],
                    seen[i],
                ) && states[i].is_step(steps[i], seen[i]) by {
                    if i < n {
                        assert(states_before[i].is_after(
                            states_before[i + 1],
                            events@.take(n)[i],
                        ));
                    }
                }
                assert(steps[n] == step);
                if steps_before.len() > 0 {
                    assert(forall|i: int| 0 <= i < n ==> steps[i] == steps_before[i]);
                }
                assert((exists|i: int| 0 <= i < steps.len() && (#[trigger] steps[i]).save) == (
                round.save || step.save)) by {
                    if round.save {
                        let i = choose|i: int|
                            0 <= i < steps_before.len() && (#[trigger] steps_before[i]).save;
                        assert(steps[i].save);
                    }
                    if exists|i: int| 0 <= i < steps.len() && (#[trigger] steps[i]).save {
                        let i = choose|i: int| 0 <= i < steps.len() && (#[trigger] steps[i]).save;
                        if i < n {
                            assert(steps_before[i].save);
                        }
                    }
                }
                assert((exists|i: int| 0 <= i < steps.len() && (#[trigger] steps[i]).immediate) == (
                round.immediate || step.immediate)) by {
                    if round.immediate {
                        let i = choose|i: int|
                            0 <= i < steps_before.len() && (#[trigger] steps_before[i]).immediate;
                        assert(steps[i].immediate);
                    }
                    if exists|i: int| 0 <= i < steps.len() && (#[trigger] steps[i]).immediate {
                        let i = choose|i: int|
                            0 <= i < steps.len() && (#[trigger] steps[i]).immediate;
                        if i < n {
                            assert(steps_before[i].immediate);
                        }
                    }
                }
            }
            if step.save {
                round.save = true;
            }
            if step.immediate {
                round.immediate = true;
            }
            if let Some(flush) = step.flush {
                round.flush = flush;
            }
            let mut actions = step.actions;
            round.actions.append(&mut actions);
        }
        assert(events@.take(events@.len() as int) =~= events@);
        round
    }
}

/// How long to wait before the next round, in milliseconds.
pub fn poll_delay(busy: bool) -> (result: u64)
    ensures
        result == (if busy {
            100u64
        } else {
            500u64
        }),
{
    if busy {
        100
    } else {
        500
    }
}

/// The seconds for which the notice of an opened note stays.
pub const OPENED_NOTICE_SECS: u64 = 5;

/// The seconds for which the result of a task stays where it was not asked for.
pub const TRANSIENT_RESULT_SECS: u64 = 8;

/// The notice of an opened note leaves after a while, unless another message has
/// taken its place. Says whether its time is up.
pub fn expire_opened_notice(message: &mut Option<String>, shown_secs: Option<u64>) -> (result: bool)
    ensures
        result == (shown_secs is Some && shown_secs->0 >= OPENED_NOTICE_SECS),
        *final(message) == (if result && text_of(*old(message)) == Some("笔记已打开"@) {
            None
        } else {
            *old(message)
        }),
{
    let due = match shown_secs {
        Some(seconds) => seconds >= OPENED_NOTICE_SECS,
        None => false,
    };
    if due && is_text(message, "笔记已打开") {
        *message = None;
    }
    due
}

/// Whether the result of a task is taken down.
pub fn transient_result_over(shown_secs: Option<u64>) -> (result: bool)
    ensures
        result == (shown_secs is Some && shown_secs->0 >= TRANSIENT_RESULT_SECS),
{
    match shown_secs {
        Some(seconds) => seconds >= TRANSIENT_RESULT_SECS,
        None => false,
    }
}

// ------------------------------------------------------------------ the window

/// What becomes of drawing the window after a round of events.
#[derive(Clone, Copy, Debug, PartialEq, Eq, Structural)]
pub enum Repaint {
    Now,
    Later,
    Keep,
}

/// The shortest time between two drawings for progress, in milliseconds.
pub const EVENT_REPAINT_MS: u64 = 250;

/// The time between two drawings while nothing but time passes, in milliseconds.
pub const TICK_MS: u64 = 1000;

/// Lines and progress are drawn together, at most once in an interval; what changes
/// the state is drawn at once.
pub fn repaint(
    save: bool,
    immediate: bool,
    running: bool,
    pending: bool,
    models: bool,
    elapsed_ms: u64,
) -> (result: Repaint)
    ensures
        ({
            let ticking = save || immediate || running || pending;
            let interval = if save || pending || models {
                EVENT_REPAINT_MS
            } else {
                TICK_MS
            };
            result == (if ticking && (immediate || elapsed_ms >= interval) {
                Repaint::Now
            } else if save {
                Repaint::Later
            } else {
                Repaint::Keep
            })
        }),
{
    let ticking = save || immediate || running || pending;
    let interval: u64 = if save || pending || models {
        EVENT_REPAINT_MS
    } else {
        TICK_MS
    };
    if ticking && (immediate || elapsed_ms >= interval) {
        Repaint::Now
    } else if save {
        Repaint::Later
    } else {
        Repaint::Keep
    }
}

/// Whether the application may go on, has to wait, or quits.
#[derive(Clone, Copy, Debug, PartialEq, Eq, Structural)]
pub enum CloseStep {
    /// Nobody asked to quit: the next task may start.
    Continue,
    Wait,
    Quit,
    /// Time is up: what still runs is stopped.
    CancelAndQuit,
}

pub fn close_step(closing: bool, running: bool, workers: usize, time_is_up: bool) -> (result:
    CloseStep)
    ensures
        result == (if !closing {
            CloseStep::Continue
        } else if !running && workers == 0 {
            CloseStep::Quit
        } else if time_is_up {
            CloseStep::CancelAndQuit
        } else {
            CloseStep::Wait
        }),
{
    if !closing {
        CloseStep::Continue
    } else if !running && workers == 0 {
        CloseStep::Quit
    } else if time_is_up {
        CloseStep::CancelAndQuit
    } else {
        CloseStep::Wait
    }
}

/// What a request to quit leads to.
#[derive(Clone, Copy, Debug, PartialEq, Eq, Structural)]
pub struct ClosePlan {
    /// The engine is stopped at once; a task is left to come to a point where it can
    /// be continued.
    pub cancel_job: bool,
    /// Nothing is under way, so that the window may close at once.
    pub quit_now: bool,
}

/// The seconds that are left to what is under way once somebody asked to quit.
pub const QUIT_SECS: u64 = 10;

impl JobState {
    /// Everything is saved, and the application is to quit.
    pub fn request_close(&mut self, workers: usize) -> (result: ClosePlan)
        ensures
            text_of(final(self).message) == Some("正在保存进度并退出…"@),
            *final(self) == (JobState { message: final(self).message, ..*old(self) }),
            result == (ClosePlan {
                cancel_job: old(self).running && old(self).active_task is None,
                quit_now: !old(self).running && workers == 0,
            }),
    {
        self.message = Some("正在保存进度并退出…".to_owned());
        ClosePlan {
            cancel_job: self.running && self.active_task.is_none(),
            quit_now: !self.running && workers == 0,
        }
    }
}

// ----------------------------------------------------------------------- laws

/// No more lines are kept than are shown, and the latest is always among them.
pub proof fn the_latest_line_is_kept(lines: Seq<Seq<char>>, line: Seq<char>)
    ensures
        latest(lines).len() <= LOG_LINES,
        latest(lines.push(line)).last() == line,
{
}

/// Whatever happens, an exit ends the job, and a task is finished exactly once.
pub proof fn an_exit_ends_the_job(
    before: JobState,
    after: JobState,
    success: bool,
    cancelled: bool,
)
    requires
        before.is_after(after, Event::Exit { success, cancelled }),
    ensures
        !after.running,
        !after.cancelling,
        after.active_task is None,
{
}

/// Whatever the engine did, once a task or the preparation of a model has ended the
/// models are looked at again, and after that nothing else is asked for.
pub proof fn models_are_looked_at_after_the_work(before: JobState, success: bool, cancelled: bool)
    requires
        before.active_task is Some || before.kind is Models,
    ensures
        before.actions_for(Event::Exit { success, cancelled }).len() == 2,
        before.actions_for(Event::Exit { success, cancelled }).last() is RefreshModels,
{
}

/// In a round, once the engine has ended nothing is recorded any more: what comes
/// after an exit never asks for a save.
pub proof fn nothing_is_saved_after_an_exit(
    states: Seq<JobState>,
    steps: Seq<EventStep>,
    events: Seq<Event>,
    exit: int,
    i: int,
)
    requires
        is_round(states, steps, events),
        0 <= exit < i < events.len(),
        events[exit] is Exit,
    ensures
        !steps[i].save,
        states[i].active_task is None,
    decreases i - exit,
{
    assert(states[exit].is_after(states[exit + 1], events[exit]));
    if i > exit + 1 {
        nothing_is_saved_after_an_exit(states, steps, events, exit, i - 1);
        assert(states[i - 1].is_after(states[i], events[i - 1]));
    }
    assert(states[i].is_step(steps[i], events[i]));
}

/// Nothing but an exit ends a job.
pub proof fn only_an_exit_ends_the_job(before: JobState, after: JobState, event: Event)
    requires
        before.is_after(after, event),
        !(event is Exit),
    ensures
        after.running == before.running,
        after.active_task == before.active_task,
{
}

// ---------------------------------------------------------------- what is done

/// When the engine ends while a task is active, the task is finished with what the end
/// reports, before anything else is done; the task is active no more.
pub proof fn a_task_is_finished_as_it_ended(
    state: &mut JobState,
    success: bool,
    cancelled: bool,
    step: EventStep,
)
    requires
        call_ensures(JobState::apply, (state, Event::Exit { success, cancelled }), step),
        old(state).active_task is Some,
    ensures
        step.actions@.len() > 0,
        step.actions@[0] == (JobAction::FinishTask {
            id: old(state).active_task->0,
            success,
            cancelled,
        }),
        final(state).active_task is None,
        !final(state).running,
        !final(state).cancelling,
        final(state).task_error == old(state).task_error,
        final(state).pending_done == old(state).pending_done,
{
}

/// When the engine ends without a task, a model that was prepared is finished with what
/// the end reports; a check of the computer that ended well has it looked at again; and
/// the person is told unless a model was prepared.
pub proof fn other_work_is_finished_as_it_ended(
    state: &mut JobState,
    success: bool,
    cancelled: bool,
    step: EventStep,
)
    requires
        call_ensures(JobState::apply, (state, Event::Exit { success, cancelled }), step),
        old(state).active_task is None,
    ensures
        old(state).kind is Models ==> step.actions@.len() > 0 && step.actions@[0] == (
        JobAction::FinishModels { success, cancelled }) && final(state).message == old(state).message,
        !(old(state).kind is Models) && success ==> step.actions@ == seq![
            JobAction::RefreshEnvironment,
        ],
        !(old(state).kind is Models) && !success ==> step.actions@.len() == 0,
        success ==> final(state).task_status@ == "已完成"@,
        !success && cancelled ==> final(state).task_status@ == "已停止"@,
        !success && !cancelled ==> final(state).task_status@ == "未完成"@,
        !(old(state).kind is Models) && old(state).task_error is Some ==> text_of(
            final(state).message,
        ) == text_of(old(state).task_error),
        !(old(state).kind is Models) && old(state).task_error is None ==> text_of(
            final(state).message,
        ) == Some(final(state).task_status@),
        !final(state).running,
        !final(state).cancelling,
{
}

/// A task is finished by nothing but the end of the engine, and so is the preparation of
/// a model.
pub proof fn nothing_else_finishes_a_task(state: &mut JobState, event: Event, step: EventStep, k: int)
    requires
        call_ensures(JobState::apply, (state, event), step),
        0 <= k < step.actions@.len(),
        step.actions@[k] is FinishTask || step.actions@[k] is FinishModels,
    ensures
        event is Exit,
{
}

/// An error is kept and joins the lines; so does a request that is blocked, which joins
/// no lines. Nothing else changes what is known to have gone wrong.
pub proof fn an_error_is_kept(state: &mut JobState, event: Event, step: EventStep)
    requires
        call_ensures(JobState::apply, (state, event), step),
    ensures
        event matches Event::Error { message } ==> text_of(final(state).task_error) == Some(message@)
            && final(state).logs@.len() > 0 && final(state).logs@.last()@ == message@,
        event matches Event::Blocked { message, .. } ==> text_of(final(state).task_error) == Some(
            message@,
        ),
        !(event is Error || event is Blocked) ==> final(state).task_error == old(state).task_error,
        event matches Event::Log { message } ==> final(state).logs@.len() > 0 && final(state).logs@.last()@ == message@,
{
    if let Event::Error { message } = event {
        let lines = texts(old(state).logs@);
        the_latest_line_is_kept(lines.push(message@), message@);
        assert(latest(lines.push(message@)).last() == message@);
        assert(texts(final(state).logs@).last() == message@);
    }
    if let Event::Log { message } = event {
        let lines = texts(old(state).logs@);
        assert(latest(lines.push(message@)).last() == message@);
        assert(texts(final(state).logs@).last() == message@);
    }
}

/// Lines are only forgotten from the front, and only beyond the limit.
pub proof fn lines_leave_from_the_front(state: &mut JobState, event: Event, step: EventStep)
    requires
        call_ensures(JobState::apply, (state, event), step),
        old(state).logs@.len() <= 400,
    ensures
        final(state).logs@.len() <= 400,
        !(event is Log || event is Error) ==> texts(final(state).logs@) == texts(
            old(state).logs@,
        ),
        (event is Log || event is Error) && old(state).logs@.len() < 400 ==> texts(
            final(state).logs@,
        ).drop_last() == texts(old(state).logs@),
{
    let lines = texts(old(state).logs@);
    if let Event::Log { message } = event {
        assert(lines.push(message@).drop_last() =~= lines);
    }
    if let Event::Error { message } = event {
        assert(lines.push(message@).drop_last() =~= lines);
    }
    assert(texts(final(state).logs@).len() == final(state).logs@.len());
}

/// What a conversion made is kept until the task is finished.
pub proof fn a_result_is_kept(state: &mut JobState, event: Event, step: EventStep)
    requires
        call_ensures(JobState::apply, (state, event), step),
    ensures
        event matches Event::Done(done) ==> final(state).pending_done == Some(done),
        !(event is Done) ==> final(state).pending_done == old(state).pending_done,
{
}

/// Progress is passed on as the engine reports it.
pub proof fn progress_is_passed_on(state: &mut JobState, event: Event, step: EventStep)
    requires
        call_ensures(JobState::apply, (state, event), step),
    ensures
        event matches Event::Progress { stage, current, total, message } ==> step.actions@.contains(
            JobAction::Advance { stage, current, total, message },
        ),
        event matches Event::Workers { stage, workers } ==> step.actions@.contains(
            JobAction::SetWorkers { stage, workers },
        ),
        event matches Event::Stage { stage, status } ==> (status@ == "start"@
            <==> step.actions@.contains(JobAction::BeginStage(stage))),
        event matches Event::Stage { stage, status } ==> (status@ == "done"@ ==>
            step.actions@.contains(JobAction::EndStage(stage))),
        event is Log || event is Error || event is Blocked || event is Done ==> step.actions@.len()
            == 0,
{
    let actions = step.actions@;
    if let Event::Progress { stage, current, total, message } = event {
        assert(actions[0] == (JobAction::Advance { stage, current, total, message }));
    }
    if let Event::Workers { stage, workers } = event {
        assert(actions[0] == (JobAction::SetWorkers { stage, workers }));
    }
    if let Event::Stage { stage, status } = event {
        reveal_strlit("start");
        reveal_strlit("done");
        assert("start"@[0] != "done"@[0]);
        if status@ == "start"@ {
            assert(actions[0] == JobAction::BeginStage(stage));
        }
        if status@ == "done"@ {
            assert(actions[0] == JobAction::EndStage(stage));
        }
    }
}

/// The events of a task are saved; steps, errors and blocked requests at once. What is
/// not the event of a task is never saved.
pub proof fn the_events_of_a_task_are_saved(state: &mut JobState, event: Event, step: EventStep)
    requires
        call_ensures(JobState::apply, (state, event), step),
    ensures
        step.save <==> old(state).active_task is Some,
        event is Stage || event is Error || event is Blocked ==> step.flush == Some(
            old(state).active_task is Some,
        ),
        event is Log || event is Progress || event is Workers || event is Done || event is Exit
            ==> step.flush is None,
        step.immediate <==> event is Stage || event is Error || event is Blocked || event is Done
            || event is Exit,
{
}

/// A round without events asks for nothing and changes nothing; and a round in which the
/// engine ends a task finishes it.
pub proof fn a_round_finishes_a_task(state: &mut JobState, events: Vec<Event>, round: Round)
    requires
        call_ensures(JobState::poll, (state, events), round),
    ensures
        events@.len() == 0 ==> *final(state) == *old(state) && round.actions@.len() == 0
            && !round.save && !round.immediate && !round.flush,
        events@.len() == 1 && events@[0] is Exit && old(state).active_task is Some ==> {
            &&& round.actions@.len() > 0
            &&& round.actions@[0] == (JobAction::FinishTask {
                id: old(state).active_task->0,
                success: events@[0]->Exit_success,
                cancelled: events@[0]->Exit_cancelled,
            })
            &&& round.save && round.immediate
            &&& final(state).active_task is None
        },
{
    let (states, steps) = choose|states: Seq<JobState>, steps: Seq<EventStep>|
        {
            &&& #[trigger] is_round(states, steps, events@)
            &&& states.first() == *old(state)
            &&& states.last() == *final(state)
            &&& sums_up(round, steps)
        };
    if events@.len() == 1 {
        assert(states[0].is_after(states[1], events@[0]));
        assert(steps.drop_last() =~= Seq::empty());
        assert(all_actions(steps.drop_last()) =~= Seq::empty());
        assert(round.actions@ =~= steps[0].actions@);
        assert(steps[0].save == states[0].is_recording());
        assert(events@[0] is Exit ==> steps[0].immediate);
    }
}

/// The engine is asked for something only while it is free, and a conversion is begun on
/// the workbench. Asking changes nothing that is under way.
pub proof fn the_engine_does_one_thing(state: &mut JobState, kind: Kind, step: StartStep)
    requires
        call_ensures(JobState::start, (state, kind), step),
    ensures
        step is Run ==> !old(state).running && !(kind is Convert),
        !old(state).running && !(kind is Convert) ==> step is Run,
        kind is Convert <==> step is OpenWorkbench,
        final(state).running == old(state).running,
        final(state).active_task == old(state).active_task,
        final(state).kind == old(state).kind,
        step is Busy <==> final(state).message != old(state).message || (old(state).running
            && !(kind is Convert)),
{
}

/// Who asks to quit is waited for: an application with work under way never quits before
/// its time is up, and one without quits at once.
pub proof fn quitting_waits_for_work(
    closing: bool,
    running: bool,
    workers: usize,
    time_is_up: bool,
    step: CloseStep,
)
    requires
        call_ensures(close_step, (closing, running, workers, time_is_up), step),
    ensures
        step is Continue <==> !closing,
        closing && !time_is_up && (running || workers > 0) ==> step is Wait,
        closing && !running && workers == 0 ==> step is Quit,
        step is CancelAndQuit ==> time_is_up && (running || workers > 0),
        closing && time_is_up ==> !(step is Wait),
{
}

/// What changes the state is drawn at once; nothing is drawn without a cause; and what is
/// saved is drawn sooner or later.
pub proof fn changes_are_drawn(
    save: bool,
    immediate: bool,
    running: bool,
    pending: bool,
    models: bool,
    elapsed_ms: u64,
    result: Repaint,
)
    requires
        call_ensures(repaint, (save, immediate, running, pending, models, elapsed_ms), result),
    ensures
        immediate ==> result is Now,
        save ==> !(result is Keep),
        !save && !immediate && !running && !pending ==> result is Keep,
        !immediate && elapsed_ms < 250 ==> !(result is Now),
        (save || running || pending) && elapsed_ms >= 1000 ==> result is Now,
        (save || pending || (models && running)) && elapsed_ms >= 250 ==> result is Now,
        running && !save && !immediate && !pending && !models && elapsed_ms < 1000 ==> result is Keep,
{
}

/// Whoever asks to quit stops what is no task; a task comes to a point where it can be
/// continued.
pub proof fn quitting_does_not_stop_a_task(state: &mut JobState, workers: usize, plan: ClosePlan)
    requires
        call_ensures(JobState::request_close, (state, workers), plan),
    ensures
        old(state).active_task is Some ==> !plan.cancel_job,
        plan.cancel_job ==> old(state).running,
        old(state).running && old(state).active_task is None ==> plan.cancel_job,
        plan.quit_now <==> !old(state).running && workers == 0,
        final(state).active_task == old(state).active_task,
        final(state).running == old(state).running,
{
}

/// What the engine could not be started for is told, and a preparation that did not begin
/// has ended without success.
pub proof fn a_failed_start_is_told(
    state: &mut JobState,
    kind: Kind,
    error: String,
    actions: Vec<JobAction>,
)
    requires
        call_ensures(JobState::start_failed, (state, kind, error), actions),
    ensures
        text_of(final(state).task_error) == Some(error@),
        !(kind is Models) ==> text_of(final(state).message) == Some(error@) && actions@.len() == 0,
        kind is Models ==> actions@.len() > 0 && actions@[0] == (JobAction::FinishModels {
            success: false,
            cancelled: false,
        }),
        final(state).running == old(state).running,
{
}

proof fn earlier_actions_come_first(steps: Seq<EventStep>, n: int)
    requires
        0 <= n <= steps.len(),
    ensures
        all_actions(steps.take(n)).len() <= all_actions(steps).len(),
        all_actions(steps.take(n)) == all_actions(steps).take(
            all_actions(steps.take(n)).len() as int,
        ),
    decreases steps.len(),
{
    if n == steps.len() {
        assert(steps.take(n) =~= steps);
        assert(all_actions(steps).take(all_actions(steps).len() as int) =~= all_actions(steps));
    } else {
        let front = steps.drop_last();
        assert(front.take(n) =~= steps.take(n));
        earlier_actions_come_first(front, n);
        let m = all_actions(steps.take(n)).len() as int;
        assert(all_actions(steps).take(m) =~= all_actions(front).take(m));
    }
}

/// In a round what is asked for first is done first: the actions of the first events stand
/// before those of the rest.
pub proof fn actions_keep_the_order_of_events(round: Round, steps: Seq<EventStep>, n: int)
    requires
        sums_up(round, steps),
        0 < n <= steps.len(),
    ensures
        ({
            let before = all_actions(steps.take(n - 1));
            let own = steps[n - 1].actions@;
            &&& before.len() + own.len() <= round.actions@.len()
            &&& round.actions@.subrange(before.len() as int, (before.len() + own.len()) as int) == own
        }),
{
    let upto = steps.take(n);
    earlier_actions_come_first(steps, n);
    assert(upto.drop_last() =~= steps.take(n - 1));
    let before = all_actions(steps.take(n - 1));
    let own = steps[n - 1].actions@;
    assert(upto.last() == steps[n - 1]);
    assert(all_actions(upto) == before + own);
    assert(round.actions@.subrange(before.len() as int, (before.len() + own.len()) as int) =~= own)
        by {
        assert forall|k: int| 0 <= k < own.len() implies round.actions@[before.len() + k]
            == own[k] by {
            assert(all_actions(upto)[before.len() + k] == own[k]);
            assert(all_actions(steps).take(all_actions(upto).len() as int)[before.len() + k]
                == own[k]);
        }
    }
}

/// The latest event that has a say decides whether the task is saved at once, and one event that
/// asks for a save or a drawing is enough.
pub proof fn the_latest_event_decides_on_saving(round: Round, steps: Seq<EventStep>, i: int)
    requires
        sums_up(round, steps),
        0 <= i < steps.len(),
    ensures
        steps.last().flush matches Some(flush) ==> round.flush == flush,
        steps[i].save ==> round.save,
        steps[i].immediate ==> round.immediate,
        (forall|k: int| 0 <= k < steps.len() ==> !(#[trigger] steps[k]).save) ==> !round.save,
        (forall|k: int| 0 <= k < steps.len() ==> !(#[trigger] steps[k]).immediate)
            ==> !round.immediate,
{
}

/// What has begun is what was asked for, with nothing left of what was before.
pub proof fn what_begins_starts_anew(state: &mut JobState, kind: Kind)
    requires
        call_ensures(JobState::started, (state, kind), ()),
    ensures
        final(state).running && !final(state).cancelling,
        final(state).kind == kind,
        final(state).active_task is None,
        final(state).task_error is None,
        final(state).pending_done is None,
        final(state).logs@.len() == 0,
        kind is Doctor ==> final(state).task_status@ == "正在检查运行环境"@,
        !(kind is Doctor) ==> final(state).task_status@ == "正在准备识别模型"@,
{
}

/// The notice of an opened note is taken down once its time is up, and no other message ever is.
pub proof fn only_the_opened_notice_expires(
    message: &mut Option<String>,
    shown: Option<u64>,
    due: bool,
    gone: bool,
)
    requires
        call_ensures(expire_opened_notice, (message, shown), due),
        call_ensures(transient_result_over, (shown,), gone),
    ensures
        due <==> shown is Some && shown->0 >= 5,
        gone <==> shown is Some && shown->0 >= 8,
        !due ==> *final(message) == *old(message),
        text_of(*old(message)) != Some("笔记已打开"@) ==> *final(message) == *old(message),
        due && text_of(*old(message)) == Some("笔记已打开"@) ==> *final(message) is None,
{
}

} // verus!
