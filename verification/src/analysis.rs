//! The course of a first analysis, from its start to its last event. Each stage asks for one
//! action, and the report on that action leads to the next stage.

use vstd::prelude::*;
use vstd::string::*;

use crate::codex::{
    analysis_program, codex_exec_args, exec_args, launch_binary, CodexDetection, CommandLine,
    CommandView, DetectionView,
};
use crate::documents::{initial_analysis_prompt, prompt_text};
use crate::error::{error_message, AppError, ErrorKind, ErrorView};
use crate::event::{plain_payload, Detail, DetailView, Event, EventView};
use crate::outside::{date_time, now_rfc3339};
use crate::paths::{run_manifest_path, run_manifest_text, FilePath, PathView};
use crate::project::{ConfigView, ProjectConfig};
use crate::runs::{finish_run, finished_run_view, RunState, RunStatus, RunView};
use crate::text::{copy_opt, opt_text};

verus! {

/// How the relaying of one of the agent's output streams ended.
#[derive(Debug)]
pub enum ReaderEnd {
    /// The stream was relayed to its end.
    Finished,
    /// The stream could not be read or the log could not be written.
    Io(String),
    /// The place for the thread could not be locked.
    ThreadLockPoisoned,
    /// The log could not be locked.
    LogLockPoisoned,
    /// The relaying itself broke down.
    Panicked,
}

/// The error that the relaying of a stream ended with.
pub open spec fn reader_error(end: ReaderEnd) -> Option<ErrorView> {
    match end {
        ReaderEnd::Finished => None,
        ReaderEnd::Io(detail) => Some((ErrorKind::Io, detail@)),
        ReaderEnd::ThreadLockPoisoned => Some((ErrorKind::Codex, "thread id lock poisoned"@)),
        ReaderEnd::LogLockPoisoned => Some((ErrorKind::Codex, "log lock poisoned"@)),
        ReaderEnd::Panicked => Some((ErrorKind::Codex, "codex output reader panicked"@)),
    }
}

/// The error that the relaying of a stream ended with.
fn reader_failure(end: ReaderEnd) -> (r: Option<AppError>)
    ensures
        error_view(r) == reader_error(end),
{
    match end {
        ReaderEnd::Finished => None,
        ReaderEnd::Io(detail) => Some(AppError::Io(detail)),
        ReaderEnd::ThreadLockPoisoned => Some(
            AppError::Codex("thread id lock poisoned".to_string()),
        ),
        ReaderEnd::LogLockPoisoned => Some(AppError::Codex("log lock poisoned".to_string())),
        ReaderEnd::Panicked => Some(AppError::Codex("codex output reader panicked".to_string())),
    }
}

/// An optional error as its view.
pub open spec fn error_view(error: Option<AppError>) -> Option<ErrorView> {
    match error {
        Some(error) => Some(error@),
        None => None,
    }
}

/// How the wait for the agent ended.
#[derive(Debug)]
pub enum WaitEnd {
    /// The agent exited, with this status in words.
    Exited { success: bool, status: String },
    /// The wait failed.
    Io(String),
}

/// Everything that is known when the agent is gone and its output is relayed.
#[derive(Debug)]
pub struct Settlement {
    pub wait: WaitEnd,
    pub stdout: ReaderEnd,
    pub stderr: ReaderEnd,
    /// The thread that was announced, unless its place could not be locked.
    pub thread_id: Result<Option<String>, ()>,
    pub completed_at: String,
}

/// What an exit comes to once nothing went wrong on the way.
pub struct ExitView {
    pub success: bool,
    pub status: Seq<char>,
    pub thread_id: Option<Seq<char>>,
    pub completed_at: Seq<char>,
}

/// What a settlement comes to. Of several errors the first in this order counts: the wait, the
/// standard output, the error output, the thread.
pub open spec fn settled(settlement: Settlement) -> Result<ExitView, ErrorView> {
    match settlement.wait {
        WaitEnd::Io(detail) => Err((ErrorKind::Io, detail@)),
        WaitEnd::Exited { success, status } => match reader_error(settlement.stdout) {
            Some(error) => Err(error),
            None => match reader_error(settlement.stderr) {
                Some(error) => Err(error),
                None => match settlement.thread_id {
                    Err(_) => Err((ErrorKind::Codex, "thread id lock poisoned"@)),
                    Ok(thread_id) => Ok(
                        ExitView {
                            success,
                            status: status@,
                            thread_id: opt_text(thread_id),
                            completed_at: settlement.completed_at@,
                        },
                    ),
                },
            },
        },
    }
}

/// Everything that is known when the agent is gone, with the present time as the time of
/// completion.
pub fn settle_now(
    wait: WaitEnd,
    stdout: ReaderEnd,
    stderr: ReaderEnd,
    thread_id: Result<Option<String>, ()>,
) -> (r: Settlement)
    ensures
        r.wait == wait,
        r.stdout == stdout,
        r.stderr == stderr,
        r.thread_id == thread_id,
        date_time(r.completed_at@),
{
    Settlement { wait, stdout, stderr, thread_id, completed_at: now_rfc3339() }
}

/// The event of an analysis that begins.
pub open spec fn started_event_view(run_id: Seq<char>) -> EventView {
    EventView {
        event_type: "task.started"@,
        summary: "Initial analysis started"@,
        payload: seq![DetailView { name: "runId"@, value: Some(run_id) }],
    }
}

/// The event of an analysis that was completed.
pub open spec fn completed_event_view(
    run_id: Seq<char>,
    thread_id: Option<Seq<char>>,
) -> EventView {
    EventView {
        event_type: "task.completed"@,
        summary: "Initial analysis completed"@,
        payload: seq![
            DetailView { name: "runId"@, value: Some(run_id) },
            DetailView { name: "codexThreadId"@, value: thread_id },
        ],
    }
}

/// The event of an analysis that failed.
pub open spec fn failed_event_view(run_id: Seq<char>, error: ErrorView) -> EventView {
    EventView {
        event_type: "task.failed"@,
        summary: "Initial analysis failed: "@ + error_message(error),
        payload: seq![DetailView { name: "runId"@, value: Some(run_id) }],
    }
}

/// The event of an analysis that begins.
fn started_event(run_id: &str) -> (r: Event)
    ensures
        r@ == started_event_view(run_id@),
        r.event_type@ == "task.started"@,
        r.summary@ == "Initial analysis started"@,
{
    let run = Detail { name: "runId".to_string(), value: Some(run_id.to_string()) };
    let event = Event {
        event_type: "task.started".to_string(),
        summary: "Initial analysis started".to_string(),
        payload: vec![run],
    };
    assert(event@.payload == started_event_view(run_id@).payload);
    event
}

/// The event of an analysis that was completed.
fn completed_event(run_id: &str, thread_id: Option<String>) -> (r: Event)
    ensures
        r@ == completed_event_view(run_id@, opt_text(thread_id)),
        r.event_type@ == "task.completed"@,
        r.summary@ == "Initial analysis completed"@,
{
    let ghost announced: Option<Seq<char>> = opt_text(thread_id);
    let run = Detail { name: "runId".to_string(), value: Some(run_id.to_string()) };
    let thread = Detail { name: "codexThreadId".to_string(), value: thread_id };
    let event = Event {
        event_type: "task.completed".to_string(),
        summary: "Initial analysis completed".to_string(),
        payload: vec![run, thread],
    };
    assert(event@.payload == completed_event_view(run_id@, announced).payload);
    event
}

/// The event of an analysis that failed.
fn failed_event(run_id: &str, error: &AppError) -> (r: Event)
    ensures
        r@ == failed_event_view(run_id@, error@),
        r.event_type@ == "task.failed"@,
        r.summary@ == "Initial analysis failed: "@ + error_message(error@),
{
    let run = Detail { name: "runId".to_string(), value: Some(run_id.to_string()) };
    let event = Event {
        event_type: "task.failed".to_string(),
        summary: "Initial analysis failed: ".to_string().concat(error.message().as_str()),
        payload: vec![run],
    };
    assert(event@.payload == failed_event_view(run_id@, error@).payload);
    event
}

/// What tells the windows of the application that a project has changed.
pub open spec fn update_details(project: Seq<char>, run_id: Seq<char>) -> Seq<DetailView> {
    seq![
        DetailView { name: "projectPath"@, value: Some(project) },
        DetailView { name: "runId"@, value: Some(run_id) },
    ]
}

/// Where an analysis stands.
#[derive(Debug)]
pub enum Stage {
    /// The state of the run is to be written.
    SavingStart,
    /// The start is to be announced.
    AnnouncingStart,
    /// The run goes back to the caller, and the rest happens in the background.
    HandingOver,
    /// The agent's program is to be found.
    Detecting,
    /// The log is to be opened.
    OpeningLog { command: CommandLine },
    /// The agent is to be started.
    Launching { command: CommandLine },
    /// The agent's output is to be relayed until it exits.
    Relaying,
    /// The final state of the run is to be written.
    SavingEnd { finished: RunState, failure: Option<AppError> },
    /// The completion is to be announced.
    AnnouncingEnd { finished: RunState },
    /// The windows of the application are to be told.
    Notifying { failure: Option<AppError> },
    /// The failure is to be announced.
    AnnouncingFailure { error: AppError },
    /// The analysis did not begin, and the caller gets the error.
    Refused { error: AppError },
    /// The analysis is over.
    Ended,
}

/// A stage as its characters.
pub enum StageView {
    SavingStart,
    AnnouncingStart,
    HandingOver,
    Detecting,
    OpeningLog { command: CommandView },
    Launching { command: CommandView },
    Relaying,
    SavingEnd { finished: RunView, failure: Option<ErrorView> },
    AnnouncingEnd { finished: RunView },
    Notifying { failure: Option<ErrorView> },
    AnnouncingFailure { error: ErrorView },
    Refused { error: ErrorView },
    Ended,
}

impl View for Stage {
    type V = StageView;

    open spec fn view(&self) -> StageView {
        match self {
            Stage::SavingStart => StageView::SavingStart,
            Stage::AnnouncingStart => StageView::AnnouncingStart,
            Stage::HandingOver => StageView::HandingOver,
            Stage::Detecting => StageView::Detecting,
            Stage::OpeningLog { command } => StageView::OpeningLog { command: command@ },
            Stage::Launching { command } => StageView::Launching { command: command@ },
            Stage::Relaying => StageView::Relaying,
            Stage::SavingEnd { finished, failure } => StageView::SavingEnd {
                finished: finished@,
                failure: error_view(*failure),
            },
            Stage::AnnouncingEnd { finished } => StageView::AnnouncingEnd { finished: finished@ },
            Stage::Notifying { failure } => StageView::Notifying { failure: error_view(*failure) },
            Stage::AnnouncingFailure { error } => StageView::AnnouncingFailure { error: error@ },
            Stage::Refused { error } => StageView::Refused { error: error@ },
            Stage::Ended => StageView::Ended,
        }
    }
}

/// An analysis of a project.
#[derive(Debug)]
pub struct Analysis {
    pub project: FilePath,
    pub config: ProjectConfig,
    pub run: RunState,
    pub stage: Stage,
}

/// An analysis as its characters.
pub struct AnalysisView {
    pub project: PathView,
    pub config: ConfigView,
    pub run: RunView,
    pub stage: StageView,
}

impl View for Analysis {
    type V = AnalysisView;

    open spec fn view(&self) -> AnalysisView {
        AnalysisView {
            project: self.project@,
            config: self.config@,
            run: self.run@,
            stage: self.stage@,
        }
    }
}

/// What an analysis asks for.
#[derive(Debug)]
pub enum Action<'a> {
    /// Write the state of the run to this file.
    SaveRun { path: String, run: &'a RunState },
    /// Append this event to the events of the project.
    AppendEvent { event: Event },
    /// Give the run to the caller and go on in the background.
    HandOver { run: &'a RunState },
    /// Find the agent's program.
    Detect,
    /// Open this file so that it can be appended to.
    OpenLog { path: String },
    /// Start this program with its output piped.
    Launch { command: &'a CommandLine },
    /// Relay the agent's output to the log, and wait for it to exit.
    Relay,
    /// Tell the windows of the application that the project has changed.
    Notify { details: Vec<Detail> },
    /// Give the error to the caller.
    Refuse { error: &'a AppError },
    /// Nothing more.
    Stop,
}

/// An action as its characters.
pub enum ActionView {
    SaveRun { path: Seq<char>, run: RunView },
    AppendEvent { event: EventView },
    HandOver { run: RunView },
    Detect,
    OpenLog { path: Seq<char> },
    Launch { command: CommandView },
    Relay,
    Notify { details: Seq<DetailView> },
    Refuse { error: ErrorView },
    Stop,
}

impl<'a> View for Action<'a> {
    type V = ActionView;

    open spec fn view(&self) -> ActionView {
        match self {
            Action::SaveRun { path, run } => ActionView::SaveRun { path: path@, run: run@ },
            Action::AppendEvent { event } => ActionView::AppendEvent { event: event@ },
            Action::HandOver { run } => ActionView::HandOver { run: run@ },
            Action::Detect => ActionView::Detect,
            Action::OpenLog { path } => ActionView::OpenLog { path: path@ },
            Action::Launch { command } => ActionView::Launch { command: command@ },
            Action::Relay => ActionView::Relay,
            Action::Notify { details } => ActionView::Notify {
                details: details@.map_values(|d: Detail| d@),
            },
            Action::Refuse { error } => ActionView::Refuse { error: error@ },
            Action::Stop => ActionView::Stop,
        }
    }
}

/// What came of an action.
#[derive(Debug)]
pub enum Report {
    /// It was done.
    Done,
    /// It failed with this error.
    Failed(AppError),
    /// The agent's program was looked for.
    Detected(CodexDetection),
    /// The agent could not be started.
    NotLaunched(String),
    /// The agent was started without its standard output.
    NoStdout,
    /// The agent was started without its error output.
    NoStderr,
    /// The agent is gone and its output is relayed.
    Relayed(Settlement),
}

/// A report as its characters.
pub enum ReportView {
    Done,
    Failed(ErrorView),
    Detected(DetectionView),
    NotLaunched(Seq<char>),
    NoStdout,
    NoStderr,
    Relayed(Result<ExitView, ErrorView>),
}

impl View for Report {
    type V = ReportView;

    open spec fn view(&self) -> ReportView {
        match self {
            Report::Done => ReportView::Done,
            Report::Failed(error) => ReportView::Failed(error@),
            Report::Detected(detection) => ReportView::Detected(detection@),
            Report::NotLaunched(reason) => ReportView::NotLaunched(reason@),
            Report::NoStdout => ReportView::NoStdout,
            Report::NoStderr => ReportView::NoStderr,
            Report::Relayed(settlement) => ReportView::Relayed(settled(*settlement)),
        }
    }
}

/// What an analysis asks for at its stage.
pub open spec fn analysis_action(a: AnalysisView) -> ActionView {
    match a.stage {
        StageView::SavingStart => ActionView::SaveRun {
            path: run_manifest_text(a.project, a.run.id),
            run: a.run,
        },
        StageView::AnnouncingStart => ActionView::AppendEvent {
            event: started_event_view(a.run.id),
        },
        StageView::HandingOver => ActionView::HandOver { run: a.run },
        StageView::Detecting => ActionView::Detect,
        StageView::OpeningLog { .. } => ActionView::OpenLog { path: a.run.log_path },
        StageView::Launching { command } => ActionView::Launch { command },
        StageView::Relaying => ActionView::Relay,
        StageView::SavingEnd { finished, .. } => ActionView::SaveRun {
            path: run_manifest_text(a.project, a.run.id),
            run: finished,
        },
        StageView::AnnouncingEnd { finished } => ActionView::AppendEvent {
            event: completed_event_view(a.run.id, finished.codex_thread_id),
        },
        StageView::Notifying { .. } => ActionView::Notify {
            details: update_details(a.project.text, a.run.id),
        },
        StageView::AnnouncingFailure { error } => ActionView::AppendEvent {
            event: failed_event_view(a.run.id, error),
        },
        StageView::Refused { error } => ActionView::Refuse { error },
        StageView::Ended => ActionView::Stop,
    }
}

/// The stage after the agent's program was looked for.
pub open spec fn stage_after_detection(a: AnalysisView, detection: DetectionView) -> StageView {
    match analysis_program(detection) {
        Ok(program) => StageView::OpeningLog {
            command: CommandView {
                program,
                args: exec_args(a.project.text, prompt_text(a.config.website_url)),
            },
        },
        Err(error) => StageView::Notifying { failure: Some(error) },
    }
}

/// The stage after the agent has exited.
pub open spec fn stage_after_exit(a: AnalysisView, exit: ExitView) -> StageView {
    StageView::SavingEnd {
        finished: finished_run_view(
            a.run,
            exit.thread_id,
            exit.completed_at,
            exit.success,
            exit.status,
        ),
        failure: if exit.success {
            None
        } else {
            Some((ErrorKind::Codex, "codex exited with "@ + exit.status))
        },
    }
}

/// The stage after the windows of the application were told: whether they were reached does not
/// matter.
pub open spec fn after_notifying(failure: Option<ErrorView>) -> StageView {
    match failure {
        Some(error) => StageView::AnnouncingFailure { error },
        None => StageView::Ended,
    }
}

/// The stage after an action was done.
pub open spec fn done_stage(stage: StageView) -> StageView {
    match stage {
        StageView::SavingStart => StageView::AnnouncingStart,
        StageView::AnnouncingStart => StageView::HandingOver,
        StageView::HandingOver => StageView::Detecting,
        StageView::OpeningLog { command } => StageView::Launching { command },
        StageView::Launching { .. } => StageView::Relaying,
        StageView::SavingEnd { finished, failure } => match failure {
            None => StageView::AnnouncingEnd { finished },
            Some(error) => StageView::Notifying { failure: Some(error) },
        },
        StageView::AnnouncingEnd { .. } => StageView::Notifying { failure: None },
        StageView::Notifying { failure } => after_notifying(failure),
        StageView::AnnouncingFailure { .. } => StageView::Ended,
        _ => stage,
    }
}

/// The stage after an action failed.
pub open spec fn failed_stage(stage: StageView, error: ErrorView) -> StageView {
    match stage {
        StageView::SavingStart => StageView::Refused { error },
        StageView::AnnouncingStart => StageView::Refused { error },
        StageView::OpeningLog { .. } => StageView::Notifying { failure: Some(error) },
        StageView::SavingEnd { .. } => StageView::Notifying { failure: Some(error) },
        StageView::AnnouncingEnd { .. } => StageView::Notifying { failure: Some(error) },
        StageView::Notifying { failure } => after_notifying(failure),
        StageView::AnnouncingFailure { .. } => StageView::Ended,
        _ => stage,
    }
}

/// The stage after a report. A report that does not answer what was asked changes nothing.
pub open spec fn next_stage(a: AnalysisView, report: ReportView) -> StageView {
    match (a.stage, report) {
        (stage, ReportView::Done) => done_stage(stage),
        (stage, ReportView::Failed(error)) => failed_stage(stage, error),
        (StageView::Detecting, ReportView::Detected(detection)) => stage_after_detection(
            a,
            detection,
        ),
        (StageView::Launching { .. }, ReportView::NotLaunched(reason)) => StageView::Notifying {
            failure: Some((ErrorKind::Codex, "failed to launch codex: "@ + reason)),
        },
        (StageView::Launching { .. }, ReportView::NoStdout) => StageView::Notifying {
            failure: Some((ErrorKind::Codex, "missing codex stdout"@)),
        },
        (StageView::Launching { .. }, ReportView::NoStderr) => StageView::Notifying {
            failure: Some((ErrorKind::Codex, "missing codex stderr"@)),
        },
        (StageView::Relaying, ReportView::Relayed(end)) => match end {
            Ok(exit) => stage_after_exit(a, exit),
            Err(error) => StageView::Notifying { failure: Some(error) },
        },
        (stage, _) => stage,
    }
}

/// The analysis after a report.
pub open spec fn analysis_step(a: AnalysisView, report: ReportView) -> AnalysisView {
    AnalysisView { stage: next_stage(a, report), ..a }
}

impl Analysis {
    /// An analysis that begins.
    pub fn start(project: FilePath, config: ProjectConfig, run: RunState) -> (r: Analysis)
        ensures
            r@ == (AnalysisView {
                project: project@,
                config: config@,
                run: run@,
                stage: StageView::SavingStart,
            }),
    {
        Analysis { project, config, run, stage: Stage::SavingStart }
    }

    /// What is to be done next.
    pub fn action(&self) -> (r: Action<'_>)
        ensures
            r@ == analysis_action(self@),
    {
        match &self.stage {
            Stage::SavingStart => Action::SaveRun {
                path: run_manifest_path(&self.project, self.run.id.as_str()),
                run: &self.run,
            },
            Stage::AnnouncingStart => Action::AppendEvent {
                event: started_event(self.run.id.as_str()),
            },
            Stage::HandingOver => Action::HandOver { run: &self.run },
            Stage::Detecting => Action::Detect,
            Stage::OpeningLog { .. } => Action::OpenLog { path: self.run.log_path.clone() },
            Stage::Launching { command } => Action::Launch { command },
            Stage::Relaying => Action::Relay,
            Stage::SavingEnd { finished, .. } => Action::SaveRun {
                path: run_manifest_path(&self.project, self.run.id.as_str()),
                run: finished,
            },
            Stage::AnnouncingEnd { finished } => Action::AppendEvent {
                event: completed_event(
                    self.run.id.as_str(),
                    copy_opt(&finished.codex_thread_id),
                ),
            },
            Stage::Notifying { .. } => {
                let project = Detail {
                    name: "projectPath".to_string(),
                    value: Some(self.project.text.clone()),
                };
                let run = Detail { name: "runId".to_string(), value: Some(self.run.id.clone()) };
                let details = vec![project, run];
                assert(details@.map_values(|d: Detail| d@) == update_details(
                    self.project.text@,
                    self.run@.id,
                ));
                Action::Notify { details }
            },
            Stage::AnnouncingFailure { error } => Action::AppendEvent {
                event: failed_event(self.run.id.as_str(), error),
            },
            Stage::Refused { error } => Action::Refuse { error },
            Stage::Ended => Action::Stop,
        }
    }

    /// The stage after the agent's program was looked for.
    fn plan_launch(&self, detection: CodexDetection) -> (r: Stage)
        ensures
            r@ == stage_after_detection(self@, detection@),
    {
        match launch_binary(detection) {
            Ok(program) => {
                let prompt = initial_analysis_prompt(&self.config);
                let args = codex_exec_args(self.project.text.as_str(), prompt.as_str());
                Stage::OpeningLog { command: CommandLine { program, args } }
            },
            Err(error) => Stage::Notifying { failure: Some(error) },
        }
    }

    /// The stage after the agent is gone.
    fn conclude(&self, settlement: Settlement) -> (r: Stage)
        ensures
            r@ == match settled(settlement) {
                Ok(exit) => stage_after_exit(self@, exit),
                Err(error) => StageView::Notifying { failure: Some(error) },
            },
            relayed_well(settlement) ==> saves_end(r, settlement.wait->success),
    {
        let (success, status) = match settlement.wait {
            WaitEnd::Exited { success, status } => (success, status),
            WaitEnd::Io(detail) => return Stage::Notifying { failure: Some(AppError::Io(detail)) },
        };
        match reader_failure(settlement.stdout) {
            Some(error) => return Stage::Notifying { failure: Some(error) },
            None => {},
        }
        match reader_failure(settlement.stderr) {
            Some(error) => return Stage::Notifying { failure: Some(error) },
            None => {},
        }
        let thread_id = match settlement.thread_id {
            Ok(thread_id) => thread_id,
            Err(_) => return Stage::Notifying {
                failure: Some(AppError::Codex("thread id lock poisoned".to_string())),
            },
        };
        let finished = finish_run(
            &self.run,
            thread_id,
            settlement.completed_at,
            success,
            status.as_str(),
        );
        let failure = if success {
            None
        } else {
            Some(AppError::Codex("codex exited with ".to_string().concat(status.as_str())))
        };
        Stage::SavingEnd { finished, failure }
    }

    /// The analysis after a report. A report that does not answer what was asked changes nothing.
    pub fn step(self, report: Report) -> (r: Analysis)
        ensures
            r@ == analysis_step(self@, report@),
            r.project == self.project,
            r.config == self.config,
            r.run == self.run,
            self.stage is Relaying && report is Relayed && relayed_well(report->Relayed_0)
                ==> saves_end(r.stage, report->Relayed_0.wait->success),
    {
        let stage = match report {
            Report::Detected(detection) => match &self.stage {
                Stage::Detecting => self.plan_launch(detection),
                _ => return self,
            },
            Report::Relayed(settlement) => match &self.stage {
                Stage::Relaying => self.conclude(settlement),
                _ => return self,
            },
            Report::NotLaunched(reason) => match &self.stage {
                Stage::Launching { .. } => Stage::Notifying {
                    failure: Some(
                        AppError::Codex(
                            "failed to launch codex: ".to_string().concat(reason.as_str()),
                        ),
                    ),
                },
                _ => return self,
            },
            Report::NoStdout => match &self.stage {
                Stage::Launching { .. } => Stage::Notifying {
                    failure: Some(AppError::Codex("missing codex stdout".to_string())),
                },
                _ => return self,
            },
            Report::NoStderr => match &self.stage {
                Stage::Launching { .. } => Stage::Notifying {
                    failure: Some(AppError::Codex("missing codex stderr".to_string())),
                },
                _ => return self,
            },
            Report::Done => {
                let Analysis { project, config, run, stage } = self;
                return Analysis { project, config, run, stage: stage_when_done(stage) };
            },
            Report::Failed(error) => {
                let Analysis { project, config, run, stage } = self;
                return Analysis { project, config, run, stage: stage_when_failed(stage, error) };
            },
        };
        let Analysis { project, config, run, .. } = self;
        Analysis { project, config, run, stage }
    }
}

/// The stage after an action was done.
fn stage_when_done(stage: Stage) -> (r: Stage)
    ensures
        r@ == done_stage(stage@),
{
    match stage {
        Stage::SavingStart => Stage::AnnouncingStart,
        Stage::AnnouncingStart => Stage::HandingOver,
        Stage::HandingOver => Stage::Detecting,
        Stage::OpeningLog { command } => Stage::Launching { command },
        Stage::Launching { .. } => Stage::Relaying,
        Stage::SavingEnd { finished, failure } => match failure {
            None => Stage::AnnouncingEnd { finished },
            Some(error) => Stage::Notifying { failure: Some(error) },
        },
        Stage::AnnouncingEnd { .. } => Stage::Notifying { failure: None },
        Stage::Notifying { failure } => match failure {
            Some(error) => Stage::AnnouncingFailure { error },
            None => Stage::Ended,
        },
        Stage::AnnouncingFailure { .. } => Stage::Ended,
        other => other,
    }
}

/// The stage after an action failed.
fn stage_when_failed(stage: Stage, error: AppError) -> (r: Stage)
    ensures
        r@ == failed_stage(stage@, error@),
{
    match stage {
        Stage::SavingStart => Stage::Refused { error },
        Stage::AnnouncingStart => Stage::Refused { error },
        Stage::OpeningLog { .. } => Stage::Notifying { failure: Some(error) },
        Stage::SavingEnd { .. } => Stage::Notifying { failure: Some(error) },
        Stage::AnnouncingEnd { .. } => Stage::Notifying { failure: Some(error) },
        Stage::Notifying { failure } => match failure {
            Some(error) => Stage::AnnouncingFailure { error },
            None => Stage::Ended,
        },
        Stage::AnnouncingFailure { .. } => Stage::Ended,
        other => other,
    }
}

/// Whether a report answers what a stage asks for.
pub open spec fn answers(stage: StageView, report: ReportView) -> bool {
    match stage {
        StageView::HandingOver => report is Done,
        StageView::Detecting => report is Detected,
        StageView::Launching { .. } => report is Done || report is NotLaunched || report is NoStdout
            || report is NoStderr,
        StageView::Relaying => report is Relayed,
        StageView::Refused { .. } => false,
        StageView::Ended => false,
        _ => report is Done || report is Failed,
    }
}

/// How many answers an analysis can still take at a stage.
pub open spec fn answers_left(stage: StageView) -> nat {
    match stage {
        StageView::SavingStart => 11,
        StageView::AnnouncingStart => 10,
        StageView::HandingOver => 9,
        StageView::Detecting => 8,
        StageView::OpeningLog { .. } => 7,
        StageView::Launching { .. } => 6,
        StageView::Relaying => 5,
        StageView::SavingEnd { .. } => 4,
        StageView::AnnouncingEnd { .. } => 3,
        StageView::Notifying { .. } => 2,
        StageView::AnnouncingFailure { .. } => 1,
        StageView::Refused { .. } => 0,
        StageView::Ended => 0,
    }
}

/// An analysis comes to an end: every answer leaves fewer answers to be given, any other report
/// changes nothing, and where no answer is left the analysis is over.
pub proof fn law_every_answer_is_progress(a: AnalysisView, report: ReportView)
    ensures
        answers(a.stage, report) ==> answers_left(analysis_step(a, report).stage) < answers_left(
            a.stage,
        ),
        !answers(a.stage, report) ==> analysis_step(a, report) == a,
        answers_left(a.stage) == 0 <==> a.stage is Refused || a.stage is Ended,
{
}

/// Whether the final state of the run at a stage fits how the run ended.
pub open spec fn sound(a: AnalysisView) -> bool {
    match a.stage {
        StageView::SavingEnd { finished, failure } => {
            &&& same_run(a.run, finished)
            &&& failure is None <==> finished.status == RunStatus::Completed
            &&& failure is Some <==> finished.status == RunStatus::Failed
        },
        StageView::AnnouncingEnd { finished } => same_run(a.run, finished) && finished.status
            == RunStatus::Completed,
        _ => true,
    }
}

/// Whether `finished` is the run that began as `run`, with a time of completion.
pub open spec fn same_run(run: RunView, finished: RunView) -> bool {
    &&& finished.id == run.id
    &&& finished.kind == run.kind
    &&& finished.started_at == run.started_at
    &&& finished.log_path == run.log_path
    &&& finished.completed_at is Some
}

/// What is saved and announced at the end fits how the run ended, at every stage of every
/// analysis; the project, its configuration and the run as it began stay what they were.
pub proof fn law_analyses_stay_sound(a: AnalysisView, report: ReportView)
    requires
        sound(a),
    ensures
        sound(analysis_step(a, report)),
        analysis_step(a, report).project == a.project,
        analysis_step(a, report).config == a.config,
        analysis_step(a, report).run == a.run,
{
}

/// Completion is announced only after the completed run was saved.
pub proof fn law_completion_is_saved_first(a: AnalysisView, report: ReportView, finished: RunView)
    requires
        !(a.stage is AnnouncingEnd),
        analysis_step(a, report).stage == (StageView::AnnouncingEnd { finished }),
    ensures
        report is Done,
        analysis_action(a) == (ActionView::SaveRun {
            path: run_manifest_text(a.project, a.run.id),
            run: finished,
        }),
{
}

/// An analysis goes on to tell the windows of the application without a failure only when the
/// announcement of its completion was done.
pub proof fn law_only_completion_ends_without_failure(a: AnalysisView, report: ReportView)
    requires
        !(a.stage is Notifying),
        analysis_step(a, report).stage == (StageView::Notifying { failure: None }),
    ensures
        a.stage is AnnouncingEnd,
        report is Done,
{
}

/// Whether a stage lies between the hand-over and the end of the run.
pub open spec fn in_background(stage: StageView) -> bool {
    ||| stage is Detecting
    ||| stage is OpeningLog
    ||| stage is Launching
    ||| stage is Relaying
    ||| stage is SavingEnd
    ||| stage is AnnouncingEnd
}

/// Whether a report says that something went wrong.
pub open spec fn goes_wrong(report: ReportView) -> bool {
    match report {
        ReportView::Done => false,
        ReportView::Detected(detection) => detection.path is None,
        ReportView::Relayed(end) => end is Err,
        _ => true,
    }
}

/// Whatever goes wrong between the hand-over and the end of the run becomes the failure of the
/// analysis, which the windows of the application are told of; the caller is not refused any more.
pub proof fn law_what_goes_wrong_becomes_the_failure(a: AnalysisView, report: ReportView)
    requires
        in_background(a.stage),
        answers(a.stage, report),
    ensures
        goes_wrong(report) ==> analysis_step(a, report).stage is Notifying && analysis_step(
            a,
            report,
        ).stage->Notifying_failure is Some,
        !(analysis_step(a, report).stage is Refused),
        !(analysis_step(a, report).stage is Ended),
{
}

/// A failure is announced with its message, whether the windows of the application could be told
/// or not, and then the analysis is over.
pub proof fn law_failures_are_announced(
    a: AnalysisView,
    failure: ErrorView,
    told: ReportView,
    announced: ReportView,
)
    requires
        a.stage == (StageView::Notifying { failure: Some(failure) }),
        told is Done || told is Failed,
        announced is Done || announced is Failed,
    ensures
        analysis_action(analysis_step(a, told)) == (ActionView::AppendEvent {
            event: failed_event_view(a.run.id, failure),
        }),
        analysis_step(analysis_step(a, told), announced).stage is Ended,
{
}

/// The manifest of a run is one file: it is written at the start and again at the end.
pub proof fn law_one_manifest_per_run(a: AnalysisView)
    ensures
        analysis_action(a) matches ActionView::SaveRun { path, .. } ==> path == run_manifest_text(
            a.project,
            a.run.id,
        ),
{
}

/// Every event of an analysis has a payload with plain names, so that its line is read back as the
/// object that was written.
pub proof fn law_events_can_be_read_back(a: AnalysisView)
    ensures
        analysis_action(a) matches ActionView::AppendEvent { event } ==> plain_payload(
            event.payload,
        ),
{
    reveal_strlit("runId");
    reveal_strlit("codexThreadId");
}

/// An analysis of which every part succeeds saves the completed run, announces the completion with
/// the thread of the agent, tells the windows of the application, and ends.
pub proof fn law_good_analysis(
    project: PathView,
    config: ConfigView,
    run: RunView,
    detection: DetectionView,
    exit: ExitView,
)
    requires
        detection.path is Some,
        exit.success,
    ensures
        ({
            let begun = AnalysisView { project, config, run, stage: StageView::SavingStart };
            let done = ReportView::Done;
            let announced = analysis_step(begun, done);
            let handed = analysis_step(announced, done);
            let detecting = analysis_step(handed, done);
            let opening = analysis_step(detecting, ReportView::Detected(detection));
            let launching = analysis_step(opening, done);
            let relaying = analysis_step(launching, done);
            let saving = analysis_step(relaying, ReportView::Relayed(Ok(exit)));
            let closing = analysis_step(saving, done);
            let telling = analysis_step(closing, done);
            let ended = analysis_step(telling, done);
            let finished = finished_run_view(
                run,
                exit.thread_id,
                exit.completed_at,
                true,
                exit.status,
            );
            let manifest = run_manifest_text(project, run.id);
            &&& analysis_action(begun) == (ActionView::SaveRun { path: manifest, run })
            &&& analysis_action(announced) == (ActionView::AppendEvent {
                event: started_event_view(run.id),
            })
            &&& analysis_action(handed) == (ActionView::HandOver { run })
            &&& analysis_action(detecting) == ActionView::Detect
            &&& analysis_action(opening) == (ActionView::OpenLog { path: run.log_path })
            &&& analysis_action(launching) == (ActionView::Launch {
                command: CommandView {
                    program: detection.path->0,
                    args: exec_args(project.text, prompt_text(config.website_url)),
                },
            })
            &&& analysis_action(relaying) == ActionView::Relay
            &&& analysis_action(saving) == (ActionView::SaveRun { path: manifest, run: finished })
            &&& analysis_action(closing) == (ActionView::AppendEvent {
                event: completed_event_view(run.id, exit.thread_id),
            })
            &&& analysis_action(telling) == (ActionView::Notify {
                details: update_details(project.text, run.id),
            })
            &&& analysis_action(ended) == ActionView::Stop
        }),
{
}

/// An agent that exits without success leaves a failed run with the exit status as its error, and
/// the same words are announced as the failure.
pub proof fn law_bad_exit_is_recorded(a: AnalysisView, exit: ExitView)
    requires
        a.stage is Relaying,
        !exit.success,
    ensures
        ({
            let saving = analysis_step(a, ReportView::Relayed(Ok(exit)));
            let telling = analysis_step(saving, ReportView::Done);
            let words = "codex exited with "@ + exit.status;
            &&& analysis_action(saving) matches ActionView::SaveRun { run, .. } && run.status
                == RunStatus::Failed && run.error == Some(words)
            &&& telling.stage == (StageView::Notifying {
                failure: Some((ErrorKind::Codex, words)),
            })
        }),
{
}

/// Whether the agent exited and nothing went wrong while its output was relayed.
pub open spec fn relayed_well(settlement: Settlement) -> bool {
    &&& settlement.wait is Exited
    &&& settlement.stdout is Finished
    &&& settlement.stderr is Finished
    &&& settlement.thread_id is Ok
}

/// Whether a completed run without a failure is saved next, or a failed run with one.
pub open spec fn saves_end(stage: Stage, success: bool) -> bool {
    match stage {
        Stage::SavingEnd { finished, failure } => {
            &&& finished.status == if success {
                RunStatus::Completed
            } else {
                RunStatus::Failed
            }
            &&& failure is None == success
        },
        _ => false,
    }
}

/// Where nothing went wrong on the way, an exit is just what the settlement says: the success and
/// the status of the agent, the thread that was announced, if any, and the time.
pub proof fn law_exit_is_what_was_settled(settlement: Settlement)
    requires
        relayed_well(settlement),
    ensures
        settled(settlement) matches Ok(exit) && {
            &&& exit.success == settlement.wait->success
            &&& exit.status == settlement.wait->status@
            &&& exit.completed_at == settlement.completed_at@
            &&& match settlement.thread_id->Ok_0 {
                Some(id) => exit.thread_id == Some(id@),
                None => exit.thread_id is None,
            }
        },
{
}

/// The run that is saved when the agent is gone is completed if and only if the agent exited with
/// success, whatever thread was announced or not; else it has failed, and the exit status is its
/// error. It keeps what it began with, and takes over the thread and the time.
pub proof fn law_run_is_completed_just_on_success(a: AnalysisView, settlement: Settlement)
    requires
        a.stage is Relaying,
        relayed_well(settlement),
    ensures
        ({
            let saving = analysis_step(a, Report::Relayed(settlement)@);
            analysis_action(saving) matches ActionView::SaveRun { path, run } && {
                &&& path == run_manifest_text(a.project, a.run.id)
                &&& run.status == RunStatus::Completed <==> settlement.wait->success
                &&& run.status == RunStatus::Failed <==> !settlement.wait->success
                &&& run.error == if settlement.wait->success {
                    a.run.error
                } else {
                    Some("codex exited with "@ + settlement.wait->status@)
                }
                &&& run.completed_at == Some(settlement.completed_at@)
                &&& match settlement.thread_id->Ok_0 {
                    Some(id) => run.codex_thread_id == Some(id@),
                    None => run.codex_thread_id is None,
                }
                &&& run.id == a.run.id
                &&& run.kind == a.run.kind
                &&& run.started_at == a.run.started_at
                &&& run.log_path == a.run.log_path
            }
        }),
{
}

/// Whether the windows of the application are told next of the project, by its whole path, and of
/// the run.
pub open spec fn tells_windows(a: AnalysisView) -> bool {
    match analysis_action(a) {
        ActionView::Notify { details } => {
            &&& details.len() == 2
            &&& details[0].name == "projectPath"@
            &&& details[0].value == Some(a.project.text)
            &&& details[1].name == "runId"@
            &&& details[1].value == Some(a.run.id)
        },
        _ => false,
    }
}

/// After the run was saved, a success is announced as the completion of the run, with the thread
/// that was announced; then the windows of the application are told, and the analysis is over.
pub proof fn law_success_is_announced(
    a: AnalysisView,
    settlement: Settlement,
    told: ReportView,
)
    requires
        a.stage is Relaying,
        relayed_well(settlement),
        settlement.wait->success,
        told is Done || told is Failed,
    ensures
        ({
            let saving = analysis_step(a, Report::Relayed(settlement)@);
            let announcing = analysis_step(saving, ReportView::Done);
            let telling = analysis_step(announcing, ReportView::Done);
            &&& analysis_action(announcing) matches ActionView::AppendEvent { event } && {
                &&& event.event_type == "task.completed"@
                &&& event.summary == "Initial analysis completed"@
                &&& event.payload.len() == 2
                &&& event.payload[0].name == "runId"@
                &&& event.payload[0].value == Some(a.run.id)
                &&& event.payload[1].name == "codexThreadId"@
                &&& match settlement.thread_id->Ok_0 {
                    Some(id) => event.payload[1].value == Some(id@),
                    None => event.payload[1].value is None,
                }
            }
            &&& tells_windows(telling)
            &&& analysis_action(analysis_step(telling, told)) is Stop
        }),
{
}

/// After the run was saved, any other exit is announced as a failure in the words of its status,
/// and no completion is announced; then the analysis is over.
pub proof fn law_bad_exit_is_announced(
    a: AnalysisView,
    settlement: Settlement,
    told: ReportView,
    announced: ReportView,
)
    requires
        a.stage is Relaying,
        relayed_well(settlement),
        !settlement.wait->success,
        told is Done || told is Failed,
        announced is Done || announced is Failed,
    ensures
        ({
            let saving = analysis_step(a, Report::Relayed(settlement)@);
            let telling = analysis_step(saving, ReportView::Done);
            let failing = analysis_step(telling, told);
            &&& tells_windows(telling)
            &&& analysis_action(failing) matches ActionView::AppendEvent { event } && {
                &&& event.event_type == "task.failed"@
                &&& event.summary == "Initial analysis failed: "@ + ("codex error: "@ + (
                "codex exited with "@ + settlement.wait->status@))
                &&& event.payload.len() == 1
                &&& event.payload[0].name == "runId"@
                &&& event.payload[0].value == Some(a.run.id)
            }
            &&& analysis_action(analysis_step(failing, announced)) is Stop
        }),
{
}

/// Whether `event` announces that the run failed with this message.
pub open spec fn announces_failure(event: EventView, run_id: Seq<char>, message: Seq<char>) -> bool {
    &&& event.event_type == "task.failed"@
    &&& event.summary == "Initial analysis failed: "@ + message
    &&& event.payload.len() == 1
    &&& event.payload[0].name == "runId"@
    &&& event.payload[0].value == Some(run_id)
}

/// Whether an analysis tells the windows of the application next, then announces that the run
/// failed with this message, and then is over, whether the windows and the events were reached or
/// not.
pub open spec fn fails_with(a: AnalysisView, message: Seq<char>) -> bool {
    &&& tells_windows(a)
    &&& forall|told: ReportView|
        told is Done || told is Failed ==> {
            let failing = #[trigger] analysis_step(a, told);
            &&& analysis_action(failing) matches ActionView::AppendEvent { event }
                && announces_failure(event, a.run.id, message)
            &&& forall|announced: ReportView|
                announced is Done || announced is Failed ==> analysis_action(
                    #[trigger] analysis_step(failing, announced),
                ) is Stop
        }
}

/// What goes wrong while the agent runs is the failure of the analysis, in its own words. Of several
/// things the first in this order counts: the wait, the standard output, the error output, the
/// thread.
pub proof fn law_first_trouble_is_the_failure(a: AnalysisView, settlement: Settlement)
    requires
        a.stage is Relaying,
    ensures
        ({
            let next = analysis_step(a, Report::Relayed(settlement)@);
            match settlement.wait {
                WaitEnd::Io(detail) => fails_with(next, "filesystem error: "@ + detail@),
                WaitEnd::Exited { .. } => if !(settlement.stdout is Finished) {
                    fails_with(next, trouble(settlement.stdout))
                } else if !(settlement.stderr is Finished) {
                    fails_with(next, trouble(settlement.stderr))
                } else if settlement.thread_id is Err {
                    fails_with(next, "codex error: "@ + "thread id lock poisoned"@)
                } else {
                    analysis_action(next) is SaveRun
                },
            }
        }),
{
}

/// The message for what went wrong while a stream was relayed.
pub open spec fn trouble(end: ReaderEnd) -> Seq<char> {
    match end {
        ReaderEnd::Finished => Seq::empty(),
        ReaderEnd::Io(detail) => "filesystem error: "@ + detail@,
        ReaderEnd::ThreadLockPoisoned => "codex error: "@ + "thread id lock poisoned"@,
        ReaderEnd::LogLockPoisoned => "codex error: "@ + "log lock poisoned"@,
        ReaderEnd::Panicked => "codex error: "@ + "codex output reader panicked"@,
    }
}

/// An agent that was found is launched after the log was opened: the program at the path that was
/// found, sent to the project and asked by the prompt for its website. One that was not found is
/// the failure of the analysis.
pub proof fn law_found_agent_is_launched(a: AnalysisView, detection: DetectionView)
    requires
        a.stage is Detecting,
    ensures
        ({
            let opening = analysis_step(a, ReportView::Detected(detection));
            let launching = analysis_step(opening, ReportView::Done);
            match detection.path {
                Some(path) => {
                    &&& analysis_action(opening) == (ActionView::OpenLog { path: a.run.log_path })
                    &&& analysis_action(launching) matches ActionView::Launch { command } && {
                        &&& command.program == path
                        &&& command.args.len() == 7
                        &&& command.args[0] == "-C"@
                        &&& command.args[1] == a.project.text
                        &&& command.args[2] == "exec"@
                        &&& command.args[3] == "--json"@
                        &&& command.args[4] == "--skip-git-repo-check"@
                        &&& command.args[5] == "--ignore-user-config"@
                        &&& command.args[6] == prompt_text(a.config.website_url)
                    }
                    &&& analysis_action(analysis_step(launching, ReportView::Done)) is Relay
                },
                None => fails_with(
                    opening,
                    "codex error: "@ + match detection.error {
                        Some(words) => words,
                        None => "codex binary not found"@,
                    },
                ),
            }
        }),
{
}

/// An agent that cannot be launched, or lacks one of its streams, is the failure of the analysis.
pub proof fn law_failed_launch_is_the_failure(
    a: AnalysisView,
    command: CommandView,
    reason: Seq<char>,
)
    requires
        a.stage == (StageView::Launching { command }),
    ensures
        analysis_action(a) == (ActionView::Launch { command }),
        fails_with(
            analysis_step(a, ReportView::NotLaunched(reason)),
            "codex error: "@ + ("failed to launch codex: "@ + reason),
        ),
        fails_with(
            analysis_step(a, ReportView::NoStdout),
            "codex error: "@ + "missing codex stdout"@,
        ),
        fails_with(
            analysis_step(a, ReportView::NoStderr),
            "codex error: "@ + "missing codex stderr"@,
        ),
{
}

/// A log that cannot be opened, a final state that cannot be saved and a completion that cannot be
/// announced are the failure of the analysis, with the message of the error.
pub proof fn law_failed_writing_is_the_failure(a: AnalysisView, error: ErrorView)
    requires
        a.stage is OpeningLog || a.stage is SavingEnd || a.stage is AnnouncingEnd,
    ensures
        fails_with(
            analysis_step(a, ReportView::Failed(error)),
            match error.0 {
                ErrorKind::Io => "filesystem error: "@,
                ErrorKind::Json => "json error: "@,
                ErrorKind::Invalid => "invalid input: "@,
                ErrorKind::Codex => "codex error: "@,
                ErrorKind::Open => "open error: "@,
            } + error.1,
        ),
{
}

/// An analysis first saves the run as it began, then announces its start, and then hands the run
/// over. Where one of the first two fails, the caller gets just that error and nothing more is done.
pub proof fn law_start_is_saved_and_announced(a: AnalysisView, error: ErrorView, later: ReportView)
    requires
        a.stage is SavingStart,
    ensures
        ({
            let announcing = analysis_step(a, ReportView::Done);
            let handing = analysis_step(announcing, ReportView::Done);
            let refused = analysis_step(a, ReportView::Failed(error));
            let dropped = analysis_step(announcing, ReportView::Failed(error));
            &&& analysis_action(a) == (ActionView::SaveRun {
                path: run_manifest_text(a.project, a.run.id),
                run: a.run,
            })
            &&& analysis_action(announcing) matches ActionView::AppendEvent { event } && {
                &&& event.event_type == "task.started"@
                &&& event.summary == "Initial analysis started"@
                &&& event.payload.len() == 1
                &&& event.payload[0].name == "runId"@
                &&& event.payload[0].value == Some(a.run.id)
            }
            &&& analysis_action(handing) == (ActionView::HandOver { run: a.run })
            &&& analysis_action(analysis_step(handing, ReportView::Done)) is Detect
            &&& analysis_action(refused) == (ActionView::Refuse { error })
            &&& analysis_action(dropped) == (ActionView::Refuse { error })
            &&& analysis_step(refused, later) == refused
            &&& analysis_step(dropped, later) == dropped
        }),
{
}

/// An analysis, what it asks for and what it is told are seen by all that they hold.
pub proof fn law_analyses_are_seen_whole(
    a: Analysis,
    detection: CodexDetection,
    error: AppError,
    reason: String,
    path: String,
    event: Event,
)
    ensures
        a@.project == a.project@,
        a@.config == a.config@,
        a@.run == a.run@,
        Report::Done@ is Done,
        Report::Failed(error)@ == ReportView::Failed(error@),
        Report::Detected(detection)@ == ReportView::Detected(detection@),
        Report::NotLaunched(reason)@ == ReportView::NotLaunched(reason@),
        Report::NoStdout@ is NoStdout,
        Report::NoStderr@ is NoStderr,
        (Action::SaveRun { path, run: &a.run })@ == (ActionView::SaveRun {
            path: path@,
            run: a.run@,
        }),
        (Action::AppendEvent { event })@ == (ActionView::AppendEvent { event: event@ }),
        (Action::OpenLog { path })@ == (ActionView::OpenLog { path: path@ }),
        (Action::Refuse { error: &error })@ == (ActionView::Refuse { error: error@ }),
{
}

/// A report on something else than what was asked for changes nothing, at any stage.
pub proof fn law_unasked_reports_change_nothing(a: AnalysisView, report: ReportView)
    requires
        match a.stage {
            StageView::HandingOver => !(report is Done),
            StageView::Detecting => !(report is Detected),
            StageView::Launching { .. } => report is Failed || report is Detected || report is Relayed,
            StageView::Relaying => !(report is Relayed),
            StageView::Refused { .. } => true,
            StageView::Ended => true,
            _ => !(report is Done) && !(report is Failed),
        },
    ensures
        analysis_step(a, report) == a,
{
}

} // verus!
