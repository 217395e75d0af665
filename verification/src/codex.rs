//! The agent's program: how it is found, how it is called, and what its output says.

use vstd::prelude::*;
use vstd::string::*;

use crate::error::{text_result, AppError, ErrorKind, ErrorView};
use crate::outside::{from_utf8_lossy, lossy_text};
use crate::text::{
    bare, blank, law_only_padding_is_trimmed, opt_text, texts, trim, trimmed,
};

verus! {

/// What is known of the agent's program on this machine.
#[derive(Debug)]
pub struct CodexDetection {
    pub available: bool,
    pub path: Option<String>,
    pub version: Option<String>,
    pub error: Option<String>,
}

/// A detection as its characters.
pub struct DetectionView {
    pub available: bool,
    pub path: Option<Seq<char>>,
    pub version: Option<Seq<char>>,
    pub error: Option<Seq<char>>,
}

impl View for CodexDetection {
    type V = DetectionView;

    open spec fn view(&self) -> DetectionView {
        DetectionView {
            available: self.available,
            path: opt_text(self.path),
            version: opt_text(self.version),
            error: opt_text(self.error),
        }
    }
}

impl DetectionView {
    /// An available program has a path and a version and no error; any other has an error and no
    /// version.
    pub open spec fn consistent(self) -> bool {
        &&& self.available <==> self.version is Some
        &&& self.available <==> self.error is None
        &&& self.available ==> self.path is Some
    }
}

/// A program with its arguments.
#[derive(Debug)]
pub struct CommandLine {
    pub program: String,
    pub args: Vec<String>,
}

/// A command line as its characters.
pub struct CommandView {
    pub program: Seq<char>,
    pub args: Seq<Seq<char>>,
}

impl View for CommandLine {
    type V = CommandView;

    open spec fn view(&self) -> CommandView {
        CommandView { program: self.program@, args: texts(self.args@) }
    }
}

/// What a program that ran left behind.
#[derive(Debug)]
pub struct ProgramOutput {
    pub success: bool,
    pub stdout: Vec<u8>,
    pub stderr: Vec<u8>,
}

/// The output of a program as its bytes.
pub struct OutputView {
    pub success: bool,
    pub stdout: Seq<u8>,
    pub stderr: Seq<u8>,
}

impl View for ProgramOutput {
    type V = OutputView;

    open spec fn view(&self) -> OutputView {
        OutputView { success: self.success, stdout: self.stdout@, stderr: self.stderr@ }
    }
}

/// What came of an attempt to run a program: its output, or why it could not be run.
pub open spec fn run_view(run: Result<ProgramOutput, String>) -> Result<OutputView, Seq<char>> {
    match run {
        Ok(output) => Ok(output@),
        Err(reason) => Err(reason@),
    }
}

/// The places where the program may lie, in the order in which they are tried: what `CODEX_BIN`
/// says, if it is set, and then the usual ones.
pub open spec fn candidate_list(codex_bin: Option<Seq<char>>) -> Seq<Seq<char>> {
    let usual = seq![
        "/Users/maxi.lvn/.local/bin/codex"@,
        "/opt/homebrew/bin/codex"@,
        "/usr/local/bin/codex"@,
        "/usr/bin/codex"@,
    ];
    match codex_bin {
        Some(path) => seq![path] + usual,
        None => usual,
    }
}

/// The search for the program.
#[derive(Debug)]
pub enum CodexSearch {
    /// The candidate may exist; if not, the others are checked, from the last to the first.
    Checking { candidate: String, others: Vec<String> },
    /// No candidate exists; the shell may know the program.
    AskingShell,
    /// The program is at this path; its version is not known yet.
    Probing { path: String },
    /// The search is over.
    Settled { detection: CodexDetection },
}

/// The search as the candidates that are left, with the one to check in front.
pub enum SearchView {
    Checking { candidates: Seq<Seq<char>> },
    AskingShell,
    Probing { path: Seq<char> },
    Settled { detection: DetectionView },
}

impl View for CodexSearch {
    type V = SearchView;

    open spec fn view(&self) -> SearchView {
        match self {
            CodexSearch::Checking { candidate, others } => SearchView::Checking {
                candidates: seq![candidate@] + texts(others@).reverse(),
            },
            CodexSearch::AskingShell => SearchView::AskingShell,
            CodexSearch::Probing { path } => SearchView::Probing { path: path@ },
            CodexSearch::Settled { detection } => SearchView::Settled { detection: detection@ },
        }
    }
}

/// What is to be done next for the search.
#[derive(Debug)]
pub enum SearchAction {
    /// See whether there is a file at this path.
    CheckExists { path: String },
    /// Run this and collect its output.
    Run { command: CommandLine },
    /// Nothing more.
    Stop,
}

/// An action as its characters.
pub enum SearchActionView {
    CheckExists { path: Seq<char> },
    Run { command: CommandView },
    Stop,
}

impl View for SearchAction {
    type V = SearchActionView;

    open spec fn view(&self) -> SearchActionView {
        match self {
            SearchAction::CheckExists { path } => SearchActionView::CheckExists { path: path@ },
            SearchAction::Run { command } => SearchActionView::Run { command: command@ },
            SearchAction::Stop => SearchActionView::Stop,
        }
    }
}

/// What came of an action of the search.
#[derive(Debug)]
pub enum SearchReport {
    /// Whether there is a file at the path.
    Exists(bool),
    /// What the program left behind, or why it could not be run.
    Ran(Result<ProgramOutput, String>),
}

/// A report as its characters and bytes.
pub enum SearchReportView {
    Exists(bool),
    Ran(Result<OutputView, Seq<char>>),
}

impl View for SearchReport {
    type V = SearchReportView;

    open spec fn view(&self) -> SearchReportView {
        match self {
            SearchReport::Exists(found) => SearchReportView::Exists(*found),
            SearchReport::Ran(run) => SearchReportView::Ran(run_view(*run)),
        }
    }
}

/// The path that the shell printed, where it succeeded and printed more than white space.
pub open spec fn printed_path(success: bool, output: Seq<char>) -> Option<Seq<char>> {
    if success && trimmed(output).len() > 0 {
        Some(trimmed(output))
    } else {
        None
    }
}

/// The path in what the shell left behind.
pub open spec fn shell_path(run: Result<OutputView, Seq<char>>) -> Option<Seq<char>> {
    match run {
        Ok(output) => printed_path(output.success, lossy_text(output.stdout)),
        Err(_) => None,
    }
}

/// What the outcome of asking a program for its version says.
pub enum ProbeView {
    /// It printed this.
    Version(Seq<char>),
    /// It failed and complained with this.
    Complaint(Seq<char>),
    /// It could not be run for this reason.
    NotRun(Seq<char>),
}

/// The outcome of asking a program for its version, as text.
pub open spec fn probe_view(run: Result<OutputView, Seq<char>>) -> ProbeView {
    match run {
        Ok(output) => if output.success {
            ProbeView::Version(lossy_text(output.stdout))
        } else {
            ProbeView::Complaint(lossy_text(output.stderr))
        },
        Err(reason) => ProbeView::NotRun(reason),
    }
}

/// What is known of a program after it was asked for its version.
pub open spec fn probed(path: Seq<char>, probe: ProbeView) -> DetectionView {
    match probe {
        ProbeView::Version(output) => DetectionView {
            available: true,
            path: Some(path),
            version: Some(trimmed(output)),
            error: None,
        },
        ProbeView::Complaint(output) => DetectionView {
            available: false,
            path: Some(path),
            version: None,
            error: Some(trimmed(output)),
        },
        ProbeView::NotRun(reason) => DetectionView {
            available: false,
            path: Some(path),
            version: None,
            error: Some(reason),
        },
    }
}

/// What is known where no program was found.
pub open spec fn not_found() -> DetectionView {
    DetectionView {
        available: false,
        path: None,
        version: None,
        error: Some("codex binary not found"@),
    }
}

/// What a search does next.
pub open spec fn search_action(search: SearchView) -> SearchActionView {
    match search {
        SearchView::Checking { candidates } => SearchActionView::CheckExists {
            path: candidates[0],
        },
        SearchView::AskingShell => SearchActionView::Run {
            command: CommandView { program: "sh"@, args: seq!["-lc"@, "command -v codex"@] },
        },
        SearchView::Probing { path } => SearchActionView::Run {
            command: CommandView { program: path, args: seq!["--version"@] },
        },
        SearchView::Settled { .. } => SearchActionView::Stop,
    }
}

/// The search after a report. A report that does not answer what was asked changes nothing.
pub open spec fn search_step(search: SearchView, report: SearchReportView) -> SearchView {
    match (search, report) {
        (
            SearchView::Checking { candidates },
            SearchReportView::Exists(found),
        ) => if found {
            SearchView::Probing { path: candidates[0] }
        } else if candidates.len() > 1 {
            SearchView::Checking { candidates: candidates.skip(1) }
        } else {
            SearchView::AskingShell
        },
        (SearchView::AskingShell, SearchReportView::Ran(run)) => match shell_path(run) {
            Some(path) => SearchView::Probing { path },
            None => SearchView::Settled { detection: not_found() },
        },
        (SearchView::Probing { path }, SearchReportView::Ran(run)) => SearchView::Settled {
            detection: probed(path, probe_view(run)),
        },
        _ => search,
    }
}

/// The path that the shell printed, where it succeeded and printed more than white space.
pub fn path_from_shell(success: bool, output: &str) -> (r: Option<String>)
    ensures
        opt_text(r) == printed_path(success, output@),
        r is Some == (success && trimmed(output@).len() > 0),
        r matches Some(path) ==> path@ == trimmed(output@),
{
    let path = trim(output);
    if success && !path.is_empty() {
        Some(path.to_string())
    } else {
        None
    }
}

/// The outcome of asking a program for its version, as text.
#[derive(Debug)]
pub enum Probe {
    Version(String),
    Complaint(String),
    NotRun(String),
}

impl View for Probe {
    type V = ProbeView;

    open spec fn view(&self) -> ProbeView {
        match self {
            Probe::Version(output) => ProbeView::Version(output@),
            Probe::Complaint(output) => ProbeView::Complaint(output@),
            Probe::NotRun(reason) => ProbeView::NotRun(reason@),
        }
    }
}

/// What is known of the program at `path` after it was asked for its version.
pub fn probed_codex(path: String, probe: Probe) -> (r: CodexDetection)
    ensures
        r@ == probed(path@, probe@),
        r@.consistent(),
        r.available == (probe is Version),
        opt_text(r.path) == Some(path@),
        opt_text(r.version) == match probe {
            Probe::Version(output) => Some(trimmed(output@)),
            _ => None,
        },
        opt_text(r.error) == match probe {
            Probe::Version(_) => None,
            Probe::Complaint(output) => Some(trimmed(output@)),
            Probe::NotRun(reason) => Some(reason@),
        },
{
    match probe {
        Probe::Version(output) => CodexDetection {
            available: true,
            path: Some(path),
            version: Some(trim(output.as_str()).to_string()),
            error: None,
        },
        Probe::Complaint(output) => CodexDetection {
            available: false,
            path: Some(path),
            version: None,
            error: Some(trim(output.as_str()).to_string()),
        },
        Probe::NotRun(reason) => CodexDetection {
            available: false,
            path: Some(path),
            version: None,
            error: Some(reason),
        },
    }
}

/// What is known where no program was found.
pub fn missing_codex() -> (r: CodexDetection)
    ensures
        r@ == not_found(),
        r@.consistent(),
        !r.available,
        r.path is None,
        r.version is None,
        opt_text(r.error) == Some("codex binary not found"@),
{
    CodexDetection {
        available: false,
        path: None,
        version: None,
        error: Some("codex binary not found".to_string()),
    }
}

impl CodexSearch {
    /// A search that begins, given what `CODEX_BIN` says.
    pub fn start(codex_bin: Option<String>) -> (r: CodexSearch)
        ensures
            r@ == (SearchView::Checking { candidates: candidate_list(opt_text(codex_bin)) }),
            codex_bin matches Some(path) ==> r is Checking && r->candidate@ == path@,
    {
        let ghost named: Option<Seq<char>> = opt_text(codex_bin);
        let first = "/Users/maxi.lvn/.local/bin/codex".to_string();
        let mut others: Vec<String> = vec![
            "/usr/bin/codex".to_string(),
            "/usr/local/bin/codex".to_string(),
            "/opt/homebrew/bin/codex".to_string(),
        ];
        let candidate = match codex_bin {
            Some(path) => {
                others.push(first);
                path
            },
            None => first,
        };
        assert(seq![candidate@] + texts(others@).reverse() == candidate_list(named));
        CodexSearch::Checking { candidate, others }
    }

    /// What is to be done next.
    pub fn action(&self) -> (r: SearchAction)
        ensures
            r@ == search_action(self@),
            self is Checking ==> r is CheckExists && r->path@ == self->candidate@,
            self is Probing ==> r is Run && r->command.program@ == self->path@,
    {
        match self {
            CodexSearch::Checking { candidate, .. } => SearchAction::CheckExists {
                path: candidate.clone(),
            },
            CodexSearch::AskingShell => {
                let command = CommandLine {
                    program: "sh".to_string(),
                    args: vec!["-lc".to_string(), "command -v codex".to_string()],
                };
                assert(command@.args == seq!["-lc"@, "command -v codex"@]);
                SearchAction::Run { command }
            },
            CodexSearch::Probing { path } => {
                let command = CommandLine {
                    program: path.clone(),
                    args: vec!["--version".to_string()],
                };
                assert(command@.args == seq!["--version"@]);
                SearchAction::Run { command }
            },
            CodexSearch::Settled { .. } => SearchAction::Stop,
        }
    }

    /// The search after a report. A report that does not answer what was asked changes nothing.
    pub fn step(self, report: SearchReport) -> (r: CodexSearch)
        ensures
            r@ == search_step(self@, report@),
            self is Checking && report == SearchReport::Exists(true) ==> r is Probing && r->path@
                == self->candidate@,
            self is Probing && report is Ran ==> r is Settled && opt_text(r->detection.path)
                == Some(self->path@),
    {
        match self {
            CodexSearch::Checking { candidate, others } => match report {
                SearchReport::Exists(true) => CodexSearch::Probing { path: candidate },
                SearchReport::Exists(false) => {
                    let ghost left: Seq<Seq<char>> = seq![candidate@] + texts(others@).reverse();
                    let mut others = others;
                    match others.pop() {
                        Some(next) => {
                            assert(left.skip(1) == seq![next@] + texts(others@).reverse());
                            CodexSearch::Checking { candidate: next, others }
                        },
                        None => CodexSearch::AskingShell,
                    }
                },
                SearchReport::Ran(_) => CodexSearch::Checking { candidate, others },
            },
            CodexSearch::AskingShell => match report {
                SearchReport::Ran(Ok(output)) => {
                    let text = from_utf8_lossy(&output.stdout);
                    match path_from_shell(output.success, text.as_str()) {
                        Some(path) => CodexSearch::Probing { path },
                        None => CodexSearch::Settled { detection: missing_codex() },
                    }
                },
                SearchReport::Ran(Err(_)) => CodexSearch::Settled { detection: missing_codex() },
                SearchReport::Exists(_) => CodexSearch::AskingShell,
            },
            CodexSearch::Probing { path } => match report {
                SearchReport::Ran(Ok(output)) => {
                    let probe = if output.success {
                        Probe::Version(from_utf8_lossy(&output.stdout))
                    } else {
                        Probe::Complaint(from_utf8_lossy(&output.stderr))
                    };
                    CodexSearch::Settled { detection: probed_codex(path, probe) }
                },
                SearchReport::Ran(Err(reason)) => CodexSearch::Settled {
                    detection: probed_codex(path, Probe::NotRun(reason)),
                },
                SearchReport::Exists(_) => CodexSearch::Probing { path },
            },
            CodexSearch::Settled { detection } => CodexSearch::Settled { detection },
        }
    }
}

/// A search carried to its end on a machine where `present` says which files there are, `shell` is
/// what the shell answers and `version` is what the program at a path answers.
pub open spec fn search_end(
    search: SearchView,
    present: spec_fn(Seq<char>) -> bool,
    shell: Result<OutputView, Seq<char>>,
    version: spec_fn(Seq<char>) -> Result<OutputView, Seq<char>>,
) -> SearchView
    decreases
            match search {
                SearchView::Checking { candidates } => candidates.len() + 3,
                SearchView::AskingShell => 2nat,
                SearchView::Probing { .. } => 1nat,
                SearchView::Settled { .. } => 0nat,
            },
{
    match search {
        SearchView::Checking { candidates } => search_end(
            search_step(search, SearchReportView::Exists(present(candidates[0]))),
            present,
            shell,
            version,
        ),
        SearchView::AskingShell => search_end(
            search_step(search, SearchReportView::Ran(shell)),
            present,
            shell,
            version,
        ),
        SearchView::Probing { path } => search_end(
            search_step(search, SearchReportView::Ran(version(path))),
            present,
            shell,
            version,
        ),
        SearchView::Settled { .. } => search,
    }
}

/// The first candidate that exists is the program that is taken, whatever else there is.
pub proof fn law_first_existing_candidate_is_taken(
    candidates: Seq<Seq<char>>,
    present: spec_fn(Seq<char>) -> bool,
    shell: Result<OutputView, Seq<char>>,
    version: spec_fn(Seq<char>) -> Result<OutputView, Seq<char>>,
    k: int,
)
    requires
        0 <= k < candidates.len(),
        present(candidates[k]),
        forall|j: int| 0 <= j < k ==> !present(#[trigger] candidates[j]),
    ensures
        search_end(SearchView::Checking { candidates }, present, shell, version)
            == (SearchView::Settled {
            detection: probed(candidates[k], probe_view(version(candidates[k]))),
        }),
    decreases candidates.len(),
{
    reveal_with_fuel(search_end, 3);
    if k > 0 {
        assert(!present(candidates[0]));
        let rest = candidates.skip(1);
        assert(rest[k - 1] == candidates[k]);
        assert forall|j: int| 0 <= j < k - 1 implies !present(#[trigger] rest[j]) by {
            assert(rest[j] == candidates[j + 1]);
        }
        law_first_existing_candidate_is_taken(rest, present, shell, version, k - 1);
    }
}

/// Where no candidate exists, the shell's answer decides: its path is taken, or the program counts
/// as not found.
pub proof fn law_shell_decides_without_candidates(
    candidates: Seq<Seq<char>>,
    present: spec_fn(Seq<char>) -> bool,
    shell: Result<OutputView, Seq<char>>,
    version: spec_fn(Seq<char>) -> Result<OutputView, Seq<char>>,
)
    requires
        candidates.len() > 0,
        forall|j: int| 0 <= j < candidates.len() ==> !present(#[trigger] candidates[j]),
    ensures
        search_end(SearchView::Checking { candidates }, present, shell, version) == match shell_path(
            shell,
        ) {
            Some(path) => SearchView::Settled {
                detection: probed(path, probe_view(version(path))),
            },
            None => SearchView::Settled { detection: not_found() },
        },
    decreases candidates.len(),
{
    reveal_with_fuel(search_end, 4);
    assert(!present(candidates[0]));
    if candidates.len() > 1 {
        let rest = candidates.skip(1);
        assert forall|j: int| 0 <= j < rest.len() implies !present(#[trigger] rest[j]) by {
            assert(rest[j] == candidates[j + 1]);
        }
        law_shell_decides_without_candidates(rest, present, shell, version);
    }
}

/// What a search settles on is consistent, whatever is reported.
pub proof fn law_detections_are_consistent(search: SearchView, report: SearchReportView)
    requires
        search matches SearchView::Settled { detection } ==> detection.consistent(),
    ensures
        search_step(search, report) matches SearchView::Settled { detection }
            ==> detection.consistent(),
{
}

/// The arguments for an analysis of a project: the directory of the project stands before the
/// subcommand, and the prompt comes last.
pub open spec fn exec_args(project: Seq<char>, prompt: Seq<char>) -> Seq<Seq<char>> {
    seq![
        "-C"@,
        project,
        "exec"@,
        "--json"@,
        "--skip-git-repo-check"@,
        "--ignore-user-config"@,
        prompt,
    ]
}

/// The arguments for an analysis of a project: the directory of the project stands before the
/// subcommand, and the prompt comes last.
pub fn codex_exec_args(project: &str, prompt: &str) -> (r: Vec<String>)
    ensures
        texts(r@) == exec_args(project@, prompt@),
        r.len() == 7,
        r[0]@ == "-C"@,
        r[1]@ == project@,
        r[2]@ == "exec"@,
        r[3]@ == "--json"@,
        r[4]@ == "--skip-git-repo-check"@,
        r[5]@ == "--ignore-user-config"@,
        r[6]@ == prompt@,
{
    let args = vec![
        "-C".to_string(),
        project.to_string(),
        "exec".to_string(),
        "--json".to_string(),
        "--skip-git-repo-check".to_string(),
        "--ignore-user-config".to_string(),
        prompt.to_string(),
    ];
    assert(texts(args@) == exec_args(project@, prompt@));
    args
}

/// The program to run an analysis with, or the error that there is none.
pub open spec fn analysis_program(detection: DetectionView) -> Result<Seq<char>, ErrorView> {
    match detection.path {
        Some(path) => Ok(path),
        None => Err(
            (
                ErrorKind::Codex,
                match detection.error {
                    Some(error) => error,
                    None => "codex binary not found"@,
                },
            ),
        ),
    }
}

/// The program to run an analysis with. A program that was found is tried even where it did not
/// tell its version.
pub fn launch_binary(detection: CodexDetection) -> (r: Result<String, AppError>)
    ensures
        text_result(r) == analysis_program(detection@),
        r is Ok == detection.path is Some,
        r matches Ok(path) ==> Some(path) == detection.path,
        r matches Err(error) ==> error is Codex,
{
    match detection.path {
        Some(path) => Ok(path),
        None => Err(
            AppError::Codex(
                match detection.error {
                    Some(error) => error,
                    None => "codex binary not found".to_string(),
                },
            ),
        ),
    }
}

/// The command that opens a project in the agent's own window, or the error that there is no
/// program.
pub open spec fn opening_command(detection: DetectionView, project: Seq<char>) -> Result<
    CommandView,
    ErrorView,
> {
    match detection.path {
        Some(path) => Ok(CommandView { program: path, args: seq!["app"@, project] }),
        None => Err((ErrorKind::Open, "codex binary not found"@)),
    }
}

/// A result with a command line, as the views of what it holds.
pub open spec fn command_result(r: Result<CommandLine, AppError>) -> Result<
    CommandView,
    ErrorView,
> {
    match r {
        Ok(command) => Ok(command@),
        Err(error) => Err(error@),
    }
}

/// The command that opens a project in the agent's own window.
pub fn open_command(detection: CodexDetection, project_path: &str) -> (r: Result<
    CommandLine,
    AppError,
>)
    ensures
        command_result(r) == opening_command(detection@, project_path@),
        r is Ok == detection.path is Some,
        r matches Ok(command) ==> Some(command.program) == detection.path && command.args.len() == 2
            && command.args[0]@ == "app"@ && command.args[1]@ == project_path@,
        r matches Err(error) ==> error is Open,
{
    match detection.path {
        Some(path) => {
            let command = CommandLine {
                program: path,
                args: vec!["app".to_string(), project_path.to_string()],
            };
            assert(command@.args == seq!["app"@, project_path@]);
            Ok(command)
        },
        None => Err(AppError::Open("codex binary not found".to_string())),
    }
}

/// An analysis and the agent's own window find the same program, or neither finds one.
pub proof fn law_one_program_for_all_uses(detection: DetectionView, project: Seq<char>)
    ensures
        match analysis_program(detection) {
            Ok(path) => opening_command(detection, project) matches Ok(command) && command.program
                == path,
            Err(_) => opening_command(detection, project) is Err,
        },
{
}

/// The agent is sent to the project by its whole path, which follows `-C`, and is asked by its
/// whole prompt, which comes last; the switches between them are the same for every project.
pub proof fn law_agent_is_sent_to_the_project(project: Seq<char>, prompt: Seq<char>)
    ensures
        exec_args(project, prompt).len() == 7,
        exec_args(project, prompt)[0] == "-C"@,
        exec_args(project, prompt)[1] == project,
        exec_args(project, prompt)[2] == "exec"@,
        exec_args(project, prompt)[3] == "--json"@,
        exec_args(project, prompt)[4] == "--skip-git-repo-check"@,
        exec_args(project, prompt)[5] == "--ignore-user-config"@,
        exec_args(project, prompt)[6] == prompt,
{
}

/// A program that answers is available, and its version is the whole of what it printed but for the
/// white space at both ends.
pub proof fn law_version_is_what_was_printed(
    path: Seq<char>,
    front: Seq<char>,
    printed: Seq<char>,
    back: Seq<char>,
)
    requires
        blank(front),
        blank(back),
        bare(printed),
    ensures
        ({
            let found = probed(path, ProbeView::Version(front + printed + back));
            &&& found.available
            &&& found.path == Some(path)
            &&& found.version == Some(printed)
            &&& found.error is None
        }),
{
    law_only_padding_is_trimmed(front, printed, back);
}

/// A program that fails is known by its path but not available, and the error is the whole of its
/// complaint but for the white space at both ends. Of one that could not be run, the error is the
/// reason as it stands.
pub proof fn law_complaint_is_what_was_printed(
    path: Seq<char>,
    front: Seq<char>,
    printed: Seq<char>,
    back: Seq<char>,
    reason: Seq<char>,
)
    requires
        blank(front),
        blank(back),
        bare(printed),
    ensures
        ({
            let failed = probed(path, ProbeView::Complaint(front + printed + back));
            &&& !failed.available
            &&& failed.path == Some(path)
            &&& failed.version is None
            &&& failed.error == Some(printed)
        }),
        ({
            let not_run = probed(path, ProbeView::NotRun(reason));
            &&& !not_run.available
            &&& not_run.path == Some(path)
            &&& not_run.version is None
            &&& not_run.error == Some(reason)
        }),
{
    law_only_padding_is_trimmed(front, printed, back);
}

/// The candidate that is asked for is the one in front. Where it exists it is taken, else the next
/// one is asked for, and after the last one the shell.
pub proof fn law_candidates_are_taken_in_turn(candidates: Seq<Seq<char>>)
    requires
        candidates.len() > 0,
    ensures
        ({
            let search = SearchView::Checking { candidates };
            &&& search_action(search) == (SearchActionView::CheckExists { path: candidates[0] })
            &&& search_step(search, SearchReportView::Exists(true)) == (SearchView::Probing {
                path: candidates[0],
            })
            &&& search_step(search, SearchReportView::Exists(false)) == if candidates.len() == 1 {
                SearchView::AskingShell
            } else {
                SearchView::Checking { candidates: candidates.skip(1) }
            }
        }),
{
}

/// What the environment names is the first candidate, as it stands, and the usual places follow in
/// the same order whether it names one or not.
pub proof fn law_environment_comes_first(named: Seq<char>)
    ensures
        candidate_list(None) == seq![
            "/Users/maxi.lvn/.local/bin/codex"@,
            "/opt/homebrew/bin/codex"@,
            "/usr/local/bin/codex"@,
            "/usr/bin/codex"@,
        ],
        candidate_list(Some(named)).len() == candidate_list(None).len() + 1,
        candidate_list(Some(named))[0] == named,
        candidate_list(Some(named)).skip(1) == candidate_list(None),
{
    assert(candidate_list(Some(named)).skip(1) == candidate_list(None));
}

/// The shell's answer is the whole of what it printed on its standard output but for the white space
/// at both ends. It counts only where the shell succeeded and printed something; what it printed on
/// its error output does not.
pub proof fn law_shell_answer_is_what_was_printed(
    output: OutputView,
    front: Seq<char>,
    printed: Seq<char>,
    back: Seq<char>,
)
    requires
        blank(front),
        blank(back),
        bare(printed),
        lossy_text(output.stdout) == front + printed + back,
    ensures
        ({
            let next = search_step(SearchView::AskingShell, SearchReportView::Ran(Ok(output)));
            if output.success && printed.len() > 0 {
                next == (SearchView::Probing { path: printed })
            } else {
                next matches SearchView::Settled { detection } && !detection.available
                    && detection.path is None && detection.version is None && detection.error
                    == Some("codex binary not found"@)
            }
        }),
{
    law_only_padding_is_trimmed(front, printed, back);
}

/// A shell that cannot be run leaves the program not found, whatever the reason.
pub proof fn law_no_shell_no_program(reason: Seq<char>)
    ensures
        search_step(SearchView::AskingShell, SearchReportView::Ran(Err(reason))) matches SearchView::Settled {
            detection,
        } && !detection.available && detection.path is None && detection.version is None
            && detection.error == Some("codex binary not found"@),
{
}

/// The program that was found is itself asked for its version. What it answers on its standard
/// output is the version where it succeeds, and what it answers on its error output is the error
/// where it does not.
pub proof fn law_found_program_is_probed(
    path: Seq<char>,
    output: OutputView,
    front: Seq<char>,
    printed: Seq<char>,
    back: Seq<char>,
    reason: Seq<char>,
)
    requires
        blank(front),
        blank(back),
        bare(printed),
        lossy_text(
            if output.success {
                output.stdout
            } else {
                output.stderr
            },
        ) == front + printed + back,
    ensures
        search_action(SearchView::Probing { path }) matches SearchActionView::Run { command }
            && command.program == path && command.args.len() == 1 && command.args[0]
            == "--version"@,
        search_step(SearchView::Probing { path }, SearchReportView::Ran(Ok(output))) matches SearchView::Settled {
            detection,
        } && detection.available == output.success && detection.path == Some(path)
            && detection.version == (if output.success {
            Some(printed)
        } else {
            None
        }) && detection.error == (if output.success {
            None
        } else {
            Some(printed)
        }),
        search_step(SearchView::Probing { path }, SearchReportView::Ran(Err(reason))) matches SearchView::Settled {
            detection,
        } && !detection.available && detection.path == Some(path) && detection.version is None
            && detection.error == Some(reason),
{
    law_only_padding_is_trimmed(front, printed, back);
}

/// A search that is over stays as it is, and so does one that is told what it did not ask for.
pub proof fn law_unasked_reports_are_ignored(
    search: SearchView,
    found: bool,
    run: Result<OutputView, Seq<char>>,
)
    ensures
        search is Settled ==> search_action(search) is Stop,
        !(search is Checking) ==> search_step(search, SearchReportView::Exists(found)) == search,
        search is Checking || search is Settled ==> search_step(search, SearchReportView::Ran(run))
            == search,
{
}

/// The program for an analysis is the one at the path that was found, as it stands, whether it told
/// its version or not. Where none was found, what the search says is wrong is the error.
pub proof fn law_found_program_is_launched(detection: DetectionView)
    ensures
        match detection.path {
            Some(path) => analysis_program(detection) == Ok::<Seq<char>, ErrorView>(path),
            None => analysis_program(detection) matches Err(error) && error.0 == ErrorKind::Codex
                && match detection.error {
                Some(words) => error.1 == words,
                None => error.1 == "codex binary not found"@,
            },
        },
{
}

/// The agent's own window is opened by the program that was found, on the whole path of the
/// project.
pub proof fn law_window_opens_on_the_project(detection: DetectionView, project: Seq<char>)
    ensures
        match detection.path {
            Some(path) => opening_command(detection, project) matches Ok(command) && command.program
                == path && command.args.len() == 2 && command.args[0] == "app"@ && command.args[1]
                == project,
            None => opening_command(detection, project) == Err::<CommandView, ErrorView>(
                (ErrorKind::Open, "codex binary not found"@),
            ),
        },
{
}

/// What was found and what is to be run are seen by all that they hold.
pub proof fn law_findings_are_seen_whole(
    detection: CodexDetection,
    command: CommandLine,
    output: ProgramOutput,
    i: int,
)
    requires
        0 <= i < command.args@.len(),
    ensures
        detection@.available == detection.available,
        detection@.path == opt_text(detection.path),
        detection@.version == opt_text(detection.version),
        detection@.error == opt_text(detection.error),
        command@.program == command.program@,
        command@.args.len() == command.args@.len(),
        command@.args[i] == command.args@[i]@,
        output@.success == output.success,
        output@.stdout == output.stdout@,
        output@.stderr == output.stderr@,
{
}

} // verus!
