//! Projects: how one is set up for a website.

use vstd::prelude::*;
use vstd::string::*;

use crate::codex::CodexDetection;
use crate::documents::{
    agents_file, agents_text, context_doc_list, context_docs, doc_list, doc_path_list, doc_specs,
    pending_body, pending_doc, ContextDoc, DocSpec, DocView,
};
use crate::error::{AppError, ErrorKind, ErrorView};
use crate::event::{plain_payload, Detail, DetailView, Event, EventView};
use crate::outside::{date_time, new_uuid, now_rfc3339, uuid_v4};
use crate::paths::{
    config_file_text, config_path, home_path, joined_path, lemma_part_follows_stem, opt_path,
    runs_dir, runs_dir_path, stem, FilePath, PathView,
};
use crate::runs::RunState;
use crate::website::{
    law_normalizing_twice, normalize_url, normalized_url, project_name, project_name_from_url,
    project_path_in, project_path_text,
};
use crate::windows::lemma_single_is_neat;

verus! {

/// What a user hands in to set up a project.
#[derive(Debug)]
pub struct CreateProjectRequest {
    pub website_url: String,
}

/// What identifies a project.
#[derive(Debug)]
pub struct ProjectConfig {
    pub id: String,
    pub name: String,
    pub website_url: String,
    pub path: String,
    pub created_at: String,
    pub updated_at: String,
}

/// A configuration as its characters.
pub struct ConfigView {
    pub id: Seq<char>,
    pub name: Seq<char>,
    pub website_url: Seq<char>,
    pub path: Seq<char>,
    pub created_at: Seq<char>,
    pub updated_at: Seq<char>,
}

impl View for ProjectConfig {
    type V = ConfigView;

    open spec fn view(&self) -> ConfigView {
        ConfigView {
            id: self.id@,
            name: self.name@,
            website_url: self.website_url@,
            path: self.path@,
            created_at: self.created_at@,
            updated_at: self.updated_at@,
        }
    }
}

/// A result with a configuration, as the views of what it holds.
pub open spec fn config_result(r: Result<ProjectConfig, AppError>) -> Result<
    ConfigView,
    ErrorView,
> {
    match r {
        Ok(config) => Ok(config@),
        Err(error) => Err(error@),
    }
}

/// The configuration of a new project for the website that `input` names, or why there is none.
pub open spec fn new_config(
    home: Option<PathView>,
    input: Seq<char>,
    unique: Seq<char>,
    now: Seq<char>,
) -> Result<ConfigView, ErrorView> {
    match normalized_url(input) {
        Err(error) => Err(error),
        Ok(url) => match project_path_text(home, url) {
            Err(error) => Err(error),
            Ok(path) => Ok(
                ConfigView {
                    id: "project_"@ + unique,
                    name: project_name(url),
                    website_url: url,
                    path,
                    created_at: now,
                    updated_at: now,
                },
            ),
        },
    }
}

/// The configuration of a new project for the website that a request names, given the home
/// directory, an identifier that no other project has, and the time.
pub fn project_config(
    request: &CreateProjectRequest,
    home: Option<FilePath>,
    unique: &str,
    now: &str,
) -> (r: Result<ProjectConfig, AppError>)
    ensures
        config_result(r) == new_config(opt_path(home), request.website_url@, unique@, now@),
        r matches Ok(config) ==> {
            &&& config.id@ == "project_"@ + unique@
            &&& normalized_url(request.website_url@) == Ok::<Seq<char>, ErrorView>(
                config.website_url@,
            )
            &&& config.name@ == project_name(config.website_url@)
            &&& project_path_text(opt_path(home), config.website_url@) == Ok::<
                Seq<char>,
                ErrorView,
            >(config.path@)
            &&& config.created_at@ == now@
            &&& config.updated_at@ == now@
        },
{
    let website_url = match normalize_url(request.website_url.as_str()) {
        Ok(url) => url,
        Err(error) => return Err(error),
    };
    let name = project_name_from_url(website_url.as_str());
    match project_path_in(home, website_url.as_str()) {
        Ok(path) => Ok(
            ProjectConfig {
                id: "project_".to_string().concat(unique),
                name,
                website_url,
                path,
                created_at: now.to_string(),
                updated_at: now.to_string(),
            },
        ),
        Err(error) => Err(error),
    }
}

/// The configuration of a project that is set up now for the website that a request names. The
/// environment decides on the home directory, chance on the identifier and the clock on the
/// time; an unusable URL is refused in any case.
pub fn new_project_config(request: &CreateProjectRequest) -> (r: Result<ProjectConfig, AppError>)
    ensures
        normalized_url(request.website_url@) matches Err(error) ==> config_result(r) == Err::<
            ConfigView,
            ErrorView,
        >(error),
        exists|home: Option<PathView>, unique: Seq<char>, now: Seq<char>|
            {
                &&& r is Ok ==> uuid_v4(unique) && date_time(now)
                &&& config_result(r) == #[trigger] new_config(
                    home,
                    request.website_url@,
                    unique,
                    now,
                )
            },
{
    let ghost none = Seq::<char>::empty();
    match normalize_url(request.website_url.as_str()) {
        Ok(_) => {},
        Err(error) => {
            assert(new_config(None, request.website_url@, none, none) == Err::<
                ConfigView,
                ErrorView,
            >(error@));
            return Err(error);
        },
    }
    let home = home_path();
    if home.is_none() {
        let r = project_config(request, home, "", "");
        assert(config_result(r) == new_config(None, request.website_url@, ""@, ""@));
        return r;
    }
    let unique = new_uuid();
    let now = now_rfc3339();
    let r = project_config(request, home, unique.as_str(), now.as_str());
    assert(config_result(r) == new_config(opt_path(home), request.website_url@, unique@, now@));
    r
}

/// A new project lies in the folder that the same input stands for, and counts as updated when it
/// was created.
pub proof fn law_new_project_is_where_its_input_says(
    home: Option<PathView>,
    input: Seq<char>,
    unique: Seq<char>,
    now: Seq<char>,
)
    ensures
        match new_config(home, input, unique, now) {
            Ok(config) => {
                &&& project_path_text(home, input) == Ok::<Seq<char>, ErrorView>(config.path)
                &&& project_path_text(home, config.website_url) == Ok::<Seq<char>, ErrorView>(
                    config.path,
                )
                &&& normalized_url(config.website_url) == Ok::<Seq<char>, ErrorView>(
                    config.website_url,
                )
                &&& config.created_at == config.updated_at
            },
            Err(error) => project_path_text(home, input) == Err::<Seq<char>, ErrorView>(error),
        },
{
    if normalized_url(input) is Ok {
        law_normalizing_twice(input);
    }
}

/// A file with what is to stand in it.
#[derive(Debug)]
pub struct FileText {
    pub path: String,
    pub body: String,
}

/// A file as its path and its text.
pub struct FileView {
    pub path: Seq<char>,
    pub body: Seq<char>,
}

impl View for FileText {
    type V = FileView;

    open spec fn view(&self) -> FileView {
        FileView { path: self.path@, body: self.body@ }
    }
}

/// The files that a new project begins with.
pub open spec fn workspace_list(project: PathView, config: ConfigView) -> Seq<FileView> {
    seq![
        FileView {
            path: joined_path(project, "AGENTS.md"@).text,
            body: agents_text(config.name, config.website_url),
        },
    ] + doc_list().map_values(
        |doc: DocView|
            FileView {
                path: joined_path(project, doc.file_name).text,
                body: pending_body(doc.title, config.website_url),
            },
    )
}

/// The files that a new project begins with, in the order in which they are written.
pub fn workspace_files(project_path: &FilePath, config: &ProjectConfig) -> (r: Vec<FileText>)
    ensures
        r@.map_values(|f: FileText| f@) == workspace_list(project_path@, config@),
{
    let specs = doc_specs();
    let ghost wanted: Seq<FileView> = workspace_list(project_path@, config@);
    let mut out: Vec<FileText> = Vec::new();
    let agents = FileText {
        path: project_path.join("AGENTS.md").text,
        body: agents_file(config.name.as_str(), config.website_url.as_str()),
    };
    out.push(agents);
    assert(out@.map_values(|f: FileText| f@) == wanted.take(1));
    let mut i: usize = 0;
    while i < specs.len()
        invariant
            i <= specs.len(),
            specs@.map_values(|d: DocSpec| d@) == doc_list(),
            wanted == workspace_list(project_path@, config@),
            out@.map_values(|f: FileText| f@) == wanted.take(i + 1),
        decreases specs.len() - i,
    {
        let ghost held: Seq<FileText> = out@;
        assert(specs@.map_values(|d: DocSpec| d@)[i as int] == specs@[i as int]@);
        let file = FileText {
            path: project_path.join(specs[i].file_name).text,
            body: pending_doc(specs[i].title, config.website_url.as_str()),
        };
        assert(file@ == wanted[i + 1]);
        out.push(file);
        assert(out@.map_values(|f: FileText| f@) == held.map_values(|f: FileText| f@).push(file@));
        assert(wanted.take(i + 2) == wanted.take(i + 1).push(wanted[i + 1]));
        i = i + 1;
    }
    assert(wanted.take(i + 1) == wanted);
    out
}

/// The event of a new project.
pub open spec fn created_event_view(config: ConfigView) -> EventView {
    EventView {
        event_type: "project.created"@,
        summary: "Created GTM workspace for "@ + config.name,
        payload: seq![DetailView { name: "websiteUrl"@, value: Some(config.website_url) }],
    }
}

/// The event of a new project.
pub fn created_event(config: &ProjectConfig) -> (r: Event)
    ensures
        r@ == created_event_view(config@),
        plain_payload(r@.payload),
        r.event_type@ == "project.created"@,
        r.summary@ == "Created GTM workspace for "@ + config.name@,
        r.payload.len() == 1,
        r.payload[0].name@ == "websiteUrl"@,
        r.payload[0].value is Some && r.payload[0].value->0@ == config.website_url@,
{
    let detail = Detail {
        name: "websiteUrl".to_string(),
        value: Some(config.website_url.clone()),
    };
    let event = Event {
        event_type: "project.created".to_string(),
        summary: "Created GTM workspace for ".to_string().concat(config.name.as_str()),
        payload: vec![detail],
    };
    proof {
        reveal_strlit("websiteUrl");
        assert(event@.payload == created_event_view(config@).payload);
    }
    event
}

/// A step in setting up a project on disk.
#[derive(Debug)]
pub enum SetupStep {
    /// Make this directory and those above it.
    CreateDir { path: String },
    /// Write the configuration of the project to this file.
    SaveConfig { path: String },
    /// Write this file.
    WriteFile { file: FileText },
    /// Append this event to the events of the project.
    AppendEvent { event: Event },
}

/// A step as its characters.
pub enum SetupStepView {
    CreateDir { path: Seq<char> },
    SaveConfig { path: Seq<char> },
    WriteFile { file: FileView },
    AppendEvent { event: EventView },
}

impl View for SetupStep {
    type V = SetupStepView;

    open spec fn view(&self) -> SetupStepView {
        match self {
            SetupStep::CreateDir { path } => SetupStepView::CreateDir { path: path@ },
            SetupStep::SaveConfig { path } => SetupStepView::SaveConfig { path: path@ },
            SetupStep::WriteFile { file } => SetupStepView::WriteFile { file: file@ },
            SetupStep::AppendEvent { event } => SetupStepView::AppendEvent { event: event@ },
        }
    }
}

/// The steps that set up a project on disk: the directory of its runs, its configuration, its
/// files, and the event that it was created.
pub open spec fn setup_list(project: PathView, config: ConfigView) -> Seq<SetupStepView> {
    seq![
        SetupStepView::CreateDir { path: runs_dir_path(project).text },
        SetupStepView::SaveConfig { path: config_file_text(project) },
    ] + workspace_list(project, config).map_values(
        |file: FileView| SetupStepView::WriteFile { file },
    ) + seq![SetupStepView::AppendEvent { event: created_event_view(config) }]
}

/// The steps that set up a project on disk, in their order.
pub fn setup_steps(project_path: &FilePath, config: &ProjectConfig) -> (r: Vec<SetupStep>)
    ensures
        r@.map_values(|s: SetupStep| s@) == setup_list(project_path@, config@),
{
    let ghost wanted: Seq<SetupStepView> = setup_list(project_path@, config@);
    let ghost listed: Seq<FileView> = workspace_list(project_path@, config@);
    let files = workspace_files(project_path, config);
    let mut steps: Vec<SetupStep> = Vec::new();
    steps.push(SetupStep::CreateDir { path: runs_dir(project_path).text });
    steps.push(SetupStep::SaveConfig { path: config_path(project_path) });
    let mut i: usize = 0;
    while i < files.len()
        invariant
            i <= files.len(),
            files@.map_values(|f: FileText| f@) == listed,
            steps.len() == i + 2,
            steps@[0]@ == wanted[0],
            steps@[1]@ == wanted[1],
            forall|k: int|
                2 <= k < steps.len() ==> (#[trigger] steps@[k])@ == (SetupStepView::WriteFile {
                    file: listed[k - 2],
                }),
        decreases files.len() - i,
    {
        let file = FileText { path: files[i].path.clone(), body: files[i].body.clone() };
        assert(file@ == files@.map_values(|f: FileText| f@)[i as int]);
        steps.push(SetupStep::WriteFile { file });
        i = i + 1;
    }
    steps.push(SetupStep::AppendEvent { event: created_event(config) });
    assert(steps@.map_values(|s: SetupStep| s@) == wanted);
    steps
}

/// The documents of a new project are read from the files that were written for them, and hold
/// what was written.
pub proof fn law_documents_are_read_where_they_are_written(
    project: PathView,
    config: ConfigView,
    contents: Seq<Option<String>>,
    i: int,
)
    requires
        0 <= i < doc_list().len(),
        i < contents.len(),
        contents[i] is Some,
        contents[i]->0@ == workspace_list(project, config)[i + 1].body,
    ensures
        doc_path_list(project)[i] == workspace_list(project, config)[i + 1].path,
        context_doc_list(contents)[i].file_name == doc_list()[i].file_name,
        context_doc_list(contents)[i].content == pending_body(
            doc_list()[i].title,
            config.website_url,
        ),
{
}

/// Setting up a project makes its directory first, and writes the configuration and every document
/// where they are read when the project is loaded.
pub proof fn law_setup_writes_what_loading_reads(
    project: PathView,
    config: ConfigView,
    i: int,
)
    requires
        0 <= i < doc_list().len(),
    ensures
        setup_list(project, config)[0] == (SetupStepView::CreateDir { path: runs_dir_path(project).text }),
        setup_list(project, config)[1] == (SetupStepView::SaveConfig {
            path: config_file_text(project),
        }),
        setup_list(project, config)[i + 3] == (SetupStepView::WriteFile {
            file: FileView {
                path: doc_path_list(project)[i],
                body: pending_body(doc_list()[i].title, config.website_url),
            },
        }),
{
}

/// No file of a new project is written twice.
pub proof fn law_workspace_files_are_apart(
    project: PathView,
    config: ConfigView,
    i: int,
    j: int,
)
    requires
        0 <= i < j < workspace_list(project, config).len(),
    ensures
        workspace_list(project, config)[i].path != workspace_list(project, config)[j].path,
{
    reveal_strlit("AGENTS.md");
    reveal_strlit("product-information.md");
    reveal_strlit("marketing-strategy.md");
    reveal_strlit("competitor-analysis.md");
    reveal_strlit("brand-voice.md");
    let a = if i == 0 {
        "AGENTS.md"@
    } else {
        doc_list()[i - 1].file_name
    };
    let b = doc_list()[j - 1].file_name;
    assert(a[0] != b[0]);
    reveal_strlit(".");
    reveal_strlit("..");
    lemma_single_is_neat(a);
    lemma_single_is_neat(b);
    lemma_part_follows_stem(project, a);
    lemma_part_follows_stem(project, b);
    let n = stem(project).len() as int;
    assert((stem(project) + a)[n] == a[0]);
    assert((stem(project) + b)[n] == b[0]);
}

/// A project as the application shows it.
#[derive(Debug)]
pub struct ProjectState {
    pub config: ProjectConfig,
    pub codex: CodexDetection,
    pub docs: Vec<ContextDoc>,
    pub latest_run: Option<RunState>,
}

/// A project as the application shows it, given what was read of it: its configuration, the
/// agent's program, the files of its documents in their order, and its latest run.
pub fn project_state(
    config: ProjectConfig,
    codex: CodexDetection,
    contents: &Vec<Option<String>>,
    latest_run: Option<RunState>,
) -> (r: ProjectState)
    ensures
        r.config == config,
        r.codex == codex,
        r.docs@.map_values(|d: ContextDoc| d@) == context_doc_list(contents@),
        r.latest_run == latest_run,
{
    ProjectState { config, codex, docs: context_docs(contents), latest_run }
}

/// A project can be set up for every usable URL where the home directory is known, and for no
/// other. Its identifier ends in the whole of what makes it unique, it is named after its website,
/// and it was created and updated at the time that was given.
pub proof fn law_new_project_is_as_given(
    home: Option<PathView>,
    input: Seq<char>,
    unique: Seq<char>,
    now: Seq<char>,
)
    ensures
        new_config(home, input, unique, now) is Ok <==> normalized_url(input) is Ok && home is Some,
        match new_config(home, input, unique, now) {
            Ok(config) => {
                &&& config.id == "project_"@ + unique
                &&& normalized_url(input) == Ok::<Seq<char>, ErrorView>(config.website_url)
                &&& config.name == project_name(config.website_url)
                &&& config.created_at == now
                &&& config.updated_at == now
            },
            Err(error) => match normalized_url(input) {
                Err(reason) => error == reason,
                Ok(_) => error == (ErrorKind::Invalid, "cannot locate home directory"@),
            },
        },
{
    if normalized_url(input) is Ok {
        law_normalizing_twice(input);
    }
}

/// A new project has the file that describes it and its documents, each under its own name in the
/// folder of the project, with the name and the website of the project in them as they stand.
pub proof fn law_new_project_has_its_files(project: PathView, config: ConfigView, i: int)
    requires
        0 <= i < doc_list().len(),
    ensures
        workspace_list(project, config).len() == doc_list().len() + 1,
        workspace_list(project, config)[0].path == joined_path(project, "AGENTS.md"@).text,
        workspace_list(project, config)[0].body == agents_text(config.name, config.website_url),
        workspace_list(project, config)[i + 1].path == joined_path(
            project,
            doc_list()[i].file_name,
        ).text,
        workspace_list(project, config)[i + 1].body == "# "@ + doc_list()[i].title
            + "\n\n_Status: pending Codex analysis_\n\nSource URL: "@ + config.website_url + "\n\n"@,
{
}

/// Setting up a project takes these steps and no others: the directory of its runs is made, the
/// configuration is saved, every file is written, and then the event is appended.
pub proof fn law_setup_is_complete(project: PathView, config: ConfigView, i: int)
    requires
        0 <= i < workspace_list(project, config).len(),
    ensures
        ({
            let steps = setup_list(project, config);
            let files = workspace_list(project, config);
            &&& steps.len() == files.len() + 3
            &&& steps[0] == (SetupStepView::CreateDir {
                path: joined_path(project, ".gtm-agent/runs"@).text,
            })
            &&& steps[1] == (SetupStepView::SaveConfig {
                path: joined_path(project, ".gtm-agent/config.json"@).text,
            })
            &&& steps[i + 2] == (SetupStepView::WriteFile { file: files[i] })
            &&& steps[steps.len() - 1] == (SetupStepView::AppendEvent {
                event: created_event_view(config),
            })
        }),
{
}

/// The event of a new project names the project and the website as they stand.
pub proof fn law_creation_is_announced(config: ConfigView)
    ensures
        ({
            let event = created_event_view(config);
            &&& event.event_type == "project.created"@
            &&& event.summary == "Created GTM workspace for "@ + config.name
            &&& event.payload.len() == 1
            &&& event.payload[0].name == "websiteUrl"@
            &&& event.payload[0].value == Some(config.website_url)
        }),
{
}

/// A configuration and a file are seen by all that they hold.
pub proof fn law_projects_are_seen_whole(config: ProjectConfig, file: FileText)
    ensures
        config@.id == config.id@,
        config@.name == config.name@,
        config@.website_url == config.website_url@,
        config@.path == config.path@,
        config@.created_at == config.created_at@,
        config@.updated_at == config.updated_at@,
        file@.path == file.path@,
        file@.body == file.body@,
{
}

} // verus!
