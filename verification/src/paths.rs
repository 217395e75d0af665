//! Where a project keeps its files.

use vstd::prelude::*;
use vstd::string::*;

use crate::outside::{home_dir, main_separator};
use crate::windows::{
    after_prefix, at_root, ends_name, has_drive, is_verbatim, join_windows,
    lemma_joined_names_stay, lemma_name_end_unique, lemma_neat_part_follows,
    lemma_single_is_neat, neat, open_ended, prefix_length, slash, verbatim_way, way_text,
    windows_joined,
};

verus! {

/// How a system writes the paths of its files.
#[derive(Debug, Clone, Copy, PartialEq, Eq, Structural)]
pub enum PathStyle {
    /// With `/` between the parts.
    Unix,
    /// With `\` or `/` between the parts, and drives or servers in front.
    Windows,
}

/// The path of a file or a directory, as the system of its style writes it.
#[derive(Debug)]
pub struct FilePath {
    pub text: String,
    pub style: PathStyle,
}

/// A path as its characters.
pub struct PathView {
    pub text: Seq<char>,
    pub style: PathStyle,
}

impl View for FilePath {
    type V = PathView;

    open spec fn view(&self) -> PathView {
        PathView { text: self.text@, style: self.style }
    }
}

/// An optional path as its characters.
pub open spec fn opt_path(path: Option<FilePath>) -> Option<PathView> {
    match path {
        Some(path) => Some(path@),
        None => None,
    }
}

/// The separator that is put between two parts.
pub open spec fn separator(style: PathStyle) -> Seq<char> {
    match style {
        PathStyle::Unix => "/"@,
        PathStyle::Windows => "\\"@,
    }
}

/// `part`, taken relative to `base`. A part that begins with the separator stands alone, and any
/// other follows after one separator.
pub open spec fn unix_joined(base: Seq<char>, part: Seq<char>) -> Seq<char> {
    if part.len() > 0 && part[0] == '/' {
        part
    } else if base.len() == 0 || base.last() == '/' {
        base + part
    } else {
        base + "/"@ + part
    }
}

/// `part`, taken relative to `base`.
pub open spec fn joined_path(base: PathView, part: Seq<char>) -> PathView {
    let text = match base.style {
        PathStyle::Unix => unix_joined(base.text, part),
        PathStyle::Windows => windows_joined(base.text, part),
    };
    PathView { text, ..base }
}

/// Whether a path is a verbatim one of Windows.
pub open spec fn verbatim(path: PathView) -> bool {
    path.style == PathStyle::Windows && is_verbatim(path.text)
}

/// Whether `part` begins neither at a root nor with a drive.
pub open spec fn relative(style: PathStyle, part: Seq<char>) -> bool {
    match style {
        PathStyle::Unix => part.len() > 0 ==> part[0] != '/',
        PathStyle::Windows => !at_root(part) && !has_drive(part),
    }
}

/// Whether `part` is taken as it stands when it is joined to `base`: it is relative and, where
/// `base` is verbatim and put together anew, neat.
pub open spec fn fits(base: PathView, part: Seq<char>) -> bool {
    relative(base.style, part) && (verbatim(base) ==> neat(part))
}

/// What stands before a name that is joined to `base`.
pub open spec fn stem(base: PathView) -> Seq<char> {
    if verbatim(base) {
        base.text.take(prefix_length(base.text) as int) + way_text(verbatim_way(base.text)) + "\\"@
    } else if base.style == PathStyle::Windows {
        if open_ended(base.text) {
            base.text
        } else {
            base.text + "\\"@
        }
    } else if base.text.len() == 0 || base.text.last() == '/' {
        base.text
    } else {
        base.text + "/"@
    }
}

/// The directory of a project's runs.
pub open spec fn runs_dir_path(project: PathView) -> PathView {
    joined_path(project, ".gtm-agent/runs"@)
}

/// The file that holds a project's configuration.
pub open spec fn config_file_text(project: PathView) -> Seq<char> {
    joined_path(project, ".gtm-agent/config.json"@).text
}

/// The file that holds the state of a run.
pub open spec fn run_manifest_text(project: PathView, run_id: Seq<char>) -> Seq<char> {
    joined_path(runs_dir_path(project), run_id + ".json"@).text
}

/// The file that the agent's output goes to during a run.
pub open spec fn run_log_text(project: PathView, run_id: Seq<char>) -> Seq<char> {
    joined_path(runs_dir_path(project), run_id + ".jsonl"@).text
}

impl FilePath {
    /// The path with this text.
    pub fn new(text: String, style: PathStyle) -> (r: FilePath)
        ensures
            r@ == (PathView { text: text@, style }),
    {
        FilePath { text, style }
    }

    /// `part`, taken relative to this path.
    pub fn join(&self, part: &str) -> (r: FilePath)
        ensures
            r@ == joined_path(self@, part@),
    {
        FilePath { text: self.join_text(part), style: self.style }
    }

    /// The text of `part`, taken relative to this path.
    fn join_text(&self, part: &str) -> (r: String)
        ensures
            r@ == joined_path(self@, part@).text,
    {
        match self.style {
            PathStyle::Unix => join_unix(self.text.as_str(), part),
            PathStyle::Windows => join_windows(self.text.as_str(), part),
        }
    }
}

/// `part`, taken relative to `base`, with `/` between the parts.
fn join_unix(base: &str, part: &str) -> (r: String)
    ensures
        r@ == unix_joined(base@, part@),
{
    let length: usize = base.unicode_len();
    if !part.is_empty() && part.get_char(0) == '/' {
        part.to_string()
    } else if length == 0 || base.get_char(length - 1) == '/' {
        base.to_string().concat(part)
    } else {
        base.to_string().concat("/").concat(part)
    }
}

/// How a system with this separator between the parts of a path writes its paths.
pub fn style_of(separator: char) -> (r: PathStyle)
    ensures
        r == if separator == '\\' {
            PathStyle::Windows
        } else {
            PathStyle::Unix
        },
{
    if separator == '\\' {
        PathStyle::Windows
    } else {
        PathStyle::Unix
    }
}

/// The home directory that the environment gives as text, on a system with this separator between
/// the parts of a path.
pub fn home_of(text: Option<String>, separator: char) -> (r: Option<FilePath>)
    ensures
        opt_path(r) == match text {
            Some(text) => Some(
                PathView {
                    text: text@,
                    style: if separator == '\\' {
                        PathStyle::Windows
                    } else {
                        PathStyle::Unix
                    },
                },
            ),
            None => None,
        },
{
    match text {
        Some(text) => Some(FilePath::new(text, style_of(separator))),
        None => None,
    }
}

/// The home directory of the user, as the system writes it. The environment decides what it is.
pub(crate) fn home_path() -> (r: Option<FilePath>) {
    home_of(home_dir(), main_separator())
}

/// The directory that the application keeps for itself in a project.
pub fn data_dir(project_path: &FilePath) -> (r: String)
    ensures
        r@ == joined_path(project_path@, ".gtm-agent"@).text,
{
    project_path.join_text(".gtm-agent")
}

/// The directory of a project's runs.
pub fn runs_dir(project_path: &FilePath) -> (r: FilePath)
    ensures
        r@ == runs_dir_path(project_path@),
{
    project_path.join(".gtm-agent/runs")
}

/// The file that holds a project's configuration.
pub fn config_path(project_path: &FilePath) -> (r: String)
    ensures
        r@ == config_file_text(project_path@),
{
    project_path.join_text(".gtm-agent/config.json")
}

/// The file that a project's events are appended to.
pub fn events_path(project_path: &FilePath) -> (r: String)
    ensures
        r@ == joined_path(project_path@, ".gtm-agent/events.jsonl"@).text,
{
    project_path.join_text(".gtm-agent/events.jsonl")
}

/// The file that holds the state of a run.
pub fn run_manifest_path(project_path: &FilePath, run_id: &str) -> (r: String)
    ensures
        r@ == run_manifest_text(project_path@, run_id@),
{
    let name = run_id.to_string().concat(".json");
    runs_dir(project_path).join_text(name.as_str())
}

/// The file that the agent's output goes to during a run.
pub fn run_log_path(project_path: &FilePath, run_id: &str) -> (r: String)
    ensures
        r@ == run_log_text(project_path@, run_id@),
{
    let name = run_id.to_string().concat(".jsonl");
    runs_dir(project_path).join_text(name.as_str())
}

/// A part that fits follows the stem of the path that it is joined to.
pub proof fn lemma_part_follows_stem(base: PathView, part: Seq<char>)
    requires
        fits(base, part),
    ensures
        joined_path(base, part).text == stem(base) + part,
{
    if verbatim(base) {
        lemma_neat_part_follows(base.text, part);
    }
}

proof fn lemma_runs_dir(project: PathView)
    ensures
        runs_dir_path(project).style == project.style,
        stem(runs_dir_path(project)) == runs_dir_path(project).text + separator(project.style),
{
    reveal_strlit(".gtm-agent/runs");
    reveal_strlit(".gtm-agent");
    reveal_strlit("runs");
    reveal_strlit("/");
    reveal_strlit("\\");
    reveal_strlit(".");
    reveal_strlit("..");
    reveal_strlit("\\\\?\\");
    let part = ".gtm-agent/runs"@;
    let runs = runs_dir_path(project);
    if verbatim(project) {
        let first = ".gtm-agent"@;
        let second = "runs"@;
        assert(part == first + "/"@ + second);
        lemma_joined_names_stay(project.text, first, second);
    } else {
        assert(runs.text.last() == 's');
        assert(runs.text.len() >= 15);
        if verbatim(runs) {
            lemma_marked_late(project.text, part);
        }
    }
}

proof fn lemma_marked_late(base: Seq<char>, part: Seq<char>)
    requires
        part == ".gtm-agent/runs"@,
        !is_verbatim(base),
        is_verbatim(windows_joined(base, part)),
    ensures
        ({
            let text = windows_joined(base, part);
            text.take(prefix_length(text) as int) + way_text(verbatim_way(text)) == text
        }),
{
    reveal_strlit(".gtm-agent/runs");
    reveal_strlit("\\\\?\\");
    reveal_strlit("\\");
    reveal_strlit("UNC");
    let mark = "\\\\?\\"@;
    let text = windows_joined(base, part);
    assert(text[0] == mark[0] && text[1] == mark[1] && text[2] == mark[2] && text[3] == mark[3]);
    if base.len() >= 4 {
        assert(base.take(4) == mark);
    }
    assert(base.len() == 3);
    assert(text == mark + part);
    assert(text.subrange(4, 7)[0] == '.');
    assert(text.skip(4)[0] == '.');
    assert forall|i: int| 4 <= i < text.len() implies !ends_name(#[trigger] text[i], true) by {
        assert(text[i] == part[i - 4]);
    }
    lemma_name_end_unique(text, 4, true, text.len());
    assert(after_prefix(text).len() == 0);
    assert(text.take(text.len() as int) == text);
}

/// Whether the files of a run are named as they stand.
pub open spec fn run_fits(project: PathView, run_id: Seq<char>) -> bool {
    let runs = runs_dir_path(project);
    fits(runs, run_id + ".json"@) && fits(runs, run_id + ".jsonl"@)
}

proof fn lemma_name_fits(runs: PathView, run_id: Seq<char>, ending: Seq<char>)
    requires
        relative(runs.style, run_id),
        verbatim(runs) ==> forall|i: int| 0 <= i < run_id.len() ==> !slash(#[trigger] run_id[i]),
        ending == ".json"@ || ending == ".jsonl"@,
    ensures
        fits(runs, run_id + ending),
{
    reveal_strlit(".json");
    reveal_strlit(".jsonl");
    reveal_strlit(".");
    reveal_strlit("..");
    let name = run_id + ending;
    if run_id.len() > 0 {
        assert(name[0] == run_id[0]);
    }
    if run_id.len() > 1 {
        assert(name[1] == run_id[1]);
    }
    if verbatim(runs) {
        assert forall|i: int| 0 <= i < name.len() implies !slash(#[trigger] name[i]) by {
            if i < run_id.len() {
                assert(name[i] == run_id[i]);
            } else {
                assert(name[i] == ending[i - run_id.len()]);
            }
        }
        lemma_single_is_neat(name);
    }
}

/// The files of a run are named as they stand where its identifier is relative; below a verbatim
/// path it is enough that it holds no separator besides.
pub proof fn lemma_run_fits(project: PathView, run_id: Seq<char>)
    requires
        relative(project.style, run_id),
        verbatim(runs_dir_path(project)) ==> forall|i: int|
            0 <= i < run_id.len() ==> !slash(#[trigger] run_id[i]),
    ensures
        run_fits(project, run_id),
{
    lemma_name_fits(runs_dir_path(project), run_id, ".json"@);
    lemma_name_fits(runs_dir_path(project), run_id, ".jsonl"@);
}

/// The files of a run lie in the directory of the project's runs, for every run identifier that
/// begins neither at a root nor with a drive and, below a verbatim path, is neat.
pub proof fn law_run_files_lie_in_runs_dir(project: PathView, run_id: Seq<char>)
    requires
        run_fits(project, run_id),
    ensures
        ({
            let within = runs_dir_path(project).text + separator(project.style);
            &&& run_manifest_text(project, run_id) == within + run_id + ".json"@
            &&& run_log_text(project, run_id) == within + run_id + ".jsonl"@
        }),
{
    let runs = runs_dir_path(project);
    lemma_runs_dir(project);
    lemma_part_follows_stem(runs, run_id + ".json"@);
    lemma_part_follows_stem(runs, run_id + ".jsonl"@);
}

/// Two runs of a project share neither a manifest nor a log, and no run's log is a manifest.
pub proof fn law_run_files_are_apart(project: PathView, a: Seq<char>, b: Seq<char>)
    requires
        run_fits(project, a),
        run_fits(project, b),
    ensures
        run_manifest_text(project, a) == run_manifest_text(project, b) ==> a == b,
        run_log_text(project, a) == run_log_text(project, b) ==> a == b,
        run_log_text(project, a) != run_manifest_text(project, b),
{
    law_run_files_lie_in_runs_dir(project, a);
    law_run_files_lie_in_runs_dir(project, b);
    reveal_strlit(".json");
    reveal_strlit(".jsonl");
    let n = (runs_dir_path(project).text + separator(project.style)).len() as int;
    let ma = run_manifest_text(project, a);
    let mb = run_manifest_text(project, b);
    let la = run_log_text(project, a);
    let lb = run_log_text(project, b);
    if ma == mb {
        assert(ma.subrange(n, n + a.len()) == a);
        assert(mb.subrange(n, n + b.len()) == b);
    }
    if la == lb {
        assert(la.subrange(n, n + a.len()) == a);
        assert(lb.subrange(n, n + b.len()) == b);
    }
    assert(la.last() == 'l');
    assert(mb.last() == 'n');
}

/// On Unix a part that begins with a slash stands alone; any other follows the whole base, after a
/// slash unless the base is empty or ends with one.
pub proof fn law_unix_parts_follow_the_base(base: Seq<char>, part: Seq<char>)
    ensures
        ({
            let joined = joined_path(PathView { text: base, style: PathStyle::Unix }, part);
            &&& joined.style == PathStyle::Unix
            &&& joined.text == if part.len() > 0 && part[0] == '/' {
                part
            } else if base.len() == 0 || base[base.len() - 1] == '/' {
                base + part
            } else {
                base + "/"@ + part
            }
        }),
{
}

/// The files that the application keeps for a project on Unix, for every project folder that is
/// not written with a slash at its end and every run identifier that does not begin with one.
pub proof fn law_files_on_unix(project: Seq<char>, run_id: Seq<char>)
    requires
        project.len() > 0,
        project.last() != '/',
        run_id.len() > 0 ==> run_id[0] != '/',
    ensures
        ({
            let path = PathView { text: project, style: PathStyle::Unix };
            &&& runs_dir_path(path).text == project + "/.gtm-agent/runs"@
            &&& runs_dir_path(path).style == PathStyle::Unix
            &&& config_file_text(path) == project + "/.gtm-agent/config.json"@
            &&& run_manifest_text(path, run_id) == project + "/.gtm-agent/runs/"@ + run_id
                + ".json"@
            &&& run_log_text(path, run_id) == project + "/.gtm-agent/runs/"@ + run_id + ".jsonl"@
        }),
{
    reveal_strlit("/");
    reveal_strlit(".gtm-agent/runs");
    reveal_strlit("/.gtm-agent/runs");
    reveal_strlit("/.gtm-agent/runs/");
    reveal_strlit(".gtm-agent/config.json");
    reveal_strlit("/.gtm-agent/config.json");
    reveal_strlit(".json");
    reveal_strlit(".jsonl");
    let path = PathView { text: project, style: PathStyle::Unix };
    let runs = project + "/.gtm-agent/runs"@;
    assert(project + "/"@ + ".gtm-agent/runs"@ == runs);
    assert(project + "/"@ + ".gtm-agent/config.json"@ == project + "/.gtm-agent/config.json"@);
    assert(runs.last() == 's');
    let manifest = run_id + ".json"@;
    let log = run_id + ".jsonl"@;
    if run_id.len() > 0 {
        assert(manifest[0] == run_id[0]);
        assert(log[0] == run_id[0]);
    }
    assert(runs + "/"@ + manifest == project + "/.gtm-agent/runs/"@ + run_id + ".json"@);
    assert(runs + "/"@ + log == project + "/.gtm-agent/runs/"@ + run_id + ".jsonl"@);
}

/// The same on Windows, for every project folder that is neither a bare drive nor verbatim and is
/// not written with a separator at its end, and every run identifier that begins neither with a
/// separator nor with a drive.
pub proof fn law_files_on_windows(project: Seq<char>, run_id: Seq<char>)
    requires
        project.len() > 3,
        project.take(4) != "\\\\?\\"@,
        project.last() != '/',
        project.last() != '\\',
        run_id.len() > 0 ==> run_id[0] != '/' && run_id[0] != '\\',
        run_id.len() > 1 ==> run_id[1] != ':',
    ensures
        ({
            let path = PathView { text: project, style: PathStyle::Windows };
            &&& runs_dir_path(path).text == project + "\\"@ + ".gtm-agent/runs"@
            &&& runs_dir_path(path).style == PathStyle::Windows
            &&& config_file_text(path) == project + "\\"@ + ".gtm-agent/config.json"@
            &&& run_manifest_text(path, run_id) == project + "\\"@ + ".gtm-agent/runs"@ + "\\"@
                + run_id + ".json"@
            &&& run_log_text(path, run_id) == project + "\\"@ + ".gtm-agent/runs"@ + "\\"@ + run_id
                + ".jsonl"@
        }),
{
    reveal_strlit("\\");
    reveal_strlit("\\\\?\\");
    reveal_strlit(".gtm-agent/runs");
    reveal_strlit(".gtm-agent/config.json");
    reveal_strlit(".json");
    reveal_strlit(".jsonl");
    let mark = "\\\\?\\"@;
    if mark.is_prefix_of(project) {
        assert(project.take(4) == mark);
    }
    let runs = project + "\\"@ + ".gtm-agent/runs"@;
    if mark.is_prefix_of(runs) {
        assert(project.take(4) == mark);
    }
    assert(runs.last() == 's');
    let manifest = run_id + ".json"@;
    let log = run_id + ".jsonl"@;
    if run_id.len() > 0 {
        assert(manifest[0] == run_id[0]);
        assert(log[0] == run_id[0]);
    }
    if run_id.len() > 1 {
        assert(manifest[1] == run_id[1]);
        assert(log[1] == run_id[1]);
    }
    assert(runs + "\\"@ + manifest == project + "\\"@ + ".gtm-agent/runs"@ + "\\"@ + run_id
        + ".json"@);
    assert(runs + "\\"@ + log == project + "\\"@ + ".gtm-agent/runs"@ + "\\"@ + run_id + ".jsonl"@);
}

} // verus!
