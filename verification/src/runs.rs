//! The runs of a project, and which of them is the latest.

use vstd::prelude::*;
use vstd::string::*;
use vstd::utf8::*;

use crate::outside::{date_time, digit, now_formatted, now_rfc3339, time_digits};
use crate::paths::{
    law_run_files_lie_in_runs_dir, lemma_run_fits, run_log_path, run_log_text, run_manifest_text,
    runs_dir_path, separator, FilePath, PathView,
};
use crate::text::{copy_opt, opt_text};
use crate::windows::slash;

verus! {

/// How far a run has come.
#[derive(Debug, Clone, Copy, PartialEq, Eq, Structural)]
pub enum RunStatus {
    Running,
    Completed,
    Failed,
}

/// The state of a run.
#[derive(Debug)]
pub struct RunState {
    pub id: String,
    pub kind: String,
    pub status: RunStatus,
    pub codex_thread_id: Option<String>,
    pub started_at: String,
    pub completed_at: Option<String>,
    pub log_path: String,
    pub error: Option<String>,
}

/// The state of a run as its characters.
pub struct RunView {
    pub id: Seq<char>,
    pub kind: Seq<char>,
    pub status: RunStatus,
    pub codex_thread_id: Option<Seq<char>>,
    pub started_at: Seq<char>,
    pub completed_at: Option<Seq<char>>,
    pub log_path: Seq<char>,
    pub error: Option<Seq<char>>,
}

impl View for RunState {
    type V = RunView;

    open spec fn view(&self) -> RunView {
        RunView {
            id: self.id@,
            kind: self.kind@,
            status: self.status,
            codex_thread_id: opt_text(self.codex_thread_id),
            started_at: self.started_at@,
            completed_at: opt_text(self.completed_at),
            log_path: self.log_path@,
            error: opt_text(self.error),
        }
    }
}

/// A first analysis of a project that begins.
pub open spec fn new_run_view(
    project: PathView,
    run_id: Seq<char>,
    started_at: Seq<char>,
) -> RunView {
    RunView {
        id: run_id,
        kind: "initial_analysis"@,
        status: RunStatus::Running,
        codex_thread_id: None,
        started_at,
        completed_at: None,
        log_path: run_log_text(project, run_id),
        error: None,
    }
}

/// A first analysis of a project that begins.
pub fn new_run(project_path: &FilePath, run_id: &str, started_at: &str) -> (r: RunState)
    ensures
        r@ == new_run_view(project_path@, run_id@, started_at@),
        r.id@ == run_id@,
        r.kind@ == "initial_analysis"@,
        r.status == RunStatus::Running,
        r.codex_thread_id is None,
        r.started_at@ == started_at@,
        r.completed_at is None,
        r.log_path@ == run_log_text(project_path@, run_id@),
        r.error is None,
{
    RunState {
        id: run_id.to_string(),
        kind: "initial_analysis".to_string(),
        status: RunStatus::Running,
        codex_thread_id: None,
        started_at: started_at.to_string(),
        completed_at: None,
        log_path: run_log_path(project_path, run_id),
        error: None,
    }
}

/// A first analysis of a project that begins now: the clock gives its identifier and its time.
pub fn begin_run(project_path: &FilePath) -> (r: RunState)
    ensures
        exists|stamp: Seq<char>, started_at: Seq<char>|
            {
                &&& time_digits(stamp)
                &&& date_time(started_at)
                &&& r@ == #[trigger] new_run_view(project_path@, "run_"@ + stamp, started_at)
                &&& r.id@ == "run_"@ + stamp
                &&& r.started_at@ == started_at
            },
        r.status == RunStatus::Running,
        r.completed_at is None,
        r.codex_thread_id is None,
        r.error is None,
        r.log_path@ == run_log_text(project_path@, r.id@),
{
    let stamp = now_formatted("%Y%m%d%H%M%S");
    let run_id = "run_".to_string().concat(stamp.as_str());
    let started_at = now_rfc3339();
    let r = new_run(project_path, run_id.as_str(), started_at.as_str());
    assert(r@ == new_run_view(project_path@, "run_"@ + stamp@, started_at@));
    r
}

/// A run after the agent has exited.
pub open spec fn finished_run_view(
    run: RunView,
    thread_id: Option<Seq<char>>,
    completed_at: Seq<char>,
    success: bool,
    status: Seq<char>,
) -> RunView {
    RunView {
        status: if success {
            RunStatus::Completed
        } else {
            RunStatus::Failed
        },
        codex_thread_id: thread_id,
        completed_at: Some(completed_at),
        error: if success {
            run.error
        } else {
            Some("codex exited with "@ + status)
        },
        ..run
    }
}

/// A run after the agent has exited: completed where it succeeded, else failed with the exit
/// status as the error.
pub fn finish_run(
    run: &RunState,
    thread_id: Option<String>,
    completed_at: String,
    success: bool,
    status: &str,
) -> (r: RunState)
    ensures
        r@ == finished_run_view(run@, opt_text(thread_id), completed_at@, success, status@),
        r.status == if success {
            RunStatus::Completed
        } else {
            RunStatus::Failed
        },
        !success ==> r.error is Some && r.error->0@ == "codex exited with "@ + status@,
        success ==> opt_text(r.error) == opt_text(run.error),
        r.codex_thread_id == thread_id,
        r.completed_at == Some(completed_at),
        r.id@ == run.id@,
        r.kind@ == run.kind@,
        r.started_at@ == run.started_at@,
        r.log_path@ == run.log_path@,
{
    RunState {
        id: run.id.clone(),
        kind: run.kind.clone(),
        status: if success {
            RunStatus::Completed
        } else {
            RunStatus::Failed
        },
        codex_thread_id: thread_id,
        started_at: run.started_at.clone(),
        completed_at: Some(completed_at),
        log_path: run.log_path.clone(),
        error: if success {
            copy_opt(&run.error)
        } else {
            Some("codex exited with ".to_string().concat(status))
        },
    }
}

/// A finished run is the run that began: it keeps its identifier, its kind, its start and its log.
/// It has a time of completion, and it has an error just where it failed.
pub proof fn law_finished_run_is_the_same_run(
    project: PathView,
    run_id: Seq<char>,
    started_at: Seq<char>,
    thread_id: Option<Seq<char>>,
    completed_at: Seq<char>,
    success: bool,
    status: Seq<char>,
)
    ensures
        ({
            let run = new_run_view(project, run_id, started_at);
            let end = finished_run_view(run, thread_id, completed_at, success, status);
            &&& end.id == run.id
            &&& end.kind == run.kind
            &&& end.started_at == run.started_at
            &&& end.log_path == run.log_path
            &&& end.completed_at is Some
            &&& end.status == RunStatus::Completed || end.status == RunStatus::Failed
            &&& end.status == RunStatus::Failed <==> end.error is Some
        }),
{
}

/// Whether `a` comes before `b` in the order of bytes.
pub open spec fn bytes_before(a: Seq<u8>, b: Seq<u8>) -> bool
    decreases b.len(),
{
    if b.len() == 0 {
        false
    } else if a.len() == 0 {
        true
    } else {
        a[0] < b[0] || (a[0] == b[0] && bytes_before(a.skip(1), b.skip(1)))
    }
}

/// The bytes of `.json`.
pub open spec fn json_suffix() -> Seq<u8> {
    seq![46u8, 106u8, 115u8, 111u8, 110u8]
}

/// Whether a file with this name holds the state of a run: its extension is `json`, and there is
/// something before the extension.
pub open spec fn manifest_name(name: Seq<u8>) -> bool {
    name.len() > 5 && json_suffix().is_suffix_of(name)
}

/// Whether a file with this name holds the state of a run.
pub fn is_manifest_name(name: &Vec<u8>) -> (r: bool)
    ensures
        r == manifest_name(name@),
{
    let n: usize = name.len();
    if n <= 5 {
        return false;
    }
    let r = name[n - 5] == 46 && name[n - 4] == 106 && name[n - 3] == 115 && name[n - 2] == 111
        && name[n - 1] == 110;
    proof {
        let tail = name@.subrange(n - 5, n as int);
        assert(tail[0] == name@[n - 5] && tail[1] == name@[n - 4] && tail[2] == name@[n - 3]
            && tail[3] == name@[n - 2] && tail[4] == name@[n - 1]);
        if r {
            assert(tail == json_suffix());
        }
    }
    r
}

/// Whether `a` comes before `b` in the order of bytes.
pub fn comes_before(a: &Vec<u8>, b: &Vec<u8>) -> (r: bool)
    ensures
        r == bytes_before(a@, b@),
{
    let mut i: usize = 0;
    assert(a@.skip(0) == a@);
    assert(b@.skip(0) == b@);
    while i < a.len() && i < b.len()
        invariant
            i <= a.len(),
            i <= b.len(),
            bytes_before(a@, b@) == bytes_before(a@.skip(i as int), b@.skip(i as int)),
        decreases a.len() - i,
    {
        if a[i] != b[i] {
            return a[i] < b[i];
        }
        assert(a@.skip(i as int).skip(1) == a@.skip(i + 1));
        assert(b@.skip(i as int).skip(1) == b@.skip(i + 1));
        i = i + 1;
    }
    i < b.len()
}

proof fn lemma_not_before_chains(a: Seq<u8>, b: Seq<u8>, c: Seq<u8>)
    requires
        !bytes_before(a, b),
        !bytes_before(b, c),
    ensures
        !bytes_before(a, c),
    decreases c.len(),
{
    if a.len() > 0 && b.len() > 0 && c.len() > 0 && a[0] == b[0] && b[0] == c[0] {
        lemma_not_before_chains(a.skip(1), b.skip(1), c.skip(1));
    }
}

/// The latest run among the files with these names: the manifest whose name comes last. Of equal
/// names the later in the list is taken; files that are no manifests do not count.
pub fn latest_manifest(names: &Vec<Vec<u8>>) -> (r: Option<usize>)
    ensures
        match r {
            Some(i) => {
                &&& i < names.len()
                &&& manifest_name(names@[i as int]@)
                &&& forall|j: int|
                    0 <= j < names.len() && manifest_name(#[trigger] names@[j]@) ==> {
                        &&& !bytes_before(names@[i as int]@, names@[j]@)
                        &&& j > i ==> bytes_before(names@[j]@, names@[i as int]@)
                    }
            },
            None => forall|j: int| 0 <= j < names.len() ==> !manifest_name(#[trigger] names@[j]@),
        },
{
    let mut best: Option<usize> = None;
    let mut at: usize = 0;
    while at < names.len()
        invariant
            at <= names.len(),
            match best {
                Some(i) => {
                    &&& i < at
                    &&& manifest_name(names@[i as int]@)
                    &&& forall|j: int|
                        0 <= j < at && manifest_name(#[trigger] names@[j]@) ==> {
                            &&& !bytes_before(names@[i as int]@, names@[j]@)
                            &&& j > i ==> bytes_before(names@[j]@, names@[i as int]@)
                        }
                },
                None => forall|j: int| 0 <= j < at ==> !manifest_name(#[trigger] names@[j]@),
            },
        decreases names.len() - at,
    {
        if is_manifest_name(&names[at]) {
            let later = match best {
                Some(i) => !comes_before(&names[at], &names[i]),
                None => true,
            };
            proof {
                lemma_not_before_itself(names@[at as int]@);
                if best is Some && later {
                    let i = best->0;
                    assert forall|j: int|
                        0 <= j < at && manifest_name(#[trigger] names@[j]@) implies !bytes_before(
                        names@[at as int]@,
                        names@[j]@,
                    ) by {
                        lemma_not_before_chains(names@[at as int]@, names@[i as int]@, names@[j]@);
                    }
                }
                if best is Some && !later {
                    lemma_before_one_way(names@[at as int]@, names@[best->0 as int]@);
                }
            }
            if later {
                best = Some(at);
            }
        }
        at = at + 1;
    }
    best
}

proof fn lemma_not_before_itself(a: Seq<u8>)
    ensures
        !bytes_before(a, a),
    decreases a.len(),
{
    if a.len() > 0 {
        lemma_not_before_itself(a.skip(1));
    }
}

proof fn lemma_before_one_way(a: Seq<u8>, b: Seq<u8>)
    requires
        bytes_before(a, b),
    ensures
        !bytes_before(b, a),
    decreases b.len(),
{
    if a.len() > 0 && b.len() > 0 && a[0] == b[0] {
        lemma_before_one_way(a.skip(1), b.skip(1));
    }
}

/// The number that digits stand for.
pub open spec fn decimal(digits: Seq<char>) -> int
    decreases digits.len(),
{
    if digits.len() == 0 {
        0
    } else {
        10 * decimal(digits.drop_last()) + (digits.last() as int - '0' as int)
    }
}

/// Whether `s` is a time of the years up to 9999: fourteen digits.
pub open spec fn time_stamp(s: Seq<char>) -> bool {
    s.len() == 14 && all_digits(s)
}

/// Whether every character is a digit.
pub open spec fn all_digits(s: Seq<char>) -> bool {
    forall|i: int| 0 <= i < s.len() ==> digit(#[trigger] s[i])
}

/// The bytes of ASCII characters.
pub open spec fn ascii_bytes(s: Seq<char>) -> Seq<u8> {
    s.map_values(|c: char| c as u8)
}

proof fn lemma_lowest_char(c: char)
    ensures
        '\0' <= c,
{
}

proof fn lemma_ascii_encoding(s: Seq<char>)
    requires
        forall|i: int| 0 <= i < s.len() ==> #[trigger] s[i] <= '\u{7f}',
    ensures
        encode_utf8(s) == ascii_bytes(s),
{
    assert forall|i: int| 0 <= i < s.len() implies '\0' <= #[trigger] s[i] <= '\u{7f}' by {
        lemma_lowest_char(s[i]);
    }
    is_ascii_chars_encode_utf8(s);
    assert(encode_utf8(s) =~= ascii_bytes(s));
}

proof fn lemma_before_drop_last(a: Seq<u8>, b: Seq<u8>)
    requires
        a.len() == b.len(),
        a.len() > 0,
    ensures
        bytes_before(a, b) <==> bytes_before(a.drop_last(), b.drop_last()) || (a.drop_last()
            == b.drop_last() && a.last() < b.last()),
    decreases a.len(),
{
    if a.len() == 1 {
        assert(!bytes_before(a.skip(1), b.skip(1)));
        assert(!bytes_before(a.drop_last(), b.drop_last()));
        assert(a.drop_last() == b.drop_last());
    } else if a[0] == b[0] {
        lemma_before_drop_last(a.skip(1), b.skip(1));
        assert(a.skip(1).drop_last() == a.drop_last().skip(1));
        assert(b.skip(1).drop_last() == b.drop_last().skip(1));
        if a.drop_last().skip(1) == b.drop_last().skip(1) {
            assert(a.drop_last() == seq![a[0]] + a.drop_last().skip(1));
            assert(b.drop_last() == seq![b[0]] + b.drop_last().skip(1));
        }
    } else {
        assert(a.drop_last()[0] == a[0]);
        assert(b.drop_last()[0] == b[0]);
    }
}

proof fn lemma_decimal_order(a: Seq<char>, b: Seq<char>)
    requires
        a.len() == b.len(),
        all_digits(a),
        all_digits(b),
    ensures
        bytes_before(ascii_bytes(a), ascii_bytes(b)) <==> decimal(a) < decimal(b),
        ascii_bytes(a) == ascii_bytes(b) <==> decimal(a) == decimal(b),
    decreases a.len(),
{
    let x = ascii_bytes(a);
    let y = ascii_bytes(b);
    if a.len() == 0 {
        assert(x == y);
    } else {
        let a1 = a.drop_last();
        let b1 = b.drop_last();
        assert(all_digits(a1)) by {
            assert forall|i: int| 0 <= i < a1.len() implies digit(#[trigger] a1[i]) by {
                assert(a1[i] == a[i]);
            }
        }
        assert(all_digits(b1)) by {
            assert forall|i: int| 0 <= i < b1.len() implies digit(#[trigger] b1[i]) by {
                assert(b1[i] == b[i]);
            }
        }
        assert(digit(a[a.len() - 1]));
        assert(digit(b[b.len() - 1]));
        lemma_decimal_order(a1, b1);
        assert(x.drop_last() == ascii_bytes(a1));
        assert(y.drop_last() == ascii_bytes(b1));
        lemma_before_drop_last(x, y);
        if x.drop_last() == y.drop_last() && x.last() == y.last() {
            assert(x == x.drop_last().push(x.last()));
            assert(y == y.drop_last().push(y.last()));
        }
    }
}

proof fn lemma_before_after_prefix(prefix: Seq<u8>, a: Seq<u8>, b: Seq<u8>)
    ensures
        bytes_before(prefix + a, prefix + b) == bytes_before(a, b),
    decreases prefix.len(),
{
    if prefix.len() == 0 {
        assert(prefix + a == a);
        assert(prefix + b == b);
    } else {
        lemma_before_after_prefix(prefix.skip(1), a, b);
        assert((prefix + a).skip(1) == prefix.skip(1) + a);
        assert((prefix + b).skip(1) == prefix.skip(1) + b);
    }
}

proof fn lemma_before_suffix(a: Seq<u8>, b: Seq<u8>, suffix: Seq<u8>)
    requires
        a.len() == b.len(),
    ensures
        bytes_before(a + suffix, b + suffix) == bytes_before(a, b),
    decreases a.len(),
{
    if a.len() == 0 {
        assert(a + suffix == suffix);
        assert(b + suffix == suffix);
        lemma_not_before_itself(suffix);
    } else {
        lemma_before_suffix(a.skip(1), b.skip(1), suffix);
        assert((a + suffix).skip(1) == a.skip(1) + suffix);
        assert((b + suffix).skip(1) == b.skip(1) + suffix);
    }
}

/// The order of the names of manifests is the order of the times at which the runs began, for
/// the years up to 9999: the manifest that comes last is that of the latest run.
pub proof fn law_later_runs_come_later(a: Seq<char>, b: Seq<char>)
    requires
        time_stamp(a),
        time_stamp(b),
    ensures
        bytes_before(encode_utf8("run_"@ + a + ".json"@), encode_utf8("run_"@ + b + ".json"@))
            <==> decimal(a) < decimal(b),
{
    reveal_strlit("run_");
    reveal_strlit(".json");
    let head = ascii_bytes("run_"@);
    let tail = ascii_bytes(".json"@);
    let left = "run_"@ + a + ".json"@;
    let right = "run_"@ + b + ".json"@;
    assert forall|i: int| 0 <= i < left.len() implies #[trigger] left[i] <= '\u{7f}' by {
        if 4 <= i < 18 {
            assert(digit(a[i - 4]));
        }
    }
    assert forall|i: int| 0 <= i < right.len() implies #[trigger] right[i] <= '\u{7f}' by {
        if 4 <= i < 18 {
            assert(digit(b[i - 4]));
        }
    }
    lemma_ascii_encoding(left);
    lemma_ascii_encoding(right);
    assert(ascii_bytes(left) == head + (ascii_bytes(a) + tail));
    assert(ascii_bytes(right) == head + (ascii_bytes(b) + tail));
    lemma_before_after_prefix(head, ascii_bytes(a) + tail, ascii_bytes(b) + tail);
    lemma_before_suffix(ascii_bytes(a), ascii_bytes(b), tail);
    lemma_decimal_order(a, b);
}

/// The file that holds the state of a run is taken for a manifest, and its log is not, for every
/// run identifier that holds at least one character.
pub proof fn law_manifests_are_told_from_logs(run_id: Seq<u8>)
    requires
        run_id.len() > 0,
    ensures
        manifest_name(run_id + encode_utf8(".json"@)),
        !manifest_name(run_id + encode_utf8(".jsonl"@)),
{
    reveal_strlit(".json");
    reveal_strlit(".jsonl");
    lemma_ascii_encoding(".json"@);
    lemma_ascii_encoding(".jsonl"@);
    assert(ascii_bytes(".json"@) =~= json_suffix());
    let name = run_id + ascii_bytes(".json"@);
    assert(name.subrange(name.len() - 5, name.len() as int) == json_suffix());
    let log = run_id + ascii_bytes(".jsonl"@);
    assert(log.last() == 108u8);
    assert(json_suffix().last() == 110u8);
    if json_suffix().is_suffix_of(log) {
        assert(log.subrange(log.len() - 5, log.len() as int)[4] == 110u8);
    }
}

/// The files of every run that begins lie in the directory of the project's runs, wherever the
/// project is.
pub proof fn law_new_runs_lie_in_runs_dir(project: PathView, stamp: Seq<char>)
    requires
        time_digits(stamp),
    ensures
        ({
            let within = runs_dir_path(project).text + separator(project.style);
            let run_id = "run_"@ + stamp;
            &&& run_manifest_text(project, run_id) == within + run_id + ".json"@
            &&& run_log_text(project, run_id) == within + run_id + ".jsonl"@
        }),
{
    reveal_strlit("run_");
    let run_id = "run_"@ + stamp;
    assert forall|i: int| 0 <= i < run_id.len() implies !slash(#[trigger] run_id[i]) by {
        if i < 4 {
            assert(run_id[i] == "run_"@[i]);
        } else {
            assert(run_id[i] == stamp[i - 4]);
            assert(digit(stamp[i - 4]) || stamp[i - 4] == '+');
        }
    }
    lemma_run_fits(project, run_id);
    law_run_files_lie_in_runs_dir(project, run_id);
}

/// A run begins under the identifier and at the time that were given, as a first analysis that is
/// running: no thread, no completion and no error are known yet.
pub proof fn law_run_begins_as_given(
    project: PathView,
    run_id: Seq<char>,
    started_at: Seq<char>,
)
    ensures
        ({
            let run = new_run_view(project, run_id, started_at);
            &&& run.id == run_id
            &&& run.kind == "initial_analysis"@
            &&& run.status == RunStatus::Running
            &&& run.codex_thread_id is None
            &&& run.started_at == started_at
            &&& run.completed_at is None
            &&& run.log_path == run_log_text(project, run_id)
            &&& run.error is None
        }),
{
}

/// A run is completed if and only if the agent succeeded, whatever else is known, and has failed
/// otherwise, with the whole exit status in its error. It takes over the thread and the time as
/// they stand, and everything else stays what it was.
pub proof fn law_run_ends_as_the_agent_did(
    run: RunView,
    thread_id: Option<Seq<char>>,
    completed_at: Seq<char>,
    success: bool,
    status: Seq<char>,
)
    ensures
        ({
            let end = finished_run_view(run, thread_id, completed_at, success, status);
            &&& success <==> end.status == RunStatus::Completed
            &&& !success <==> end.status == RunStatus::Failed
            &&& success ==> end.error == run.error
            &&& !success ==> end.error == Some("codex exited with "@ + status)
            &&& end.codex_thread_id == thread_id
            &&& end.completed_at == Some(completed_at)
            &&& end.id == run.id
            &&& end.kind == run.kind
            &&& end.started_at == run.started_at
            &&& end.log_path == run.log_path
        }),
{
}

/// Names are ordered by the first byte in which they differ, and a name comes before those that go
/// on from it.
pub proof fn law_first_difference_decides(
    common: Seq<u8>,
    x: u8,
    a: Seq<u8>,
    y: u8,
    b: Seq<u8>,
)
    ensures
        x != y ==> (bytes_before(common + seq![x] + a, common + seq![y] + b) <==> x < y),
        bytes_before(common, common + b) <==> b.len() > 0,
        !bytes_before(common + b, common),
{
    let none = Seq::<u8>::empty();
    let left = seq![x] + a;
    let right = seq![y] + b;
    assert(common + seq![x] + a == common + left);
    assert(common + seq![y] + b == common + right);
    lemma_before_after_prefix(common, left, right);
    lemma_before_after_prefix(common, none, b);
    lemma_before_after_prefix(common, b, none);
    assert(common + none == common);
    assert(left[0] == x && right[0] == y);
}

/// A manifest is told by its name alone: at least one byte, and then the bytes of `.json`.
pub proof fn law_manifest_ends_in_json(name: Seq<u8>)
    ensures
        manifest_name(name) <==> name.len() > 5 && name[name.len() - 5] == 46u8 && name[name.len()
            - 4] == 106u8 && name[name.len() - 3] == 115u8 && name[name.len() - 2] == 111u8
            && name[name.len() - 1] == 110u8,
{
    if name.len() > 5 {
        let n = name.len() as int;
        let tail = name.subrange(n - 5, n);
        assert(tail[0] == name[n - 5] && tail[1] == name[n - 4] && tail[2] == name[n - 3] && tail[3]
            == name[n - 2] && tail[4] == name[n - 1]);
        if tail[0] == 46u8 && tail[1] == 106u8 && tail[2] == 115u8 && tail[3] == 111u8 && tail[4]
            == 110u8 {
            assert(tail == json_suffix());
        }
        if json_suffix().is_suffix_of(name) {
            assert(tail == json_suffix());
        }
    }
}

/// A run is seen by all that it holds.
pub proof fn law_runs_are_seen_whole(run: RunState)
    ensures
        run@.id == run.id@,
        run@.kind == run.kind@,
        run@.status == run.status,
        run@.codex_thread_id == opt_text(run.codex_thread_id),
        run@.started_at == run.started_at@,
        run@.completed_at == opt_text(run.completed_at),
        run@.log_path == run.log_path@,
        run@.error == opt_text(run.error),
{
}

} // verus!
