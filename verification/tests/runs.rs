use gtm_agent::analysis::{
    settle_now, Action, Analysis, ReaderEnd, Report, Settlement, Stage, WaitEnd,
};
use gtm_agent::codex::{missing_codex, probed_codex, Probe};
use gtm_agent::error::AppError;
use gtm_agent::event::event_line;
use gtm_agent::paths::{FilePath, PathStyle};
use gtm_agent::project::ProjectConfig;
use gtm_agent::runs::{
    begin_run, comes_before, finish_run, is_manifest_name, latest_manifest, new_run, RunStatus,
};

fn unix(text: &str) -> FilePath {
    FilePath::new(text.to_string(), PathStyle::Unix)
}

/// Asserts the form of a date and time of RFC 3339 with a year of four digits, in UTC.
fn assert_date_time(text: &str) {
    let chars: Vec<char> = text.chars().collect();
    assert!(chars.len() >= 25);
    for (i, expected) in "0000-00-00T00:00:00".chars().enumerate() {
        if expected == '0' {
            assert!(chars[i].is_ascii_digit());
        } else {
            assert_eq!(chars[i], expected);
        }
    }
    let fraction = &text[19..text.len() - 6];
    if !fraction.is_empty() {
        assert!([4, 7, 10].contains(&fraction.len()));
        assert!(fraction.starts_with('.'));
        assert!(fraction[1..].chars().all(|c| c.is_ascii_digit()));
    }
    assert_eq!(&text[text.len() - 6..], "+00:00");
}

fn names(list: &[&str]) -> Vec<Vec<u8>> {
    list.iter().map(|name| name.as_bytes().to_vec()).collect()
}

#[test]
fn the_latest_manifest_comes_last() {
    let list = names(&[
        "run_20260101000000.json",
        "run_20260301000000.jsonl",
        "run_20260201000000.json",
        "run_20251231235959.json",
        "zzz",
    ]);
    assert_eq!(latest_manifest(&list), Some(2));
    assert_eq!(latest_manifest(&names(&["a.jsonl", ".json", "json"])), None);
    assert_eq!(latest_manifest(&Vec::new()), None);
    assert_eq!(latest_manifest(&names(&["a.json", "a.json"])), Some(1));
    assert_eq!(latest_manifest(&names(&["b.json", "a.json", "ab.json"])), Some(0));
}

#[test]
fn manifests_are_told_by_their_extension() {
    for name in ["a.json", ".json", "..json", "a.b.json", "json", "a.JSON", "a.jsonl", "é.json", "x"] {
        let expected = std::path::Path::new(name).extension().and_then(|e| e.to_str()) == Some("json");
        assert_eq!(is_manifest_name(&name.as_bytes().to_vec()), expected);
    }
}

#[test]
fn bytes_are_compared_from_the_front() {
    for a in ["", "a", "ab", "b", "B", "é"] {
        for b in ["", "a", "ab", "b", "B", "é"] {
            let before = comes_before(&a.as_bytes().to_vec(), &b.as_bytes().to_vec());
            assert_eq!(before, a.as_bytes() < b.as_bytes());
        }
    }
}

#[test]
fn a_run_begins() {
    let run = new_run(&unix("/p"), "run_1", "now");
    assert_eq!(run.id, "run_1");
    assert_eq!(run.kind, "initial_analysis");
    assert_eq!(run.status, RunStatus::Running);
    assert_eq!(run.codex_thread_id, None);
    assert_eq!(run.started_at, "now");
    assert_eq!(run.completed_at, None);
    assert_eq!(run.log_path, "/p/.gtm-agent/runs/run_1.jsonl");
    assert_eq!(run.error, None);
}

#[test]
fn a_run_begins_now() {
    let run = begin_run(&unix("/p"));
    let stamp = run.id.strip_prefix("run_").unwrap();
    assert_eq!(stamp.len(), 14);
    assert!(stamp.chars().all(|c| c.is_ascii_digit()));
    assert_date_time(&run.started_at);
    assert_eq!(run.log_path, format!("/p/.gtm-agent/runs/{}.jsonl", run.id));
    let run = begin_run(&FilePath::new("\\\\?\\C:\\p\\".to_string(), PathStyle::Windows));
    assert_eq!(run.log_path, format!("\\\\?\\C:\\p\\.gtm-agent\\runs\\{}.jsonl", run.id));
}

#[test]
fn a_run_is_finished() {
    let run = new_run(&unix("/p"), "run_1", "now");
    let good = finish_run(&run, Some("t".to_string()), "later".to_string(), true, "exit status: 0");
    assert_eq!(good.status, RunStatus::Completed);
    assert_eq!(good.error, None);
    assert_eq!(good.codex_thread_id.as_deref(), Some("t"));
    assert_eq!(good.completed_at.as_deref(), Some("later"));
    assert_eq!(good.id, run.id);
    assert_eq!(good.log_path, run.log_path);
    let bad = finish_run(&run, None, "later".to_string(), false, "exit status: 2");
    assert_eq!(bad.status, RunStatus::Failed);
    assert_eq!(bad.error.as_deref(), Some("codex exited with exit status: 2"));
    assert_eq!(bad.started_at, "now");
}

fn analysis() -> Analysis {
    let config = ProjectConfig {
        id: "project_test".to_string(),
        name: "Example".to_string(),
        website_url: "https://example.com".to_string(),
        path: "/p".to_string(),
        created_at: "then".to_string(),
        updated_at: "then".to_string(),
    };
    Analysis::start(unix("/p"), config, new_run(&unix("/p"), "run_1", "now"))
}

fn detecting() -> Analysis {
    analysis().step(Report::Done).step(Report::Done).step(Report::Done)
}

fn launching() -> Analysis {
    let found = probed_codex("/x".to_string(), Probe::Version("1".to_string()));
    detecting().step(Report::Detected(found)).step(Report::Done)
}

fn settlement(success: bool) -> Settlement {
    Settlement {
        wait: WaitEnd::Exited { success, status: "exit status: 0".to_string() },
        stdout: ReaderEnd::Finished,
        stderr: ReaderEnd::Finished,
        thread_id: Ok(Some("t".to_string())),
        completed_at: "later".to_string(),
    }
}

fn saved(analysis: &Analysis) -> (String, RunStatus) {
    match analysis.action() {
        Action::SaveRun { path, run } => (path, run.status),
        other => panic!("unexpected action {other:?}"),
    }
}

fn announced(analysis: &Analysis) -> (String, String) {
    match analysis.action() {
        Action::AppendEvent { event } => (event.event_type, event.summary),
        other => panic!("unexpected action {other:?}"),
    }
}

#[test]
fn a_good_analysis_runs_to_its_end() {
    let manifest = "/p/.gtm-agent/runs/run_1.json".to_string();
    let a = analysis();
    assert_eq!(saved(&a), (manifest.clone(), RunStatus::Running));
    let a = a.step(Report::Done);
    assert_eq!(
        announced(&a),
        ("task.started".to_string(), "Initial analysis started".to_string())
    );
    let a = a.step(Report::Done);
    assert!(matches!(a.action(), Action::HandOver { run } if run.id == "run_1"));
    let a = a.step(Report::Done);
    assert!(matches!(a.action(), Action::Detect));
    let found = probed_codex("/x".to_string(), Probe::Complaint("old".to_string()));
    let a = a.step(Report::Detected(found));
    assert!(matches!(
        a.action(),
        Action::OpenLog { path } if path == "/p/.gtm-agent/runs/run_1.jsonl"
    ));
    let a = a.step(Report::Done);
    match a.action() {
        Action::Launch { command } => {
            assert_eq!(command.program, "/x");
            assert_eq!(command.args[..2], ["-C", "/p"]);
            assert!(command.args[6].contains("Analyze this website: https://example.com\n"));
        }
        other => panic!("unexpected action {other:?}"),
    }
    let a = a.step(Report::Done);
    assert!(matches!(a.action(), Action::Relay));
    let a = a.step(Report::Relayed(settlement(true)));
    assert_eq!(saved(&a), (manifest, RunStatus::Completed));
    let a = a.step(Report::Done);
    match a.action() {
        Action::AppendEvent { event } => {
            assert_eq!(event.event_type, "task.completed");
            assert_eq!(event.summary, "Initial analysis completed");
            assert_eq!(event.payload[0].name, "runId");
            assert_eq!(event.payload[0].value.as_deref(), Some("run_1"));
            assert_eq!(event.payload[1].name, "codexThreadId");
            assert_eq!(event.payload[1].value.as_deref(), Some("t"));
        }
        other => panic!("unexpected action {other:?}"),
    }
    let a = a.step(Report::Done);
    match a.action() {
        Action::Notify { details } => {
            assert_eq!(details[0].name, "projectPath");
            assert_eq!(details[0].value.as_deref(), Some("/p"));
            assert_eq!(details[1].name, "runId");
            assert_eq!(details[1].value.as_deref(), Some("run_1"));
        }
        other => panic!("unexpected action {other:?}"),
    }
    let a = a.step(Report::Failed(AppError::Open("no window".to_string())));
    assert!(matches!(a.action(), Action::Stop));
}

#[test]
fn a_bad_exit_is_recorded_and_announced() {
    let a = launching().step(Report::Done).step(Report::Relayed(settlement(false)));
    assert_eq!(saved(&a).1, RunStatus::Failed);
    let a = a.step(Report::Done).step(Report::Done);
    assert_eq!(
        announced(&a),
        (
            "task.failed".to_string(),
            "Initial analysis failed: codex error: codex exited with exit status: 0".to_string()
        )
    );
    assert!(matches!(a.step(Report::Done).stage, Stage::Ended));
}

fn failure(analysis: Analysis) -> String {
    assert!(matches!(analysis.action(), Action::Notify { .. }));
    announced(&analysis.step(Report::Done)).1
}

#[test]
fn failures_after_the_hand_over_are_announced() {
    assert_eq!(
        failure(detecting().step(Report::Detected(missing_codex()))),
        "Initial analysis failed: codex error: codex binary not found"
    );
    assert_eq!(
        failure(launching().step(Report::NotLaunched("denied".to_string()))),
        "Initial analysis failed: codex error: failed to launch codex: denied"
    );
    assert_eq!(
        failure(launching().step(Report::NoStdout)),
        "Initial analysis failed: codex error: missing codex stdout"
    );
    assert_eq!(
        failure(launching().step(Report::NoStderr)),
        "Initial analysis failed: codex error: missing codex stderr"
    );
    let found = probed_codex("/x".to_string(), Probe::Version("1".to_string()));
    let opening = detecting().step(Report::Detected(found));
    assert_eq!(
        failure(opening.step(Report::Failed(AppError::Io("full".to_string())))),
        "Initial analysis failed: filesystem error: full"
    );
    let saving = launching().step(Report::Done).step(Report::Relayed(settlement(true)));
    assert_eq!(
        failure(saving.step(Report::Failed(AppError::Json("odd".to_string())))),
        "Initial analysis failed: json error: odd"
    );
    let closing = launching()
        .step(Report::Done)
        .step(Report::Relayed(settlement(true)))
        .step(Report::Done);
    assert_eq!(
        failure(closing.step(Report::Failed(AppError::Io("full".to_string())))),
        "Initial analysis failed: filesystem error: full"
    );
}

fn relayed(change: impl Fn(&mut Settlement)) -> String {
    let mut end = settlement(true);
    change(&mut end);
    failure(launching().step(Report::Done).step(Report::Relayed(end)))
}

#[test]
fn the_first_relay_error_counts() {
    assert_eq!(
        relayed(|end| {
            end.wait = WaitEnd::Io("lost".to_string());
            end.stdout = ReaderEnd::Panicked;
        }),
        "Initial analysis failed: filesystem error: lost"
    );
    assert_eq!(
        relayed(|end| {
            end.stdout = ReaderEnd::Panicked;
            end.stderr = ReaderEnd::LogLockPoisoned;
        }),
        "Initial analysis failed: codex error: codex output reader panicked"
    );
    assert_eq!(
        relayed(|end| end.stderr = ReaderEnd::LogLockPoisoned),
        "Initial analysis failed: codex error: log lock poisoned"
    );
    assert_eq!(
        relayed(|end| end.stdout = ReaderEnd::ThreadLockPoisoned),
        "Initial analysis failed: codex error: thread id lock poisoned"
    );
    assert_eq!(
        relayed(|end| end.stderr = ReaderEnd::Io("cut".to_string())),
        "Initial analysis failed: filesystem error: cut"
    );
    assert_eq!(
        relayed(|end| end.thread_id = Err(())),
        "Initial analysis failed: codex error: thread id lock poisoned"
    );
}

#[test]
fn a_start_that_fails_is_refused() {
    let a = analysis().step(Report::Failed(AppError::Io("full".to_string())));
    match a.action() {
        Action::Refuse { error } => assert_eq!(error.message(), "filesystem error: full"),
        other => panic!("unexpected action {other:?}"),
    }
    let a = analysis().step(Report::Done).step(Report::Failed(AppError::Io("full".to_string())));
    assert!(matches!(a.action(), Action::Refuse { .. }));
    assert!(matches!(a.step(Report::Done).stage, Stage::Refused { .. }));
}

#[test]
fn answers_out_of_turn_change_nothing() {
    let a = analysis().step(Report::NoStdout).step(Report::Detected(missing_codex()));
    assert!(matches!(a.stage, Stage::SavingStart));
    let a = detecting().step(Report::Done).step(Report::Relayed(settlement(true)));
    assert!(matches!(a.stage, Stage::Detecting));
    let a = launching().step(Report::Failed(AppError::Io("x".to_string())));
    assert!(matches!(a.stage, Stage::Launching { .. }));
}

#[test]
fn settles_now() {
    let end = settle_now(
        WaitEnd::Exited { success: true, status: "exit status: 0".to_string() },
        ReaderEnd::Finished,
        ReaderEnd::Finished,
        Ok(None),
    );
    assert_date_time(&end.completed_at);
    assert!(matches!(end.thread_id, Ok(None)));
}

#[test]
fn events_of_an_analysis_are_read_back() {
    let a = launching().step(Report::Done).step(Report::Relayed(settlement(true))).step(Report::Done);
    match a.action() {
        Action::AppendEvent { event } => {
            let line = event_line(&event, "t");
            let value: serde_json::Value = serde_json::from_str(&line).unwrap();
            assert_eq!(value["payload"]["runId"], "run_1");
            assert_eq!(value["payload"]["codexThreadId"], "t");
            assert_eq!(value["eventType"], "task.completed");
        }
        other => panic!("unexpected action {other:?}"),
    }
}

#[test]
fn every_answer_is_progress() {
    let mut a = analysis();
    let mut answers = 0;
    while !matches!(a.action(), Action::Stop | Action::Refuse { .. }) {
        let answer = match a.action() {
            Action::Detect => {
                Report::Detected(probed_codex("/x".to_string(), Probe::Version("1".to_string())))
            }
            Action::Relay => Report::Relayed(settlement(false)),
            _ => Report::Done,
        };
        a = a.step(answer);
        answers += 1;
        assert!(answers <= 11);
    }
    assert!(matches!(a.stage, Stage::Ended));
}
