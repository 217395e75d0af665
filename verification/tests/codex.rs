use gtm_agent::codex::{
    codex_exec_args, launch_binary, missing_codex, open_command, path_from_shell, probed_codex,
    CodexDetection, CodexSearch, Probe, ProgramOutput, SearchAction, SearchReport,
};
use gtm_agent::transcript::{
    codex_thread_id_from_line, note_thread, relay_stderr, relay_stdout, thread_of_message,
};

#[test]
fn parses_codex_thread_started_event() {
    let line = r#"{"type":"thread.started","thread_id":"019f2957-b734-7211-9bbc-f74f5980d6f3"}"#;
    assert_eq!(
        codex_thread_id_from_line(line).as_deref(),
        Some("019f2957-b734-7211-9bbc-f74f5980d6f3")
    );
}

#[test]
fn ignores_non_json_and_other_events() {
    assert!(codex_thread_id_from_line("warning").is_none());
    assert!(codex_thread_id_from_line(r#"{"type":"turn.started"}"#).is_none());
}

#[test]
fn ignores_threads_that_are_no_text() {
    assert!(codex_thread_id_from_line(r#"{"type":"thread.started","thread_id":7}"#).is_none());
    assert!(codex_thread_id_from_line(r#"{"type":"thread.started"}"#).is_none());
    assert!(codex_thread_id_from_line(r#"["type","thread.started"]"#).is_none());
    assert!(codex_thread_id_from_line(r#"{"type":["thread.started"],"thread_id":"x"}"#).is_none());
}

#[test]
fn builds_codex_exec_args_with_global_cd_before_exec() {
    let args = codex_exec_args("/tmp/project", "analyze");
    assert_eq!(
        args,
        vec![
            "-C",
            "/tmp/project",
            "exec",
            "--json",
            "--skip-git-repo-check",
            "--ignore-user-config",
            "analyze"
        ]
    );
}

#[test]
fn reads_the_thread_of_a_message() {
    assert_eq!(thread_of_message(Some("thread.started"), Some("t")), Some("t".to_string()));
    assert_eq!(thread_of_message(Some("thread.started"), None), None);
    assert_eq!(thread_of_message(Some("thread.ended"), Some("t")), None);
    assert_eq!(thread_of_message(None, Some("t")), None);
}

#[test]
fn the_last_announced_thread_counts() {
    let mut thread = None;
    let line = r#"{"type":"thread.started","thread_id":"a"}"#;
    let heard = relay_stdout(line);
    assert_eq!(heard.entry, format!("{line}\n"));
    note_thread(&mut thread, heard.thread_id);
    assert_eq!(thread.as_deref(), Some("a"));
    let heard = relay_stdout("noise");
    assert_eq!(heard.entry, "noise\n");
    assert_eq!(heard.thread_id, None);
    note_thread(&mut thread, heard.thread_id);
    assert_eq!(thread.as_deref(), Some("a"));
    note_thread(&mut thread, relay_stdout(r#"{"thread_id":"b","type":"thread.started"}"#).thread_id);
    assert_eq!(thread.as_deref(), Some("b"));
}

#[test]
fn complaints_are_logged_as_one_line() {
    let entry = relay_stderr("bad \"thing\"\u{1}\nhere");
    assert_eq!(
        entry,
        "{\"message\":\"bad \\\"thing\\\"\\u0001\\nhere\",\"type\":\"stderr\"}\n"
    );
    assert_eq!(codex_thread_id_from_line(entry.trim_end()), None);
    let value: serde_json::Value = serde_json::from_str(&entry).unwrap();
    assert_eq!(value["message"], "bad \"thing\"\u{1}\nhere");
}

fn output(success: bool, stdout: &str, stderr: &str) -> SearchReport {
    SearchReport::Ran(Ok(ProgramOutput {
        success,
        stdout: stdout.as_bytes().to_vec(),
        stderr: stderr.as_bytes().to_vec(),
    }))
}

fn asked_path(search: &CodexSearch) -> String {
    match search.action() {
        SearchAction::CheckExists { path } => path,
        other => panic!("unexpected action {other:?}"),
    }
}

fn settled(search: CodexSearch) -> CodexDetection {
    match search {
        CodexSearch::Settled { detection } => detection,
        other => panic!("unexpected stage {other:?}"),
    }
}

#[test]
fn the_environment_names_the_first_candidate() {
    let search = CodexSearch::start(Some("/my/codex".to_string()));
    assert_eq!(asked_path(&search), "/my/codex");
    let search = search.step(SearchReport::Exists(false));
    assert_eq!(asked_path(&search), "/Users/maxi.lvn/.local/bin/codex");
    let search = search.step(SearchReport::Exists(false));
    assert_eq!(asked_path(&search), "/opt/homebrew/bin/codex");
    let search = search.step(SearchReport::Exists(true));
    match search.action() {
        SearchAction::Run { command } => {
            assert_eq!(command.program, "/opt/homebrew/bin/codex");
            assert_eq!(command.args, vec!["--version"]);
        }
        other => panic!("unexpected action {other:?}"),
    }
    let detection = settled(search.step(output(true, " codex 1.2 \n", "")));
    assert!(detection.available);
    assert_eq!(detection.path.as_deref(), Some("/opt/homebrew/bin/codex"));
    assert_eq!(detection.version.as_deref(), Some("codex 1.2"));
    assert_eq!(detection.error, None);
}

fn without_candidates() -> CodexSearch {
    let mut search = CodexSearch::start(None);
    for _ in 0..4 {
        search = search.step(SearchReport::Exists(false));
    }
    search
}

#[test]
fn the_shell_is_asked_last() {
    let search = without_candidates();
    match search.action() {
        SearchAction::Run { command } => {
            assert_eq!(command.program, "sh");
            assert_eq!(command.args, vec!["-lc", "command -v codex"]);
        }
        other => panic!("unexpected action {other:?}"),
    }
    let search = search.step(output(true, "/bin/codex\n", ""));
    let detection = settled(search.step(output(false, "", "no way\n")));
    assert!(!detection.available);
    assert_eq!(detection.path.as_deref(), Some("/bin/codex"));
    assert_eq!(detection.version, None);
    assert_eq!(detection.error.as_deref(), Some("no way"));
}

#[test]
fn a_program_may_be_missing() {
    for report in [
        output(false, "/bin/codex", ""),
        output(true, "  \n", ""),
        SearchReport::Ran(Err("no shell".to_string())),
    ] {
        let search = without_candidates().step(report);
        assert!(matches!(search.action(), SearchAction::Stop));
        let detection = settled(search);
        assert!(!detection.available);
        assert_eq!(detection.path, None);
        assert_eq!(detection.error.as_deref(), Some("codex binary not found"));
    }
}

#[test]
fn reports_out_of_turn_change_nothing() {
    let search = CodexSearch::start(None).step(output(true, "/bin/codex", ""));
    assert_eq!(asked_path(&search), "/Users/maxi.lvn/.local/bin/codex");
    let search = without_candidates().step(SearchReport::Exists(true));
    assert!(matches!(search, CodexSearch::AskingShell));
}

#[test]
fn undecodable_output_is_replaced() {
    let search = without_candidates().step(SearchReport::Ran(Ok(ProgramOutput {
        success: true,
        stdout: vec![b'/', 0xff, b'c', b'\n'],
        stderr: Vec::new(),
    })));
    match search {
        CodexSearch::Probing { path } => assert_eq!(path, "/\u{fffd}c"),
        other => panic!("unexpected stage {other:?}"),
    }
}

#[test]
fn describes_what_was_found() {
    assert_eq!(path_from_shell(true, " /x \n").as_deref(), Some("/x"));
    assert_eq!(path_from_shell(false, "/x"), None);
    assert_eq!(path_from_shell(true, "\n"), None);
    let failed = probed_codex("/x".to_string(), Probe::NotRun(" denied ".to_string()));
    assert_eq!(failed.error.as_deref(), Some(" denied "));
    assert_eq!(failed.version, None);
    assert!(!failed.available);
}

#[test]
fn uses_share_one_program() {
    let found = || probed_codex("/x".to_string(), Probe::Complaint("old".to_string()));
    assert_eq!(launch_binary(found()).unwrap(), "/x");
    let command = open_command(found(), "/p").unwrap();
    assert_eq!(command.program, "/x");
    assert_eq!(command.args, vec!["app", "/p"]);
    assert_eq!(
        launch_binary(missing_codex()).unwrap_err().message(),
        "codex error: codex binary not found"
    );
    assert_eq!(
        open_command(missing_codex(), "/p").unwrap_err().message(),
        "open error: codex binary not found"
    );
    let silent = CodexDetection { available: false, path: None, version: None, error: None };
    assert_eq!(
        launch_binary(silent).unwrap_err().message(),
        "codex error: codex binary not found"
    );
}
