use gtm_agent::codex::missing_codex;
use gtm_agent::documents::{
    agents_file, context_docs, doc_paths, doc_specs, initial_analysis_prompt, pending_doc,
};
use gtm_agent::error::AppError;
use gtm_agent::event::{event_line, event_line_now, payload_value, Detail, Event};
use gtm_agent::paths::{FilePath, PathStyle};
use gtm_agent::website::project_path_in;
use gtm_agent::project::{
    created_event, new_project_config, project_config, project_state, setup_steps,
    workspace_files, CreateProjectRequest, ProjectConfig, SetupStep,
};

fn unix(text: &str) -> FilePath {
    FilePath::new(text.to_string(), PathStyle::Unix)
}

/// Asserts the form of a date and time of RFC 3339 with a year of four digits, in UTC.
fn assert_date_time(text: &str) {
    let chars: Vec<char> = text.chars().collect();
    assert!(chars.len() >= 25);
    for (i, expected) in "0000-00-00T00:00:00".chars().enumerate() {
        if expected == '0' {
            assert!(chars[i].is_ascii_digit());
        } else {
            assert_eq!(chars[i], expected);
        }
    }
    let fraction = &text[19..text.len() - 6];
    if !fraction.is_empty() {
        assert!([4, 7, 10].contains(&fraction.len()));
        assert!(fraction.starts_with('.'));
        assert!(fraction[1..].chars().all(|c| c.is_ascii_digit()));
    }
    assert_eq!(&text[text.len() - 6..], "+00:00");
}

fn config() -> ProjectConfig {
    ProjectConfig {
        id: "project_test".to_string(),
        name: "Example".to_string(),
        website_url: "https://example.com".to_string(),
        path: "/p".to_string(),
        created_at: "then".to_string(),
        updated_at: "then".to_string(),
    }
}

const PROMPT: &str = r#"# GTM Agent Initial Analysis

You are running inside a local Codex workspace for GTM Agent.

Analyze this website: https://example.com

Rewrite exactly these files with concrete, useful findings:
- product-information.md
- marketing-strategy.md
- competitor-analysis.md
- brand-voice.md

Keep the files concise but specific enough that future GTM tasks can use them as source context. Include uncertainty where evidence is weak. Do not create outreach drafts, schedules, plugins, or extra strategy files. Do not post publicly or send messages.

Append progress and completion events to `.gtm-agent/events.jsonl` as JSON lines with eventType, summary, payload, and createdAt.
"#;

const AGENTS: &str = "# GTM Agent Project: Example\n\nThis folder is a local Codex workspace managed by GTM Agent.\n\n## Source of truth\n\n- `product-information.md`: product, features, proof points, and use cases.\n- `marketing-strategy.md`: ICP, personas, pain points, positioning, and channels.\n- `competitor-analysis.md`: competitors, alternatives, and positioning gaps.\n- `brand-voice.md`: voice, tone, vocabulary, and public messaging rules.\n\n## Event protocol\n\nWhen GTM Agent asks you to report progress, append JSON lines to `.gtm-agent/events.jsonl` with `eventType`, `summary`, `payload`, and `createdAt`.\n\nWebsite: https://example.com\n";

#[test]
fn words_the_prompt_and_the_agents_file() {
    assert_eq!(initial_analysis_prompt(&config()), PROMPT);
    assert_eq!(agents_file("Example", "https://example.com"), AGENTS);
    for doc in doc_specs() {
        assert!(PROMPT.contains(doc.file_name));
        assert!(AGENTS.contains(doc.file_name));
    }
}

#[test]
fn lists_the_documents() {
    let docs: Vec<(&str, &str, &str)> =
        doc_specs().into_iter().map(|d| (d.key, d.file_name, d.title)).collect();
    assert_eq!(
        docs,
        vec![
            ("product_information", "product-information.md", "Product Information"),
            ("marketing_strategy", "marketing-strategy.md", "Marketing Strategy"),
            ("competitor_analysis", "competitor-analysis.md", "Competitor Analysis"),
            ("brand_voice", "brand-voice.md", "Brand Voice"),
        ]
    );
    assert_eq!(doc_paths(&unix("/p"))[3], "/p/brand-voice.md");
    assert_eq!(doc_paths(&unix("/p")).len(), 4);
    assert_eq!(
        pending_doc("Brand Voice", "https://example.com"),
        "# Brand Voice\n\n_Status: pending Codex analysis_\n\nSource URL: https://example.com\n\n"
    );
}

#[test]
fn unreadable_documents_are_empty() {
    let docs = context_docs(&vec![Some("one".to_string()), None]);
    assert_eq!(docs.len(), 4);
    assert_eq!(docs[0].content, "one");
    assert_eq!(docs[0].key, "product_information");
    assert_eq!(docs[1].content, "");
    assert_eq!(docs[3].content, "");
    assert_eq!(docs[3].title, "Brand Voice");
}

#[test]
fn documents_are_read_where_they_are_written() {
    let files = workspace_files(&unix("/p"), &config());
    let paths = doc_paths(&unix("/p"));
    assert_eq!(files.len(), 5);
    assert_eq!(files[0].path, "/p/AGENTS.md");
    assert_eq!(files[0].body, AGENTS);
    let contents: Vec<Option<String>> = files[1..].iter().map(|f| Some(f.body.clone())).collect();
    for (file, path) in files[1..].iter().zip(paths.iter()) {
        assert_eq!(&file.path, path);
    }
    let state = project_state(config(), missing_codex(), &contents, None);
    for (doc, file) in state.docs.iter().zip(files[1..].iter()) {
        assert_eq!(doc.content, file.body);
        assert_eq!(doc.content, pending_doc(&doc.title, "https://example.com"));
    }
    assert_eq!(state.config.id, "project_test");
    assert!(state.latest_run.is_none());
    assert_eq!(state.codex.error.as_deref(), Some("codex binary not found"));
}

#[test]
fn sets_up_a_project_in_order() {
    let steps = setup_steps(&unix("/p"), &config());
    assert_eq!(steps.len(), 8);
    assert!(matches!(&steps[0], SetupStep::CreateDir { path } if path == "/p/.gtm-agent/runs"));
    assert!(
        matches!(&steps[1], SetupStep::SaveConfig { path } if path == "/p/.gtm-agent/config.json")
    );
    let names: Vec<&str> = steps[2..7]
        .iter()
        .map(|step| match step {
            SetupStep::WriteFile { file } => file.path.as_str(),
            other => panic!("unexpected step {other:?}"),
        })
        .collect();
    assert_eq!(
        names,
        vec![
            "/p/AGENTS.md",
            "/p/product-information.md",
            "/p/marketing-strategy.md",
            "/p/competitor-analysis.md",
            "/p/brand-voice.md"
        ]
    );
    assert!(matches!(
        &steps[7],
        SetupStep::AppendEvent { event } if event.event_type == "project.created"
    ));
}

#[test]
fn configures_a_project() {
    let request = CreateProjectRequest { website_url: " www.acme.ai ".to_string() };
    let made = project_config(&request, Some(unix("/home/me")), "0a", "now").unwrap();
    assert_eq!(made.id, "project_0a");
    assert_eq!(made.name, "Acme");
    assert_eq!(made.website_url, "https://www.acme.ai");
    assert_eq!(made.path, "/home/me/GTM Agent Projects/acme");
    assert_eq!(made.created_at, "now");
    assert_eq!(made.updated_at, "now");
    let missing = project_config(&request, None, "0a", "now").unwrap_err();
    assert_eq!(missing.message(), "invalid input: cannot locate home directory");
}

#[test]
fn configures_a_project_now() {
    let request = CreateProjectRequest { website_url: "acme.ai".to_string() };
    match new_project_config(&request) {
        Ok(made) => {
            let unique = made.id.strip_prefix("project_").unwrap();
            assert_eq!(unique.len(), 32);
            assert!(unique.chars().all(|c| c.is_ascii_digit() || ('a'..='f').contains(&c)));
            assert_eq!(&unique[12..13], "4");
            assert!(["8", "9", "a", "b"].contains(&&unique[16..17]));
            assert_date_time(&made.created_at);
            assert_eq!(made.created_at, made.updated_at);
        }
        Err(error) => assert_eq!(error.message(), "invalid input: cannot locate home directory"),
    }
    let empty = CreateProjectRequest { website_url: "".to_string() };
    assert_eq!(
        new_project_config(&empty).unwrap_err().message(),
        "invalid input: website URL is required"
    );
}

#[test]
fn writes_events_as_lines() {
    let line = event_line(&created_event(&config()), "2026-01-01T00:00:00+00:00");
    assert_eq!(
        line,
        "{\"createdAt\":\"2026-01-01T00:00:00+00:00\",\"eventType\":\"project.created\",\"payload\":{\"websiteUrl\":\"https://example.com\"},\"summary\":\"Created GTM workspace for Example\"}\n"
    );
}

#[test]
fn events_are_read_back_as_written() {
    let event = Event {
        event_type: "a\nb".to_string(),
        summary: "\"quoted\" \\ \u{7} é".to_string(),
        payload: vec![
            Detail { name: "one".to_string(), value: Some("x\ny".to_string()) },
            Detail { name: "two".to_string(), value: None },
            Detail { name: "one".to_string(), value: Some("z".to_string()) },
        ],
    };
    let line = event_line(&event, "t");
    assert_eq!(line.matches('\n').count(), 1);
    assert!(line.ends_with('\n'));
    let value: serde_json::Value = serde_json::from_str(&line).unwrap();
    assert_eq!(value["eventType"], "a\nb");
    assert_eq!(value["summary"], "\"quoted\" \\ \u{7} é");
    assert_eq!(value["createdAt"], "t");
    assert_eq!(value["payload"]["one"], "z");
    assert!(value["payload"]["two"].is_null());
    assert_eq!(value["payload"].as_object().unwrap().len(), 2);
    assert_eq!(payload_value(&event.payload), value["payload"]);
}

#[test]
fn events_of_now_carry_the_time() {
    let line = event_line_now(&created_event(&config()));
    let value: serde_json::Value = serde_json::from_str(&line).unwrap();
    assert_date_time(value["createdAt"].as_str().unwrap());
    assert_eq!(value["eventType"], "project.created");
}

#[test]
fn errors_have_messages() {
    let text = || "x".to_string();
    assert_eq!(AppError::Io(text()).message(), "filesystem error: x");
    assert_eq!(AppError::Json(text()).message(), "json error: x");
    assert_eq!(AppError::Invalid(text()).message(), "invalid input: x");
    assert_eq!(AppError::Codex(text()).message(), "codex error: x");
    assert_eq!(AppError::Open(text()).message(), "open error: x");
}

#[test]
fn messages_identify_errors() {
    let messages = [
        AppError::Io("x".to_string()).message(),
        AppError::Json("x".to_string()).message(),
        AppError::Invalid("x".to_string()).message(),
        AppError::Codex("x".to_string()).message(),
        AppError::Open("x".to_string()).message(),
        AppError::Open("y".to_string()).message(),
    ];
    for i in 0..messages.len() {
        for j in 0..i {
            assert_ne!(messages[i], messages[j]);
        }
    }
}

#[test]
fn no_file_of_a_project_is_written_twice() {
    let windows = |text: &str| FilePath::new(text.to_string(), PathStyle::Windows);
    for project in [unix("/p"), unix(""), unix("/p/"), windows("C:"), windows("\\\\?\\C:\\p")] {
        let files = workspace_files(&project, &config());
        for i in 0..files.len() {
            for j in 0..i {
                assert_ne!(files[i].path, files[j].path);
            }
        }
    }
}

#[test]
fn a_project_lies_where_its_input_says() {
    let home = || Some(unix("/home/me"));
    let request = CreateProjectRequest { website_url: " http://www.Big-Shop.example/x ".to_string() };
    let made = project_config(&request, home(), "0a", "now").unwrap();
    assert_eq!(made.path, "/home/me/GTM Agent Projects/big-shop");
    assert_eq!(project_path_in(home(), &request.website_url).unwrap(), made.path);
    assert_eq!(project_path_in(home(), &made.website_url).unwrap(), made.path);
}

#[test]
fn prompts_tell_websites_apart() {
    let mut other = config();
    other.website_url = "https://example.org".to_string();
    assert_ne!(initial_analysis_prompt(&config()), initial_analysis_prompt(&other));
    assert_eq!(initial_analysis_prompt(&config()), initial_analysis_prompt(&config()));
}
