use gtm_agent::paths::{
    config_path, data_dir, events_path, home_of, run_log_path, run_manifest_path, runs_dir,
    style_of, FilePath, PathStyle,
};
use gtm_agent::text::{
    begins_with, chars_of, copy_opt, find, has_char, is_white_space, same_text, strip_prefixes,
    text_after, text_before, trim,
};

#[test]
fn white_space_is_that_of_unicode() {
    for code in 0..=0x10ffff_u32 {
        if let Some(c) = char::from_u32(code) {
            assert_eq!(is_white_space(c), c.is_whitespace());
        }
    }
}

#[test]
fn trims_as_the_standard_library_does() {
    for s in ["", " ", "a", " a b\t", "\u{2028}é\u{85}", "\u{200b}x "] {
        assert_eq!(trim(s), s.trim());
    }
}

#[test]
fn finds_by_characters() {
    assert_eq!(find("éé://x", "://"), Some(2));
    assert_eq!(find("abc", "d"), None);
    assert_eq!(find("", "d"), None);
    assert_eq!(find("abc", ""), Some(0));
    assert_eq!(find("", ""), Some(0));
    assert_eq!(find("aab", "ab"), Some(1));
}

#[test]
fn splits_at_the_first_separator() {
    assert_eq!(text_before("a/b/c", "/"), "a");
    assert_eq!(text_before("abc", "/"), "abc");
    assert_eq!(text_after("a/b/c", "/"), Some("b/c"));
    assert_eq!(text_after("abc", "/"), None);
    assert_eq!(text_after("a/", "/"), Some(""));
}

#[test]
fn compares_and_strips() {
    assert!(begins_with("https://x", "https://"));
    assert!(!begins_with("http", "https://"));
    assert!(begins_with("x", ""));
    assert!(same_text("é", "é"));
    assert!(!same_text("a", "ab"));
    assert!(!same_text("b", "a"));
    assert!(has_char("a.b", '.'));
    assert!(!has_char("ab", '.'));
    assert_eq!(strip_prefixes("www.www.x", "www."), "x");
    assert_eq!(strip_prefixes("www", "www."), "www");
    assert_eq!(strip_prefixes("x", ""), "x");
    assert_eq!(chars_of("aé"), vec!['a', 'é']);
    assert_eq!(copy_opt(&Some("x".to_string())), Some("x".to_string()));
    assert_eq!(copy_opt(&None), None);
}

fn unix(text: &str) -> FilePath {
    FilePath::new(text.to_string(), PathStyle::Unix)
}

fn windows(text: &str) -> FilePath {
    FilePath::new(text.to_string(), PathStyle::Windows)
}

#[test]
fn joins_paths_as_the_standard_library_does() {
    for base in ["", "/", "a", "a/", "/tmp/project", ".", "C:", "a\\", "\\\\s\\h\\x", "\\\\?\\C:\\a\\\\b"] {
        for part in ["", "b", "/b", "b/c", ".gtm-agent/runs", "//b", "\\b", "C:b", "x/../y"] {
            let expected = std::path::Path::new(base).join(part);
            let style = style_of(std::path::MAIN_SEPARATOR);
            let joined = FilePath::new(base.to_string(), style).join(part);
            assert_eq!(joined.text, expected.to_string_lossy());
            assert_eq!(joined.style, style);
        }
    }
}

#[test]
fn joins_paths_of_windows() {
    for (base, part, expected) in [
        ("C:\\p", "a.md", "C:\\p\\a.md"),
        ("C:\\p\\", "a.md", "C:\\p\\a.md"),
        ("C:/p/", "a.md", "C:/p/a.md"),
        ("C:\\p", ".gtm-agent/runs", "C:\\p\\.gtm-agent/runs"),
        ("C:", "a.md", "C:a.md"),
        ("", "a.md", "a.md"),
        ("C:\\p", "D:\\q", "D:\\q"),
        ("C:\\p", "D:q", "D:q"),
        ("C:\\p", "\\q", "C:\\q"),
        ("C:\\p", "/q", "C:/q"),
        ("p", "\\q", "\\q"),
        ("C:\\p", "\\\\server\\share", "\\\\server\\share"),
        ("\\\\server\\share", "a.md", "\\\\server\\share\\a.md"),
        ("\\\\s\\h\\x", "\\q", "\\\\s\\h\\q"),
        ("\\\\.\\COM1\\x", "\\q", "\\\\.\\COM1\\q"),
        ("//?/C:/a", "\\q", "//?/C:\\q"),
        ("\\\\x", "q", "\\\\x\\q"),
        ("\\\\x", "\\q", "\\q"),
        ("C:\\a", "\\\\x", "C:\\\\x"),
        ("C:\\a", "\\\\x\\", "C:\\\\x\\"),
        ("C:", "//b", "C://b"),
        ("C:\\a", "\\\\.\\COM1", "\\\\.\\COM1"),
        ("C:\\a", "\\\\?\\D:\\x", "\\\\?\\D:\\x"),
    ] {
        assert_eq!(windows(base).join(part).text, expected);
    }
}

#[test]
fn puts_verbatim_paths_together_anew() {
    for (base, part, expected) in [
        ("\\\\?\\C:\\p", ".gtm-agent/runs", "\\\\?\\C:\\p\\.gtm-agent\\runs"),
        ("\\\\?\\C:\\a\\\\b", "x/../y", "\\\\?\\C:\\a\\b\\y"),
        ("\\\\?\\C:\\a\\b\\", "x", "\\\\?\\C:\\a\\b\\x"),
        ("\\\\?\\C:\\a/", "x", "\\\\?\\C:\\a/\\x"),
        ("\\\\?\\C:", "x", "\\\\?\\C:\\x"),
        ("\\\\?\\C:\\", "./x//y/", "\\\\?\\C:\\x\\y"),
        ("\\\\?\\C:\\a", "..", "\\\\?\\C:\\"),
        ("\\\\?\\C:", "..", "\\\\?\\C:"),
        ("\\\\?\\C:\\a\\..", "..", "\\\\?\\C:\\a\\.."),
        ("\\\\?\\C:\\a\\.\\b", "x", "\\\\?\\C:\\a\\.\\b\\x"),
        ("\\\\?\\C:\\a", "", "\\\\?\\C:\\a\\"),
        ("\\\\?\\C:\\a", "/q", "\\\\?\\C:\\q"),
        ("\\\\?\\C:\\a", "/", "\\\\?\\C:\\"),
        ("\\\\?\\pics\\a", "\\q", "\\\\?\\pics\\q"),
        ("\\\\?\\UNC\\s\\h\\a", "\\q", "\\\\?\\UNC\\s\\h\\q"),
        ("\\\\?\\UNC\\s\\h", "q", "\\\\?\\UNC\\s\\h\\q"),
        ("\\\\?\\C:\\a", "D:x", "D:x"),
    ] {
        assert_eq!(windows(base).join(part).text, expected);
    }
}

#[test]
fn separators_tell_the_style() {
    assert_eq!(style_of('/'), PathStyle::Unix);
    assert_eq!(style_of('\\'), PathStyle::Windows);
    let home = home_of(Some("C:\\me".to_string()), '\\').unwrap();
    assert_eq!(home.text, "C:\\me");
    assert_eq!(home.style, PathStyle::Windows);
    assert_eq!(home_of(Some("/me".to_string()), '/').unwrap().style, PathStyle::Unix);
    assert!(home_of(None, '/').is_none());
}

#[test]
fn names_the_files_of_a_project() {
    let p = unix("/p");
    assert_eq!(data_dir(&p), "/p/.gtm-agent");
    assert_eq!(runs_dir(&p).text, "/p/.gtm-agent/runs");
    assert_eq!(config_path(&p), "/p/.gtm-agent/config.json");
    assert_eq!(events_path(&p), "/p/.gtm-agent/events.jsonl");
    assert_eq!(run_manifest_path(&p, "run_1"), "/p/.gtm-agent/runs/run_1.json");
    assert_eq!(run_log_path(&p, "run_1"), "/p/.gtm-agent/runs/run_1.jsonl");
    assert_eq!(run_manifest_path(&p, "/run_1"), "/run_1.json");
    assert_eq!(run_manifest_path(&p, ""), "/p/.gtm-agent/runs/.json");
    assert_eq!(
        run_manifest_path(&windows("C:\\p"), "run_1"),
        "C:\\p\\.gtm-agent/runs\\run_1.json"
    );
}

#[test]
fn runs_share_no_file() {
    for p in [unix("/p"), unix(""), windows("C:\\p"), windows("\\\\?\\C:\\p"), windows("\\\\?\\UNC\\s"), windows("\\\\?\\UNC"), windows("\\\\?")] {
        assert_ne!(run_manifest_path(&p, "run_1"), run_manifest_path(&p, "run_2"));
        assert_ne!(run_manifest_path(&p, ""), run_manifest_path(&p, "run_2"));
        assert_ne!(run_log_path(&p, "run_1"), run_log_path(&p, "run_2"));
        assert_ne!(run_log_path(&p, "run_1"), run_manifest_path(&p, "run_1"));
        let runs = runs_dir(&p).text;
        let separator = if p.style == PathStyle::Unix { "/" } else { "\\" };
        assert_eq!(run_manifest_path(&p, "run_1"), format!("{runs}{separator}run_1.json"));
        assert_eq!(run_log_path(&p, "run_1"), format!("{runs}{separator}run_1.jsonl"));
    }
}
