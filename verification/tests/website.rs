use gtm_agent::error::AppError;
use gtm_agent::paths::{FilePath, PathStyle};
use gtm_agent::slug::{slug_of, slugify};
use gtm_agent::website::{
    capitalize, default_project_path, normalize_url, project_label, project_name_from_url,
    project_path_in,
};

fn unix(text: &str) -> FilePath {
    FilePath::new(text.to_string(), PathStyle::Unix)
}

#[test]
fn normalizes_urls() {
    assert_eq!(normalize_url("example.com").unwrap(), "https://example.com");
    assert!(normalize_url("not-a-host").is_err());
}

#[test]
fn derives_project_names_and_slugs() {
    assert_eq!(project_name_from_url("https://www.acme.ai"), "Acme");
    assert_eq!(slugify("Acme GTM Agent!"), "acme-gtm-agent");
}

#[test]
fn keeps_a_scheme_and_drops_white_space() {
    assert_eq!(normalize_url("  http://a.b/c \n").unwrap(), "http://a.b/c");
    assert_eq!(normalize_url("\u{3000}a.b\u{a0}").unwrap(), "https://a.b");
    assert_eq!(normalize_url("ftp://a.b").unwrap_err().message(),
        "invalid input: website URL must include a valid host");
}

#[test]
fn refuses_empty_and_dotless_urls() {
    let empty = normalize_url(" \t ").unwrap_err();
    assert!(matches!(&empty, AppError::Invalid(detail) if detail == "website URL is required"));
    let dotless = normalize_url("https:///a.b").unwrap_err();
    assert!(matches!(
        &dotless,
        AppError::Invalid(detail) if detail == "website URL must include a valid host"
    ));
    assert!(normalize_url("localhost/a.b").is_err());
}

#[test]
fn normalizing_is_stable() {
    for input in ["example.com", " http://x.y ", "a.b://c/d", "https://é.fr/?q=1"] {
        let once = normalize_url(input).unwrap();
        assert_eq!(normalize_url(&once).unwrap(), once);
        assert_eq!(once.trim(), once);
    }
}

#[test]
fn takes_the_piece_between_two_scheme_marks() {
    assert_eq!(normalize_url("https://foo.com://bar").unwrap(), "https://foo.com://bar");
    assert_eq!(project_name_from_url("https://foo://bar.baz"), "Foo");
    assert_eq!(project_label("https://foo://bar.baz"), "foo");
}

#[test]
fn strips_every_www_and_capitalizes() {
    assert_eq!(project_name_from_url("https://www.www.acme.ai/path"), "Acme");
    assert_eq!(project_name_from_url("acme.ai"), "Acme");
    assert_eq!(project_name_from_url("https://.com"), "Product");
    assert_eq!(project_name_from_url(""), "Product");
    assert_eq!(project_name_from_url("https://ßtreet.de"), "SStreet");
    assert_eq!(project_name_from_url("https://été.fr"), "Été");
    assert_eq!(capitalize("label", "XY"), "XYabel");
    assert_eq!(capitalize("", "XY"), "Product");
}

#[test]
fn scheme_and_www_leave_the_name() {
    let name = project_name_from_url("https://shop.example.com");
    assert_eq!(name, "Shop");
    assert_eq!(project_name_from_url("http://shop.example.com"), name);
    assert_eq!(project_name_from_url("https://www.shop.example.com"), name);
}

#[test]
fn slugs_have_one_form() {
    assert_eq!(slugify("--Hello,   World--"), "hello-world");
    assert_eq!(slugify("ÀB c"), "b-c");
    assert_eq!(slugify("\u{212a}elvin"), "kelvin");
    assert_eq!(slugify("!!!"), "");
    assert_eq!(slugify(""), "");
    assert_eq!(slug_of("a1--b2"), "a1-b2");
    assert_eq!(slug_of("A b"), "A-b");
}

#[test]
fn slugs_are_stable() {
    for value in ["Acme GTM Agent!", "x", "9 lives", "É"] {
        let once = slugify(value);
        assert_eq!(slugify(&once), once);
        assert!(!once.contains('/'));
    }
}

#[test]
fn places_projects_below_the_home_directory() {
    assert_eq!(
        project_path_in(Some(unix("/home/me")), " www.Acme.ai ").unwrap(),
        "/home/me/GTM Agent Projects/acme"
    );
    assert_eq!(
        project_path_in(Some(unix("/")), "acme.ai").unwrap(),
        "/GTM Agent Projects/acme"
    );
    assert_eq!(
        project_path_in(None, "acme.ai").unwrap_err().message(),
        "invalid input: cannot locate home directory"
    );
    assert_eq!(
        project_path_in(None, "").unwrap_err().message(),
        "invalid input: website URL is required"
    );
}

#[test]
fn places_projects_on_windows() {
    let home = FilePath::new("C:\\Users\\me".to_string(), PathStyle::Windows);
    assert_eq!(
        project_path_in(Some(home), "acme.ai").unwrap(),
        "C:\\Users\\me\\GTM Agent Projects\\acme"
    );
}

#[test]
fn asks_the_environment_for_the_home_directory() {
    match default_project_path("acme.ai") {
        Ok(path) => {
            let separator = std::path::MAIN_SEPARATOR;
            assert!(path.ends_with(&format!("{separator}GTM Agent Projects{separator}acme")));
        }
        Err(error) => assert_eq!(error.message(), "invalid input: cannot locate home directory"),
    }
    assert_eq!(
        default_project_path("acme").unwrap_err().message(),
        "invalid input: website URL must include a valid host"
    );
}

#[test]
fn https_is_the_default() {
    assert_eq!(
        normalize_url("example.com/a").unwrap(),
        normalize_url("https://example.com/a").unwrap()
    );
    assert_eq!(normalize_url(" example.com\n").unwrap(), normalize_url("example.com").unwrap());
}

#[test]
fn the_host_decides_the_name() {
    let name = project_name_from_url("https://shop.example.com");
    for url in [
        "https://shop.example.com/",
        "https://shop.example.com/a.b/c?d=e#f",
        "https://shop.example.com//x",
        "http://shop.example.com/://y",
    ] {
        assert_eq!(project_name_from_url(url), name);
    }
    assert_eq!(project_name_from_url("https://foo:/bar"), "Foo:");
    assert_eq!(project_name_from_url("https://foo://bar"), "Foo");
}

#[test]
fn names_hold_neither_slashes_nor_dots() {
    for url in ["https://a.b/c.d", "..", "/", "www./x", "https://ŉa.b/c", "a/b.c", "ﬁ.x/y"] {
        let name = project_name_from_url(url);
        assert!(!name.is_empty());
        assert!(!name.contains('/'));
        assert!(!name.contains('.'));
    }
}

#[test]
fn the_case_of_ascii_letters_leaves_the_slug() {
    for value in ["Acme GTM Agent!", "ÀbÇ dÉf", "ΑΣ aΣ Σb", "İstanbul \u{212a}elvin", "x1-Y2", ""] {
        let slug = slugify(value);
        assert_eq!(slugify(&value.to_ascii_uppercase()), slug);
        assert_eq!(slugify(&value.to_ascii_lowercase()), slug);
    }
}

#[test]
fn slugs_are_made_of_the_slugs_of_their_parts() {
    assert_eq!(slug_of("ab cd"), "ab-cd");
    assert_eq!(slug_of("a-b!c-d"), format!("{}-{}", slug_of("a-b"), slug_of("c-d")));
    assert_eq!(slug_of("?!ab"), slug_of("ab"));
    assert_eq!(slug_of("ab !"), slug_of("ab"));
    assert_eq!(slug_of("! ?"), "");
}
