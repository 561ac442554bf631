use git_scanline::cli::{
    answer_is_yes, is_yes, make_output_path, sanitize_char, sanitize_name, skips_directory,
    within_scan_depth,
};

#[test]
fn test_make_output_path() {
    // the base name `report.html` has the stem `report` and the extension `html`
    let result = make_output_path(Some("report"), Some("html"), "my-app");
    assert_eq!(result, "report-my-app.html");
}

#[test]
fn test_make_output_path_special_chars() {
    // the base name `out/report.json` has the stem `report` and the extension `json`
    let result = make_output_path(Some("report"), Some("json"), "my app/v2");
    assert!(result.contains("my-app-v2"), "Special chars should be sanitized");
    assert_eq!(result, "report-my-app-v2.json");
}

#[test]
fn output_names_fall_back_to_hotspot_and_html() {
    assert_eq!(make_output_path(None, None, "repo"), "hotspot-repo.html");
    assert_eq!(make_output_path(Some("x"), None, ""), "x-.html");
    assert_eq!(make_output_path(None, Some("json"), "a_b"), "hotspot-a_b.json");
}

#[test]
fn names_keep_letters_digits_hyphens_and_underscores() {
    assert_eq!(sanitize_name("my-app_2"), "my-app_2");
    assert_eq!(sanitize_name("a b/c\\d:e.f"), "a-b-c-d-e-f");
    assert_eq!(sanitize_name("grüße-日本"), "grüße-日本");
    assert_eq!(sanitize_name(""), "");
    assert_eq!(sanitize_char('x', true), 'x');
    assert_eq!(sanitize_char('-', false), '-');
    assert_eq!(sanitize_char('_', false), '_');
    assert_eq!(sanitize_char('!', false), '-');
    assert_eq!(sanitize_char('!', true), '!');
}

#[test]
fn a_search_passes_over_hidden_and_build_directories() {
    for name in [".git", ".hidden", ".", "node_modules", "vendor", "target", "dist", "build", "__pycache__"] {
        assert!(skips_directory(name), "{name} should be passed over");
    }
    for name in ["src", "app", "Target", "builds", "", "node_modules2"] {
        assert!(!skips_directory(name), "{name} should be searched");
    }
    assert!(within_scan_depth(0));
    assert!(within_scan_depth(6));
    assert!(!within_scan_depth(7));
}

#[test]
fn answers_are_read_without_regard_to_case_and_space() {
    for a in ["yes", "y", "YES", " Yes \n", "\tY"] {
        assert!(is_yes(a), "{a:?} says yes");
    }
    for a in ["", "no", "yess", "ye", "true", "y e s"] {
        assert!(!is_yes(a), "{a:?} does not say yes");
    }
    assert!(answer_is_yes("y"));
    assert!(!answer_is_yes("Y"));
}
