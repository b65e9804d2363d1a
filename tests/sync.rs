use tweetvault_desktop::sync::{categories, files_created, sync_args, sync_outcome, text_after, SyncConfig};

fn config(input_path: Option<&str>, cookie: Option<&str>, api_key: &str) -> SyncConfig {
    SyncConfig {
        provider: "openai".to_string(),
        api_key: api_key.to_string(),
        input_path: input_path.map(|s| s.to_string()),
        cookie: cookie.map(|s| s.to_string()),
        output_dir: "/tmp/vault".to_string(),
    }
}

fn strings(items: &[&str]) -> Vec<String> {
    items.iter().map(|s| s.to_string()).collect()
}

#[test]
fn args_with_input_file() {
    let r = sync_args(&config(Some("likes.json"), None, "sk-1"));
    assert_eq!(
        r,
        Ok(strings(&[
            "sync", "--input", "likes.json", "--provider", "openai", "--api-key", "sk-1", "--output",
            "/tmp/vault"
        ]))
    );
}

#[test]
fn args_with_cookie() {
    let r = sync_args(&config(None, Some("auth=1"), "sk-1"));
    assert_eq!(
        r,
        Ok(strings(&[
            "sync", "--cookie", "auth=1", "--provider", "openai", "--api-key", "sk-1", "--output",
            "/tmp/vault"
        ]))
    );
}

#[test]
fn args_prefer_input_file_over_cookie() {
    let r = sync_args(&config(Some("a.json"), Some("auth=1"), "k"));
    assert_eq!(r.unwrap()[1..3].to_vec(), strings(&["--input", "a.json"]));
}

#[test]
fn args_leave_out_empty_key() {
    let r = sync_args(&config(Some("a.json"), None, ""));
    assert_eq!(
        r,
        Ok(strings(&["sync", "--input", "a.json", "--provider", "openai", "--output", "/tmp/vault"]))
    );
}

#[test]
fn args_without_source_fail() {
    let r = sync_args(&config(None, None, "k"));
    assert_eq!(r, Err("No input source provided".to_string()));
}

#[test]
fn count_is_third_word_of_line() {
    let out = "Fetching bookmarks\n\u{2713} Generated 12 markdown files\nDone\n";
    assert_eq!(files_created(out), 12);
}

#[test]
fn count_of_short_line_is_zero() {
    assert_eq!(files_created("Generated 12 files\n"), 0);
    assert_eq!(files_created("ok Generated\n"), 0);
    assert_eq!(files_created(""), 0);
}

#[test]
fn count_uses_first_matching_line() {
    let out = "- Generated x files\n- Generated 5 files\n";
    assert_eq!(files_created(out), 0);
    let out = "- Generated 3 files\r\n- Generated 5 files\r\n";
    assert_eq!(files_created(out), 3);
}

#[test]
fn count_accepts_plus_and_rejects_overflow() {
    assert_eq!(files_created("x Generated +7 files"), 7);
    assert_eq!(files_created("x Generated 4294967295 files"), 4294967295);
    assert_eq!(files_created("x Generated 4294967296 files"), 0);
    assert_eq!(files_created("x Generated -1 files"), 0);
    assert_eq!(files_created("x Generated + files"), 0);
}

#[test]
fn categories_are_trimmed_and_nonempty() {
    let out = "Generated\nCategories: AI,  Rust , ,Web\r\nDone\n";
    assert_eq!(categories(out), strings(&["AI", "Rust", "Web"]));
}

#[test]
fn categories_stop_at_second_marker() {
    let out = "Categories: a, b Categories: c\n";
    assert_eq!(categories(out), strings(&["a", "b"]));
}

#[test]
fn categories_from_first_line_only() {
    let out = "Categories:\nCategories: x\n";
    assert_eq!(categories(out), Vec::<String>::new());
}

#[test]
fn categories_absent() {
    assert_eq!(categories("Generated 3 files\n"), Vec::<String>::new());
}

#[test]
fn categories_trim_unicode_space() {
    let out = "Categories:\u{3000}Tech\u{a0},\u{2003}Art\n";
    assert_eq!(categories(out), strings(&["Tech", "Art"]));
}

#[test]
fn text_after_marker() {
    assert_eq!(text_after("x: a: b", ":"), " a");
    assert_eq!(text_after("x: a", ":"), " a");
    assert_eq!(text_after("x", ":"), "");
}

#[test]
fn outcome_of_success() {
    let out = "\u{2713} Generated 4 notes\nCategories: AI, Rust\n";
    let r = sync_outcome("/tmp/vault".to_string(), true, out, "warn").unwrap();
    assert_eq!(r.files_created, 4);
    assert_eq!(r.categories, strings(&["AI", "Rust"]));
    assert_eq!(r.output_dir, "/tmp/vault");
}

#[test]
fn outcome_of_failure() {
    let r = sync_outcome("/tmp/vault".to_string(), false, "Generated 4 x", "boom\n");
    assert_eq!(r.unwrap_err(), "CLI error: boom\n");
}
