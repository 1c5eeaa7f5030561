use notext::printer::limit_graphemes;
use notext::registry::Registry;

#[test]
fn limit_graphemes_cuts_after_the_limit() {
    assert_eq!(limit_graphemes("hello", 2), "he");
    assert_eq!(limit_graphemes("hello", 0), "");
}

#[test]
fn limit_graphemes_keeps_short_strings_whole() {
    assert_eq!(limit_graphemes("hello", 5), "hello");
    assert_eq!(limit_graphemes("hello", 400), "hello");
    assert_eq!(limit_graphemes("", 0), "");
}

#[test]
fn limit_graphemes_counts_clusters_not_chars() {
    // "a" followed by a combining acute accent is one grapheme cluster.
    let s = "a\u{0301}bc";
    assert_eq!(limit_graphemes(s, 1), "a\u{0301}");
    assert_eq!(limit_graphemes(s, 2), "a\u{0301}b");
}

#[test]
fn render_of_empty_registry_is_the_empty_record() {
    let r = Registry::new();
    let rec = r.render();
    assert!(!rec.has);
    assert_eq!(rec.index, 0);
    assert_eq!(rec.len, 0);
    assert_eq!(rec.app_id, "");
    assert_eq!(rec.summary, "");
    assert_eq!(rec.body, "");
}

#[test]
fn render_shows_the_selected_entry() {
    let mut r = Registry::new();
    r.notify("App".to_string(), 0, "Sum".to_string(), "Body".to_string(), 0);
    r.notify("App2".to_string(), 0, "Sum2".to_string(), "Body2".to_string(), 0);
    let rec = r.render();
    assert!(rec.has);
    assert_eq!(rec.index, 2);
    assert_eq!(rec.len, 2);
    assert_eq!(rec.app_id, "App2");
    assert_eq!(rec.summary, "Sum2");
    assert_eq!(rec.body, "Body2");
}

#[test]
fn render_cuts_long_fields() {
    let mut r = Registry::new();
    let long = "x".repeat(500);
    r.notify("App".to_string(), 0, long.clone(), long.clone(), 0);
    let rec = r.render();
    assert_eq!(rec.summary.len(), 400);
    assert_eq!(rec.body.len(), 400);
    assert_eq!(rec.summary, "x".repeat(400));
}
