use github_notifications::links::{extract_links, links_from_captures, LinkCapture};

fn capture(url: Option<&str>, rel: Option<&str>) -> LinkCapture {
    LinkCapture { url: url.map(|u| u.to_owned()), rel: rel.map(|r| r.to_owned()) }
}

#[test]
fn empty_header_gives_no_links() {
    let links = extract_links("");
    assert_eq!(links.len(), 0);
    assert!(links.get("next").is_none());
    assert!(!links.contains_key("next"));
}

#[test]
fn next_and_last_relations_are_found() {
    let header = "<https://api.github.com/notifications?page=2>; rel=\"next\", <https://api.github.com/notifications?page=5>; rel=\"last\"";
    let links = extract_links(header);
    assert_eq!(links.len(), 2);
    assert_eq!(
        links.get("next").map(|u| u.as_str()),
        Some("https://api.github.com/notifications?page=2")
    );
    assert_eq!(
        links.get("last").map(|u| u.as_str()),
        Some("https://api.github.com/notifications?page=5")
    );
    assert!(links.get("prev").is_none());
}

#[test]
fn single_segment_is_found() {
    let links = extract_links("<http://example.org/feed?page=3>; rel=\"next\"");
    assert_eq!(links.len(), 1);
    assert_eq!(links.get("next").map(|u| u.as_str()), Some("http://example.org/feed?page=3"));
}

#[test]
fn unquoted_relation_name_is_found() {
    let links = extract_links("<https://a.example/n?page=2>; rel=next");
    assert_eq!(links.len(), 1);
    assert_eq!(links.get("next").map(|u| u.as_str()), Some("https://a.example/n?page=2"));
}

#[test]
fn unquoted_and_quoted_relation_names_mix() {
    let header = "<https://a.example/n?page=2>; rel=next, <https://a.example/n?page=9>; rel=\"last\"";
    let links = extract_links(header);
    assert_eq!(links.len(), 2);
    assert_eq!(links.get("next").map(|u| u.as_str()), Some("https://a.example/n?page=2"));
    assert_eq!(links.get("last").map(|u| u.as_str()), Some("https://a.example/n?page=9"));
}

#[test]
fn quoted_and_unquoted_relation_names_mix() {
    let header = "<https://a.example/n?page=1>; rel=\"prev\", <https://a.example/n?page=3>; rel=next";
    let links = extract_links(header);
    assert_eq!(links.len(), 2);
    assert_eq!(links.get("prev").map(|u| u.as_str()), Some("https://a.example/n?page=1"));
    assert_eq!(links.get("next").map(|u| u.as_str()), Some("https://a.example/n?page=3"));
}

#[test]
fn repeated_unquoted_relation_keeps_the_last_url() {
    let header = "<https://a.example/1>; rel=next, <https://a.example/2>; rel=next";
    let links = extract_links(header);
    assert_eq!(links.len(), 1);
    assert_eq!(links.get("next").map(|u| u.as_str()), Some("https://a.example/2"));
}

#[test]
fn relation_without_a_name_is_no_link() {
    assert_eq!(extract_links("<https://a.example/1>; rel=").len(), 0);
    assert_eq!(extract_links("<https://a.example/1>; rel=\"\"").len(), 0);
}

#[test]
fn repeated_relation_keeps_the_last_url() {
    let header = "<https://a.example/1>; rel=\"next\", <https://a.example/2>; rel=\"next\"";
    let links = extract_links(header);
    assert_eq!(links.len(), 1);
    assert_eq!(links.get("next").map(|u| u.as_str()), Some("https://a.example/2"));
}

#[test]
fn malformed_segments_are_skipped() {
    let header = "garbage, <ftp://a.example/1>; rel=\"next\", <https://a.example/2>; rel=\"last\", <https://a.example/3>";
    let links = extract_links(header);
    assert_eq!(links.len(), 1);
    assert!(links.get("next").is_none());
    assert_eq!(links.get("last").map(|u| u.as_str()), Some("https://a.example/2"));
}

#[test]
fn header_without_any_segment_gives_no_links() {
    let links = extract_links("no links here");
    assert_eq!(links.len(), 0);
}

#[test]
fn url_with_whitespace_is_no_link() {
    let links = extract_links("<https://a.example/a b>; rel=\"next\"");
    assert_eq!(links.len(), 0);
}

#[test]
fn relation_name_ends_at_the_first_non_word_character() {
    let links = extract_links("<https://a.example/1>; rel=\"next-page\"");
    assert_eq!(links.len(), 1);
    assert_eq!(links.get("next").map(|u| u.as_str()), Some("https://a.example/1"));
}

#[test]
fn captures_fold_with_last_complete_capture_winning() {
    let caps = vec![
        capture(Some("https://a.example/1"), Some("next")),
        capture(Some("https://a.example/2"), Some("last")),
        capture(Some("https://a.example/3"), Some("next")),
    ];
    let links = links_from_captures(&caps);
    assert_eq!(links.len(), 2);
    assert_eq!(links.get("next").map(|u| u.as_str()), Some("https://a.example/3"));
    assert_eq!(links.get("last").map(|u| u.as_str()), Some("https://a.example/2"));
}

#[test]
fn incomplete_captures_bind_nothing() {
    let caps = vec![
        capture(Some("https://a.example/1"), Some("next")),
        capture(None, Some("next")),
        capture(Some("https://a.example/2"), None),
        capture(None, None),
    ];
    let links = links_from_captures(&caps);
    assert_eq!(links.len(), 1);
    assert_eq!(links.get("next").map(|u| u.as_str()), Some("https://a.example/1"));
}

#[test]
fn no_captures_give_no_links() {
    let links = links_from_captures(&Vec::new());
    assert_eq!(links.len(), 0);
}
