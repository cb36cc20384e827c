use github_notifications::block::{
    ConfigError, Github, GithubConfig, PollAction, PollEvent, TextWidget, GITHUB_TOKEN_ENV, ICON,
    NOT_AVAILABLE,
};
use github_notifications::fetch::{GithubError, Notification, PageResponse};

fn config(format: &str) -> GithubConfig {
    GithubConfig { interval: 30, api_server: "https://api.example".to_owned(), format: format.to_owned() }
}

fn block(format: &str) -> Github {
    match Github::with_id(config(format), Some("s3cr3t".to_owned()), "block-1".to_owned()) {
        Ok(b) => b,
        Err(e) => panic!("construction failed: {}", e.message()),
    }
}

fn notifications(reasons: &[&str]) -> Vec<Notification> {
    reasons.iter().map(|r| Notification { reason: (*r).to_owned() }).collect()
}

fn text_of(block: &Github) -> String {
    block.view()[0].text().to_owned()
}

#[test]
fn defaults_of_the_configuration() {
    assert_eq!(GithubConfig::default_interval(), 30);
    assert_eq!(GithubConfig::default_api_server(), "https://api.github.com");
    assert_eq!(GithubConfig::default_format(), "{total}");
}

#[test]
fn names_of_the_block() {
    assert_eq!(GITHUB_TOKEN_ENV, "GITHUB_TOKEN");
    assert_eq!(NOT_AVAILABLE, "N/A");
    assert_eq!(ICON, "github");
}

#[test]
fn fresh_block_shows_not_available_with_its_icon() {
    let b = block("{total}");
    let widgets = b.view();
    assert_eq!(widgets.len(), 1);
    assert_eq!(widgets[0].text(), "N/A");
    assert_eq!(widgets[0].icon(), "github");
    assert_eq!(b.id(), "block-1");
}

#[test]
fn missing_token_is_a_configuration_error() {
    match Github::with_id(config("{total}"), None, "id".to_owned()) {
        Err(ConfigError::MissingToken) => {}
        _ => panic!("expected the missing token"),
    }
    match Github::new(config("{total}"), None) {
        Err(e) => assert_eq!(e.message(), "missing GITHUB_TOKEN environment variable"),
        Ok(_) => panic!("expected an error"),
    }
}

#[test]
fn missing_token_comes_before_an_invalid_format() {
    match Github::new(config("{bogus}"), None) {
        Err(ConfigError::MissingToken) => {}
        _ => panic!("expected the missing token"),
    }
}

#[test]
fn unknown_placeholder_is_rejected_at_construction() {
    match Github::with_id(config("{total} {bogus}"), Some("t".to_owned()), "id".to_owned()) {
        Err(ConfigError::InvalidFormat(e)) => assert_eq!(e.placeholder, "{bogus}"),
        _ => panic!("expected the invalid format"),
    }
    match Github::new(config("{nope}"), Some("t".to_owned())) {
        Err(e) => assert_eq!(e.message(), "Invalid format specified"),
        Ok(_) => panic!("expected an error"),
    }
}

#[test]
fn new_block_has_an_identifier_of_32_hex_digits() {
    let a = match Github::new(config("{total}"), Some("t".to_owned())) {
        Ok(b) => b,
        Err(_) => panic!("construction failed"),
    };
    let b = match Github::new(config("{total}"), Some("t".to_owned())) {
        Ok(b) => b,
        Err(_) => panic!("construction failed"),
    };
    assert_eq!(a.id().len(), 32);
    assert!(a.id().chars().all(|c| c.is_ascii_digit() || ('a'..='f').contains(&c)));
    assert_ne!(a.id(), b.id());
    assert_eq!(a.view()[0].text(), "N/A");
}

#[test]
fn tick_asks_for_the_first_page() {
    let mut b = block("{total}");
    match b.update(PollEvent::Tick) {
        PollAction::Fetch(r) => {
            assert_eq!(r.url, "https://api.example/notifications");
            assert_eq!(r.authorization, "token s3cr3t");
            assert_eq!(r.timeout_secs, 5);
        }
        PollAction::Wait(_) => panic!("expected a request"),
    }
    assert_eq!(text_of(&b), "N/A");
}

#[test]
fn two_pages_are_counted_and_rendered() {
    let mut b = block("{total} ({mention})");
    assert!(matches!(b.update(PollEvent::Tick), PollAction::Fetch(_)));
    let first = PageResponse::Page {
        link_header: Some("<https://api.example/notifications?page=2>; rel=\"next\"".to_owned()),
        items: Some(notifications(&["mention", "mention"])),
    };
    match b.update(PollEvent::Response(first)) {
        PollAction::Fetch(r) => assert_eq!(r.url, "https://api.example/notifications?page=2"),
        PollAction::Wait(_) => panic!("expected the second request"),
    }
    assert_eq!(text_of(&b), "N/A");
    let second = PageResponse::Page { link_header: None, items: Some(notifications(&["author"])) };
    match b.update(PollEvent::Response(second)) {
        PollAction::Wait(secs) => assert_eq!(secs, 30),
        PollAction::Fetch(_) => panic!("expected the end of the poll"),
    }
    assert_eq!(text_of(&b), "3 (2)");
}

#[test]
fn pages_linked_by_an_unquoted_relation_are_all_counted() {
    let mut b = block("{total} ({mention})");
    assert!(matches!(b.update(PollEvent::Tick), PollAction::Fetch(_)));
    let first = PageResponse::Page {
        link_header: Some("<https://api.example/notifications?page=2>; rel=next".to_owned()),
        items: Some(notifications(&["mention", "mention"])),
    };
    match b.update(PollEvent::Response(first)) {
        PollAction::Fetch(r) => assert_eq!(r.url, "https://api.example/notifications?page=2"),
        PollAction::Wait(_) => panic!("expected the second request"),
    }
    let second = PageResponse::Page { link_header: None, items: Some(notifications(&["author"])) };
    assert!(matches!(b.update(PollEvent::Response(second)), PollAction::Wait(30)));
    assert_eq!(text_of(&b), "3 (2)");
}

#[test]
fn non_success_on_the_first_request_shows_not_available() {
    let mut b = block("{total}");
    assert!(matches!(b.update(PollEvent::Tick), PollAction::Fetch(_)));
    let rejected = PageResponse::Rejected { error: Some(GithubError { message: "Bad credentials".to_owned() }) };
    match b.update(PollEvent::Response(rejected)) {
        PollAction::Wait(secs) => assert_eq!(secs, 30),
        PollAction::Fetch(_) => panic!("expected the end of the poll"),
    }
    assert_eq!(text_of(&b), "N/A");
}

#[test]
fn failure_after_a_good_poll_replaces_the_counts() {
    let mut b = block("{total}");
    b.update(PollEvent::Tick);
    b.update(PollEvent::Response(PageResponse::Page { link_header: None, items: Some(notifications(&["a", "b"])) }));
    assert_eq!(text_of(&b), "2");
    b.update(PollEvent::Tick);
    assert_eq!(text_of(&b), "2");
    b.update(PollEvent::Response(PageResponse::TransportFailure));
    assert_eq!(text_of(&b), "N/A");
}

#[test]
fn failure_on_a_later_page_discards_the_partial_counts() {
    let mut b = block("{total}");
    b.update(PollEvent::Tick);
    let first = PageResponse::Page {
        link_header: Some("<https://api.example/second>; rel=\"next\"".to_owned()),
        items: Some(notifications(&["a", "b"])),
    };
    assert!(matches!(b.update(PollEvent::Response(first)), PollAction::Fetch(_)));
    let broken = PageResponse::Page { link_header: None, items: None };
    assert!(matches!(b.update(PollEvent::Response(broken)), PollAction::Wait(30)));
    assert_eq!(text_of(&b), "N/A");
}

#[test]
fn every_poll_counts_from_scratch() {
    let mut b = block("{total}/{comment}");
    for _ in 0..3 {
        assert!(matches!(b.update(PollEvent::Tick), PollAction::Fetch(_)));
        let only = PageResponse::Page { link_header: None, items: Some(notifications(&["comment", "x"])) };
        assert!(matches!(b.update(PollEvent::Response(only)), PollAction::Wait(30)));
        assert_eq!(text_of(&b), "2/1");
    }
}

#[test]
fn tick_during_a_poll_starts_over() {
    let mut b = block("{total}");
    b.update(PollEvent::Tick);
    let first = PageResponse::Page {
        link_header: Some("<https://api.example/second>; rel=\"next\"".to_owned()),
        items: Some(notifications(&["a", "b"])),
    };
    b.update(PollEvent::Response(first));
    match b.update(PollEvent::Tick) {
        PollAction::Fetch(r) => assert_eq!(r.url, "https://api.example/notifications"),
        PollAction::Wait(_) => panic!("expected the first request"),
    }
    b.update(PollEvent::Response(PageResponse::Page { link_header: None, items: Some(notifications(&["c"])) }));
    assert_eq!(text_of(&b), "1");
}

#[test]
fn response_outside_a_poll_changes_nothing() {
    let mut b = block("{total}");
    let stray = PageResponse::Page { link_header: None, items: Some(notifications(&["a"])) };
    assert!(matches!(b.update(PollEvent::Response(stray)), PollAction::Wait(30)));
    assert_eq!(text_of(&b), "N/A");
}

#[test]
fn empty_feed_renders_zero() {
    let mut b = block("{total}");
    b.update(PollEvent::Tick);
    b.update(PollEvent::Response(PageResponse::Page { link_header: None, items: Some(Vec::new()) }));
    assert_eq!(text_of(&b), "0");
}

#[test]
fn click_changes_nothing() {
    let mut b = block("{total}");
    b.click();
    assert_eq!(text_of(&b), "N/A");
    assert_eq!(b.id(), "block-1");
}

#[test]
fn widget_builders_and_setter() {
    let mut w = TextWidget::new().with_text("a").with_icon("i");
    assert_eq!(w.text(), "a");
    assert_eq!(w.icon(), "i");
    w.set_text("b".to_owned());
    assert_eq!(w.text(), "b");
    assert_eq!(w.icon(), "i");
}
