use github_notifications::counts::AggregateCounts;
use github_notifications::render::{placeholder_values, render};
use github_notifications::strings::{chars_of, decimal};
use github_notifications::template::FormatTemplate;

fn sample_counts() -> AggregateCounts {
    let mut counts = AggregateCounts::new();
    counts.record("mention");
    counts.record("mention");
    counts.record("author");
    counts
}

#[test]
fn decimal_numerals() {
    assert_eq!(decimal(0), "0");
    assert_eq!(decimal(7), "7");
    assert_eq!(decimal(10), "10");
    assert_eq!(decimal(12), "12");
    assert_eq!(decimal(1905), "1905");
    assert_eq!(decimal(u64::MAX), "18446744073709551615");
}

#[test]
fn characters_of_a_string() {
    assert_eq!(chars_of(""), Vec::<char>::new());
    assert_eq!(chars_of("a{b}"), vec!['a', '{', 'b', '}']);
    assert_eq!(chars_of("né"), vec!['n', 'é']);
}

#[test]
fn total_and_mention_are_rendered() {
    let format = FormatTemplate::from_string("{total} ({mention})");
    let text = render(&format, &sample_counts()).unwrap();
    assert_eq!(text, "3 (2)");
}

#[test]
fn default_format_renders_the_total() {
    let format = FormatTemplate::from_string("{total}");
    assert_eq!(render(&format, &sample_counts()).unwrap(), "3");
    assert_eq!(render(&format, &AggregateCounts::new()).unwrap(), "0");
}

#[test]
fn reasons_never_seen_render_as_zero() {
    let format = FormatTemplate::from_string(
        "{assign}{author}{comment}{invitation}{manual}{mention}{review_requested}{security_alert}{state_change}{subscribed}{team_mention}",
    );
    assert_eq!(render(&format, &sample_counts()).unwrap(), "01000200000");
}

#[test]
fn text_without_placeholders_stands_for_itself() {
    let format = FormatTemplate::from_string("no counts } { here {} {a b} {total");
    assert_eq!(
        render(&format, &sample_counts()).unwrap(),
        "no counts } { here {} {a b} {total"
    );
}

#[test]
fn empty_format_renders_empty() {
    let format = FormatTemplate::from_string("");
    assert_eq!(render(&format, &sample_counts()).unwrap(), "");
}

#[test]
fn adjacent_placeholders_and_nested_braces() {
    let format = FormatTemplate::from_string("{{total}}{total}{author}");
    assert_eq!(render(&format, &sample_counts()).unwrap(), "{3}31");
}

#[test]
fn non_ascii_text_is_kept() {
    let format = FormatTemplate::from_string("é {total} ü");
    assert_eq!(render(&format, &sample_counts()).unwrap(), "é 3 ü");
}

#[test]
fn unknown_placeholder_fails_with_its_name() {
    let format = FormatTemplate::from_string("{total} {bogus} {other}");
    let err = render(&format, &sample_counts()).unwrap_err();
    assert_eq!(err.placeholder, "{bogus}");
}

#[test]
fn a_reason_seen_but_not_declared_has_no_placeholder() {
    let mut counts = AggregateCounts::new();
    counts.record("ci_activity");
    let format = FormatTemplate::from_string("{ci_activity}");
    let err = render(&format, &counts).unwrap_err();
    assert_eq!(err.placeholder, "{ci_activity}");
}

#[test]
fn values_hold_the_twelve_declared_placeholders() {
    let values = placeholder_values(&sample_counts());
    assert_eq!(values.len(), 12);
    assert_eq!(values.get("{total}").map(|v| v.as_str()), Some("3"));
    assert_eq!(values.get("{mention}").map(|v| v.as_str()), Some("2"));
    assert_eq!(values.get("{author}").map(|v| v.as_str()), Some("1"));
    assert_eq!(values.get("{team_mention}").map(|v| v.as_str()), Some("0"));
    assert!(values.get("total").is_none());
    assert!(values.get("{bogus}").is_none());
}

#[test]
fn template_renders_with_given_values() {
    let mut values = vstd::hash_map::StringHashMap::new();
    values.insert("{a}".to_owned(), "x".to_owned());
    values.insert("{b-1}".to_owned(), "".to_owned());
    let format = FormatTemplate::from_string("<{a}{b-1}{a}>");
    assert_eq!(format.render_static_str(&values).unwrap(), "<xx>");
    let bad = FormatTemplate::from_string("{a}{c}");
    assert_eq!(bad.render_static_str(&values).unwrap_err().placeholder, "{c}");
}
