use telegrama_rs::formatter::Formatter;
use telegrama_rs::{Configuration, FormattingOptions};

fn escape(text: &str) -> String {
    Formatter::escape_markdown_v2(text).ok().unwrap()
}

#[test]
fn escaping_twice_leaves_plain_text_alone() {
    let once = escape("Hello world 42");
    assert_eq!(once, "Hello world 42");
    assert_eq!(escape(&once), once);
}

#[test]
fn escaping_an_escaped_dot_adds_nothing() {
    assert_eq!(escape("a.b"), "a\\.b");
    assert_eq!(escape("a\\.b"), "a\\.b");
    let once = escape("1+1=2. (ok) ~x~ {y} #z!");
    assert_eq!(escape(&once), once);
}

#[test]
fn escaped_label_in_link_not_escaped_again() {
    let once = escape("[a.b](http://x.y/z-1)");
    assert_eq!(escape(&once), once);
}

#[test]
fn lone_backslash_stays_single() {
    assert_eq!(escape("a\\b."), "a\\b\\.");
}

#[test]
fn reserved_characters_get_one_backslash_each() {
    let escaped = escape(".!#+-=|{}~>");
    assert_eq!(escaped, "\\.\\!\\#\\+\\-\\=\\|\\{\\}\\~\\>");
    assert_eq!(Formatter::strip_markdown(&escaped), ".!#+-=|{}~>");
    let mixed = escape("]()~>#+-=|{}.!");
    assert_eq!(Formatter::strip_markdown(&mixed), "]()~>#+-=|{}.!");
}

#[test]
fn fenced_block_is_not_escaped() {
    assert_eq!(escape("```like *this* ```"), "```like *this* ```");
    assert_eq!(escape("```a.b-c```"), "```a.b-c```");
}

#[test]
fn inline_code_is_not_escaped() {
    assert_eq!(escape("run `a.b()` now."), "run `a.b()` now\\.");
}

#[test]
fn link_label_escaped_target_kept() {
    assert_eq!(escape("[a.b](http://x.y/z-1)"), "[a\\.b](http://x.y/z-1)");
}

#[test]
fn link_target_escapes_other_reserved() {
    assert_eq!(escape("[x](http://a.b/c_d)"), "[x](http://a.b/c\\_d)");
}

#[test]
fn bold_markers_stay_and_text_is_escaped() {
    assert_eq!(escape("Hello *world*"), "Hello *world*");
    assert_eq!(escape("Hi. *bold.* end!"), "Hi\\. *bold.* end\\!");
}

#[test]
fn empty_text_escapes_to_empty() {
    assert_eq!(escape(""), "");
}

#[test]
fn short_email_is_kept() {
    assert_eq!(Formatter::obfuscate_emails("ab@x.com"), "ab@x.com");
    assert_eq!(Formatter::obfuscate_emails("abc@x.com"), "abc@x.com");
}

#[test]
fn email_obfuscation_keeps_domain() {
    assert_eq!(
        Formatter::obfuscate_emails("write info@example.com now"),
        "write inf...o@example.com now"
    );
}

#[test]
fn obfuscate_found_rebuilds_text() {
    let gaps = vec!["a ".to_string(), " b".to_string()];
    let found = vec!["someone@x.org".to_string()];
    assert_eq!(Formatter::obfuscate_found(&gaps, &found), "a som...e@x.org b");
}

#[test]
fn html_entities_replaced() {
    assert_eq!(Formatter::escape_html("a<b>&c"), "a&lt;b&gt;&amp;c");
    assert_eq!(Formatter::escape_html("plain"), "plain");
}

#[test]
fn strip_removes_markers_and_links() {
    assert_eq!(Formatter::strip_markdown("*bold* _it_ `code` [label](http://x)"), "bold it code label");
}

#[test]
fn truncate_at_space() {
    let mut text = "a".repeat(4090);
    text.push(' ');
    text.push_str(&"b".repeat(909));
    assert_eq!(text.chars().count(), 5000);
    let cut = Formatter::truncate(&text, 4096);
    assert_eq!(cut, format!("{}...", "a".repeat(4090)));
    assert!(cut.chars().count() <= 4096);
}

#[test]
fn truncate_space_near_limit_stays_within() {
    let cut = Formatter::truncate("abcd ef", 5);
    assert_eq!(cut, "ab...");
    assert!(cut.chars().count() <= 5);
    assert_eq!(Formatter::truncate("ab cdefgh", 6), "ab...");
}

#[test]
fn format_never_splits_an_escape() {
    let config = Configuration::default();
    let options = FormattingOptions {
        escape_markdown: true,
        obfuscate_emails: false,
        escape_html: false,
        truncate: Some(8),
    };
    let out = Formatter::format("......", Some(options), &config).ok().unwrap();
    assert_eq!(out, "\\.\\....");
    assert!(out.chars().count() <= 8);
}

#[test]
fn truncate_hard_cut_without_space() {
    let text = "x".repeat(20);
    assert_eq!(Formatter::truncate(&text, 10), "xxxxxxx...");
    assert_eq!(Formatter::truncate("short", 10), "short");
    assert_eq!(Formatter::truncate("abcdef", 2), "...");
}

#[test]
fn format_applies_prefix_suffix_and_escaping() {
    let mut config = Configuration::default();
    config.set_message_prefix("[P] ");
    config.set_message_suffix("!");
    let out = Formatter::format("a.b", None, &config).ok().unwrap();
    assert_eq!(out, "[P] a\\.b\\!");
}

#[test]
fn format_with_html_and_truncation() {
    let config = Configuration::default();
    let options = FormattingOptions {
        escape_markdown: false,
        obfuscate_emails: true,
        escape_html: true,
        truncate: Some(12),
    };
    let out = Formatter::format("<b> mail info@example.com", Some(options), &config).ok().unwrap();
    assert_eq!(out, "&lt;b&gt;...");
}

#[test]
fn link_inside_fence_is_not_escaped() {
    assert_eq!(escape("```see [a.b](http://x_y)```"), "```see [a.b](http://x_y)```");
    assert_eq!(escape("`[a.b](c)`"), "`[a.b](c)`");
}

#[test]
fn escaped_bracket_opens_no_link() {
    assert_eq!(escape("\\[a](b)"), "\\[a\\]\\(b\\)");
}

#[test]
fn text_without_address_is_kept() {
    assert_eq!(Formatter::obfuscate_emails(""), "");
    assert_eq!(Formatter::obfuscate_emails("no address here."), "no address here.");
}
