use telegrama_rs::client::{api_url, contains, http_error, status_failed};
use telegrama_rs::options::{extract_formatting_options, parse_flag, parse_size};
use telegrama_rs::{Configuration, Delivery, Dialect, Error, FormattingOptions, Response, Stage, Step};

fn settings() -> Configuration {
    let mut config = Configuration::default();
    config.set_bot_token("123:abc");
    config.set_chat_id("42");
    config
}

fn api_error(text: &str) -> Result<Response, Error> {
    Err(Error::api(text))
}

fn reply(ok: bool) -> Response {
    Response { ok, description: Some("done".to_string()), result: None }
}

#[test]
fn end_to_end_markdown_payload() {
    let config = settings();
    let (dl, first) = Delivery::prepare(&config, "Hello *world*", &[("parse_mode", "MarkdownV2")])
        .ok()
        .unwrap();
    assert_eq!(first.text, "Hello *world*");
    assert!(first.dialect == Dialect::MarkdownV2);
    assert_eq!(first.dialect.wire_mode(), "MarkdownV2");
    assert_eq!(dl.chat_id, "42");
    assert_eq!(dl.bot_token, "123:abc");
    assert!(dl.disable_web_page_preview);
}

#[test]
fn dialect_rejection_falls_back_once_to_plain() {
    let config = settings();
    let (dl, _) = Delivery::prepare(&config, "Hi *there*.", &[]).ok().unwrap();
    let step = dl.next_step(Stage::Primary, api_error("Bad Request: unsupported parse_mode"));
    let attempt = match step {
        Step::Send(stage, attempt) => {
            assert!(stage == Stage::PlainFallback);
            attempt
        }
        Step::Finish(_) => panic!("expected a retry"),
    };
    assert!(attempt.dialect == Dialect::PlainText);
    assert_eq!(attempt.dialect.wire_mode(), "");
    assert_eq!(attempt.text, "Hi *there*.");
    match dl.next_step(Stage::PlainFallback, Ok(reply(true))) {
        Step::Finish(Ok(r)) => assert_eq!(r.description.as_deref(), Some("done")),
        _ => panic!("expected the plain attempt's outcome"),
    }
    match dl.next_step(Stage::PlainFallback, api_error("still failing")) {
        Step::Finish(Err(Error::Api(d))) => assert_eq!(d, "still failing"),
        _ => panic!("expected the plain attempt's failure"),
    }
}

#[test]
fn other_markdown_failure_goes_html_then_plain() {
    let config = settings();
    let (dl, _) = Delivery::prepare(&config, "a<b", &[]).ok().unwrap();
    match dl.next_step(Stage::Primary, api_error("Too Many Requests")) {
        Step::Send(Stage::HtmlFallback, a) => {
            assert!(a.dialect == Dialect::Html);
            assert_eq!(a.text, "a&lt;b");
        }
        _ => panic!("expected the HTML tier"),
    }
    match dl.next_step(Stage::HtmlFallback, api_error("Too Many Requests")) {
        Step::Send(Stage::PlainFallback, a) => assert_eq!(a.text, "a<b"),
        _ => panic!("expected the plain tier"),
    }
}

#[test]
fn html_failure_propagates() {
    let config = settings();
    let (dl, first) = Delivery::prepare(&config, "x", &[("parse_mode", "HTML")]).ok().unwrap();
    assert!(first.dialect == Dialect::Html);
    match dl.next_step(Stage::Primary, api_error("Forbidden")) {
        Step::Finish(Err(Error::Api(d))) => assert_eq!(d, "Forbidden"),
        _ => panic!("expected the original failure"),
    }
}

#[test]
fn success_finishes_at_once() {
    let config = settings();
    let (dl, _) = Delivery::prepare(&config, "x", &[]).ok().unwrap();
    assert!(matches!(dl.next_step(Stage::Primary, Ok(reply(true))), Step::Finish(Ok(_))));
}

#[test]
fn unknown_mode_is_plain_text() {
    let config = settings();
    let (_, first) = Delivery::prepare(&config, "a.b", &[("parse_mode", "Markdown")]).ok().unwrap();
    assert!(first.dialect == Dialect::PlainText);
    assert_eq!(first.text, "a.b");
}

#[test]
fn missing_token_is_configuration_error() {
    let config = Configuration::default();
    assert!(matches!(Delivery::prepare(&config, "x", &[]), Err(Error::Configuration(_))));
}

#[test]
fn invalid_default_mode_is_configuration_error() {
    let mut config = settings();
    config.set_default_parse_mode("Markdown");
    assert!(config.validate().is_err());
    assert!(matches!(Delivery::prepare(&config, "x", &[]), Err(Error::Configuration(_))));
}

#[test]
fn missing_chat_is_configuration_error() {
    let mut config = Configuration::default();
    config.set_bot_token("t");
    assert!(matches!(Delivery::prepare(&config, "x", &[]), Err(Error::Configuration(_))));
    assert!(Delivery::prepare(&config, "x", &[("chat_id", "7")]).is_ok());
}

#[test]
fn empty_message_is_formatting_error() {
    let config = settings();
    assert!(matches!(Delivery::prepare(&config, "", &[]), Err(Error::Formatting(_))));
}

#[test]
fn overrides_parsed_from_text() {
    let defaults = FormattingOptions::default();
    let o = extract_formatting_options(
        &[("obfuscate_emails", "TRUE"), ("truncate", "+120"), ("escape_markdown", "no"), ("other", "1")],
        defaults,
    );
    assert!(o.obfuscate_emails);
    assert!(!o.escape_markdown);
    assert_eq!(o.truncate, Some(120));
    assert_eq!(parse_size("99999999999999999999999"), None);
    assert_eq!(parse_size(""), None);
    assert_eq!(parse_size("12a"), None);
    assert!(parse_flag("True"));
    assert!(!parse_flag("yes"));
}

#[test]
fn preview_override() {
    let config = settings();
    let (dl, _) = Delivery::prepare(&config, "x", &[("disable_web_page_preview", "false")]).ok().unwrap();
    assert!(!dl.disable_web_page_preview);
}

#[test]
fn rejected_reply_becomes_api_error() {
    let r = Response { ok: false, description: None, result: None };
    match r.into_result() {
        Err(Error::Api(d)) => assert_eq!(d, "Unknown API error"),
        _ => panic!("expected an API error"),
    }
    assert!(reply(true).into_result().is_ok());
}

#[test]
fn url_and_substring() {
    assert_eq!(api_url("T"), "https://api.telegram.org/botT/sendMessage");
    assert!(contains("bad parse_mode here", "parse_mode"));
    assert!(!contains("parse", "parse_mode"));
}

#[test]
fn failing_status_becomes_api_error() {
    assert!(!status_failed(200));
    assert!(!status_failed(299));
    assert!(status_failed(300));
    assert!(status_failed(404));
    match http_error(502, "Bad Gateway") {
        Error::Api(d) => assert_eq!(d, "HTTP error (status 502): Bad Gateway"),
        _ => panic!("expected an API error"),
    }
    match http_error(7, "") {
        Error::Api(d) => assert_eq!(d, "HTTP error (status 7): "),
        _ => panic!("expected an API error"),
    }
}
