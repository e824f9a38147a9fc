//! Delivery decisions: which dialect to send under, what text each attempt carries, and
//! how a rejected attempt falls back to a more permissive dialect. The caller performs
//! each attempt and reports its outcome.
use crate::configuration::{is_known_mode, same_text, Configuration, FormattingOptions};
use crate::error::Error;
use crate::formatter::{formatted, Formatter};
use crate::options::{extract_formatting_options, find_option, flag_set, lookup, overridden, parse_flag};
use crate::text::to_chars;
use vstd::prelude::*;

verus! {

#[verifier::external_type_specification]
#[verifier::external_body]
pub struct ExJsonValue(serde_json::Value);

/// A markup dialect of the endpoint.
#[derive(Debug, Clone, Copy, PartialEq, Eq, Structural)]
pub enum Dialect {
    MarkdownV2,
    Html,
    PlainText,
}

/// The dialect that a parse mode names; anything unknown is plain text.
pub open spec fn dialect_of(mode: Option<Seq<char>>) -> Dialect {
    match mode {
        Some(m) => if m == "MarkdownV2"@ {
            Dialect::MarkdownV2
        } else if m == "HTML"@ {
            Dialect::Html
        } else {
            Dialect::PlainText
        },
        None => Dialect::PlainText,
    }
}

/// The wire-level mode token: never absent, empty for plain text.
pub open spec fn mode_token(d: Dialect) -> Seq<char> {
    match d {
        Dialect::MarkdownV2 => "MarkdownV2"@,
        Dialect::Html => "HTML"@,
        Dialect::PlainText => Seq::empty(),
    }
}

/// The formatting options of one attempt: the escaping that its dialect calls for.
pub open spec fn options_for(o: FormattingOptions, d: Dialect) -> FormattingOptions {
    FormattingOptions {
        escape_markdown: d == Dialect::MarkdownV2,
        escape_html: d == Dialect::Html,
        ..o
    }
}

impl Dialect {
    /// Resolves a parse mode to a dialect.
    pub fn from_mode(mode: Option<&str>) -> (r: Dialect)
        ensures
            r == dialect_of(
                match mode {
                    Some(m) => Some(m@),
                    None => None,
                },
            ),
    {
        match mode {
            Some(m) => if same_text(m, "MarkdownV2") {
                Dialect::MarkdownV2
            } else if same_text(m, "HTML") {
                Dialect::Html
            } else {
                Dialect::PlainText
            },
            None => Dialect::PlainText,
        }
    }

    /// The mode token sent with a request in this dialect.
    pub fn wire_mode(&self) -> (r: &'static str)
        ensures
            r@ == mode_token(*self),
    {
        match self {
            Dialect::MarkdownV2 => "MarkdownV2",
            Dialect::Html => "HTML",
            Dialect::PlainText => {
                proof {
                    reveal_strlit("");
                }
                ""
            },
        }
    }
}

/// A reply of the endpoint.
#[derive(Debug)]
pub struct Response {
    /// Whether the request succeeded.
    pub ok: bool,
    /// What the endpoint says of the request.
    pub description: Option<String>,
    /// What the endpoint returns on success.
    pub result: Option<serde_json::Value>,
}

impl Response {
    /// A reply with `ok` unset is a rejection carrying its description.
    pub fn into_result(self) -> (r: Result<Response, Error>)
        ensures
            self.ok ==> r == Ok::<Response, Error>(self),
            !self.ok ==> (r matches Err(Error::Api(d)) && match self.description {
                Some(t) => d@ == t@,
                None => d@ == "Unknown API error"@,
            }),
    {
        if self.ok {
            Ok(self)
        } else {
            match self.description {
                Some(t) => Err(Error::Api(t)),
                None => Err(Error::api("Unknown API error")),
            }
        }
    }
}

/// The endpoint address for a bot token.
pub open spec fn endpoint_url(token: Seq<char>) -> Seq<char> {
    "https://api.telegram.org/bot"@ + token + "/sendMessage"@
}

/// The endpoint address for a bot token.
pub fn api_url(token: &str) -> (r: String)
    ensures
        r@ == endpoint_url(token@),
{
    String::from_str("https://api.telegram.org/bot").concat(token).concat("/sendMessage")
}

/// A status in the success range `200..300`.
pub open spec fn status_success(code: u16) -> bool {
    200 <= code < 300
}

pub open spec fn digit_char(d: int) -> char {
    if d == 0 {
        '0'
    } else if d == 1 {
        '1'
    } else if d == 2 {
        '2'
    } else if d == 3 {
        '3'
    } else if d == 4 {
        '4'
    } else if d == 5 {
        '5'
    } else if d == 6 {
        '6'
    } else if d == 7 {
        '7'
    } else if d == 8 {
        '8'
    } else {
        '9'
    }
}

/// The decimal digits of `n`, without leading zeros.
pub open spec fn decimal(n: nat) -> Seq<char>
    decreases n,
{
    if n < 10 {
        seq![digit_char(n as int)]
    } else {
        decimal(n / 10) + seq![digit_char((n % 10) as int)]
    }
}

fn push_digit(d: u16, out: &mut Vec<char>)
    requires
        d < 10,
    ensures
        final(out)@ == old(out)@ + seq![digit_char(d as int)],
{
    let c = if d == 0 {
        '0'
    } else if d == 1 {
        '1'
    } else if d == 2 {
        '2'
    } else if d == 3 {
        '3'
    } else if d == 4 {
        '4'
    } else if d == 5 {
        '5'
    } else if d == 6 {
        '6'
    } else if d == 7 {
        '7'
    } else if d == 8 {
        '8'
    } else {
        '9'
    };
    out.push(c);
}

fn push_decimal(n: u16, out: &mut Vec<char>)
    ensures
        final(out)@ == old(out)@ + decimal(n as nat),
    decreases n,
{
    if n >= 10 {
        push_decimal(n / 10, out);
    }
    push_digit(n % 10, out);
}

/// Whether a reply with this HTTP status is a failure.
pub fn status_failed(code: u16) -> (r: bool)
    ensures
        r == !status_success(code),
{
    !(200 <= code && code < 300)
}

/// The rejection for a reply with a failing HTTP status, carrying the status and the body.
pub fn http_error(code: u16, body: &str) -> (r: Error)
    ensures
        r matches Error::Api(d) && d@ == "HTTP error (status "@ + decimal(code as nat) + "): "@
            + body@,
{
    let mut out: Vec<char> = Vec::new();
    let mut head = to_chars("HTTP error (status ");
    out.append(&mut head);
    push_decimal(code, &mut out);
    let mut sep = to_chars("): ");
    out.append(&mut sep);
    let mut rest = to_chars(body);
    out.append(&mut rest);
    Error::Api(crate::text::from_chars(&out))
}

/// Whether `n` occurs in `h` at position `i`.
pub open spec fn occurs_at(h: Seq<char>, n: Seq<char>, i: int) -> bool {
    0 <= i && i + n.len() <= h.len() && h.subrange(i, i + n.len()) == n
}

pub open spec fn contains_text(h: Seq<char>, n: Seq<char>) -> bool {
    exists|i: int| occurs_at(h, n, i)
}

fn occurs_at_exec(h: &Vec<char>, n: &Vec<char>, i: usize) -> (r: bool)
    requires
        i + n@.len() <= h@.len(),
    ensures
        r == occurs_at(h@, n@, i as int),
{
    let hl = h.len();
    let mut k: usize = 0;
    while k < n.len()
        invariant
            hl == h@.len(),
            k <= n@.len(),
            i + n@.len() <= h@.len(),
            forall|j: int| 0 <= j < k ==> h@[i + j] == n@[j],
        decreases n@.len() - k,
    {
        if h[i + k] != n[k] {
            assert(h@.subrange(i as int, i + n@.len())[k as int] != n@[k as int]);
            return false;
        }
        k = k + 1;
    }
    assert(h@.subrange(i as int, i + n@.len()) =~= n@);
    true
}

/// Whether `needle` occurs in `haystack`.
pub fn contains(haystack: &str, needle: &str) -> (r: bool)
    ensures
        r == contains_text(haystack@, needle@),
{
    let h = to_chars(haystack);
    let n = to_chars(needle);
    if n.len() > h.len() {
        assert forall|i: int| !occurs_at(h@, n@, i) by {}
        return false;
    }
    let last = h.len() - n.len();
    let mut i: usize = 0;
    while i <= last
        invariant
            i <= last,
            last + n@.len() == h@.len(),
            h@ == haystack@,
            n@ == needle@,
            forall|j: int| 0 <= j < i ==> !occurs_at(h@, n@, j),
        decreases last + 1 - i,
    {
        if occurs_at_exec(&h, &n, i) {
            return true;
        }
        if i == last {
            assert forall|j: int| !occurs_at(h@, n@, j) by {
                if 0 <= j <= last as int && j != i as int {
                    assert(j < i);
                }
            }
            return false;
        }
        i = i + 1;
    }
    false
}

/// A rejection that names the parse mode: the dialect itself was refused.
pub open spec fn dialect_rejected(e: Error) -> bool {
    e matches Error::Api(d) && contains_text(d@, "parse_mode"@)
}

/// The tier of the fallback cascade that an attempt belongs to.
#[derive(Debug, Clone, Copy, PartialEq, Eq, Structural)]
pub enum Stage {
    Primary,
    HtmlFallback,
    PlainFallback,
}

/// One request to make: the text and the dialect it is sent under.
pub struct Attempt {
    pub dialect: Dialect,
    pub text: String,
}

/// What the caller does next.
pub enum Step {
    /// Make this attempt and report its outcome with its stage.
    Send(Stage, Attempt),
    /// Delivery is over, with this outcome.
    Finish(Result<Response, Error>),
}

/// A message resolved against the settings and the per-call overrides.
pub struct Delivery {
    pub bot_token: String,
    pub chat_id: String,
    pub message: String,
    /// The formatting options before the dialect's escaping is chosen.
    pub options: FormattingOptions,
    /// The dialect of the first attempt.
    pub dialect: Dialect,
    pub disable_web_page_preview: bool,
    pub settings: Configuration,
}

/// The text that an attempt in dialect `d` carries.
pub open spec fn attempt_text(dl: Delivery, d: Dialect) -> Seq<char> {
    formatted(
        dl.message@,
        options_for(dl.options, d),
        dl.settings@.message_prefix,
        dl.settings@.message_suffix,
    )
}

pub open spec fn str_opt(o: Option<&str>) -> Option<Seq<char>> {
    match o {
        Some(s) => Some(s@),
        None => None,
    }
}

/// The chat the message goes to: the override, or else the configured chat.
pub open spec fn chat_of(c: Configuration, opts: Seq<(&str, &str)>) -> Seq<char> {
    match lookup(opts, "chat_id"@, 0) {
        Some(v) => v,
        None => match c@.chat_id {
            Some(v) => v,
            None => Seq::empty(),
        },
    }
}

/// The parse mode asked for: the override, or else the configured default.
pub open spec fn mode_of(c: Configuration, opts: Seq<(&str, &str)>) -> Option<Seq<char>> {
    match lookup(opts, "parse_mode"@, 0) {
        Some(v) => Some(v),
        None => c@.default_parse_mode,
    }
}

/// Whether link previews are off: the override, or else the configured default.
pub open spec fn preview_off_of(c: Configuration, opts: Seq<(&str, &str)>) -> bool {
    match lookup(opts, "disable_web_page_preview"@, 0) {
        Some(v) => flag_set(v),
        None => c@.disable_web_page_preview,
    }
}

/// The settings are usable: a bot token, and a default mode that the endpoint knows.
pub open spec fn settings_valid(c: Configuration) -> bool {
    c@.bot_token is Some && match c@.default_parse_mode {
        Some(m) => is_known_mode(m),
        None => true,
    }
}

impl Delivery {
    /// Resolves `message` and the overrides `opts` against `config`, and formats the first
    /// attempt. Fails with a configuration error when the settings are invalid or no chat
    /// is given, and with a formatting error when the formatted text is empty.
    pub fn prepare(config: &Configuration, message: &str, opts: &[(&str, &str)]) -> (r: Result<
        (Delivery, Attempt),
        Error,
    >)
        ensures
            !settings_valid(*config) ==> r matches Err(Error::Configuration(_)),
            settings_valid(*config) && chat_of(*config, opts@).len() == 0 ==> r matches Err(
                Error::Configuration(_),
            ),
            settings_valid(*config) && chat_of(*config, opts@).len() > 0 ==> ({
                let o = overridden(opts@, opts@.len() as int, config@.formatting_options);
                let d = dialect_of(mode_of(*config, opts@));
                let text = formatted(
                    message@,
                    options_for(o, d),
                    config@.message_prefix,
                    config@.message_suffix,
                );
                &&& text.len() == 0 ==> (r matches Err(Error::Formatting(_)))
                &&& text.len() > 0 ==> (r matches Ok((dl, a)) && Some(dl.bot_token@)
                    == config@.bot_token && dl.chat_id@ == chat_of(*config, opts@)
                    && dl.message@ == message@ && dl.options == o && dl.dialect == d
                    && dl.disable_web_page_preview == preview_off_of(*config, opts@)
                    && dl.settings@ == config@ && a.dialect == d && a.text@ == text)
            }),
    {
        proof {
            reveal_strlit("");
        }
        match config.validate() {
            Ok(()) => {},
            Err(e) => {
                return Err(e);
            },
        }
        let bot_token = match config.bot_token() {
            Ok(t) => t,
            Err(e) => {
                return Err(e);
            },
        };
        let chat_id = match find_option(opts, "chat_id") {
            Some(v) => v,
            None => match config.chat_id() {
                Ok(v) => v,
                Err(_) => "",
            },
        };
        if chat_id.unicode_len() == 0 {
            return Err(Error::configuration("Chat ID not provided"));
        }
        let options = extract_formatting_options(opts, *config.formatting_options());
        let mode = match find_option(opts, "parse_mode") {
            Some(v) => Some(v),
            None => config.default_parse_mode(),
        };
        let dialect = Dialect::from_mode(mode);
        let disable_web_page_preview = match find_option(opts, "disable_web_page_preview") {
            Some(v) => parse_flag(v),
            None => config.disable_web_page_preview(),
        };
        let dl = Delivery {
            bot_token: String::from_str(bot_token),
            chat_id: String::from_str(chat_id),
            message: String::from_str(message),
            options,
            dialect,
            disable_web_page_preview,
            settings: config.get_cloned_instance(),
        };
        let first = match dl.attempt(dialect) {
            Ok(a) => a,
            Err(e) => {
                return Err(e);
            },
        };
        if first.text.as_str().unicode_len() == 0 {
            return Err(Error::formatting("Message is empty after formatting"));
        }
        Ok((dl, first))
    }

    /// The attempt in dialect `d`, formatted afresh.
    pub fn attempt(&self, d: Dialect) -> (r: Result<Attempt, Error>)
        ensures
            r matches Ok(a) && a.dialect == d && a.text@ == attempt_text(*self, d),
    {
        let o = FormattingOptions {
            escape_markdown: d == Dialect::MarkdownV2,
            escape_html: d == Dialect::Html,
            ..self.options
        };
        match Formatter::format(self.message.as_str(), Some(o), &self.settings) {
            Ok(text) => Ok(Attempt { dialect: d, text }),
            Err(e) => Err(e),
        }
    }

    /// What follows the outcome of an attempt at `stage`. A success ends delivery. A
    /// rejection of the dialect itself is retried once as plain text. Any other failure of
    /// a MarkdownV2 first attempt is retried as HTML, and a failure of that as plain text.
    /// Otherwise the failure ends delivery as it is.
    pub fn next_step(&self, stage: Stage, outcome: Result<Response, Error>) -> (r: Step)
        ensures
            match outcome {
                Ok(_) => r == Step::Finish(outcome),
                Err(e) => match stage {
                    Stage::Primary => if dialect_rejected(e) {
                        r matches Step::Send(s, a) && s == Stage::PlainFallback && a.dialect
                            == Dialect::PlainText && a.text@ == attempt_text(
                            *self,
                            Dialect::PlainText,
                        )
                    } else if self.dialect == Dialect::MarkdownV2 {
                        r matches Step::Send(s, a) && s == Stage::HtmlFallback && a.dialect
                            == Dialect::Html && a.text@ == attempt_text(*self, Dialect::Html)
                    } else {
                        r == Step::Finish(outcome)
                    },
                    Stage::HtmlFallback => r matches Step::Send(s, a) && s == Stage::PlainFallback
                        && a.dialect == Dialect::PlainText && a.text@ == attempt_text(
                        *self,
                        Dialect::PlainText,
                    ),
                    Stage::PlainFallback => r == Step::Finish(outcome),
                },
            },
    {
        let next = match &outcome {
            Ok(_) => None,
            Err(e) => match stage {
                Stage::Primary => {
                    let rejected = match e {
                        Error::Api(d) => contains(d.as_str(), "parse_mode"),
                        _ => false,
                    };
                    if rejected {
                        Some((Stage::PlainFallback, Dialect::PlainText))
                    } else if self.dialect == Dialect::MarkdownV2 {
                        Some((Stage::HtmlFallback, Dialect::Html))
                    } else {
                        None
                    }
                },
                Stage::HtmlFallback => Some((Stage::PlainFallback, Dialect::PlainText)),
                Stage::PlainFallback => None,
            },
        };
        match next {
            Some((s, d)) => match self.attempt(d) {
                Ok(a) => Step::Send(s, a),
                Err(e) => Step::Finish(Err(e)),
            },
            None => Step::Finish(outcome),
        }
    }
}

} // verus!
