//! The formatting pipeline: prefix and suffix, HTML escaping, email obfuscation,
//! MarkdownV2 escaping and truncation.
use crate::configuration::Configuration;
pub use crate::configuration::FormattingOptions;
use crate::error::Error;
use crate::markup::{
    find_from, first_of, html_escaped, markdown_escaped, push_slice, remove_markers,
    replace_entities, rewrite_links, scan, stripped,
};
use crate::text::{from_chars, to_chars};
use vstd::prelude::*;

verus! {

/// The grammar of an email address, as a regular expression.
pub const EMAIL_PATTERN: &'static str = r"\b[A-Za-z0-9._%+-]+@[A-Za-z0-9.-]+\.[A-Za-z]{2,}\b";

/// The patterns that this library hands to the regular-expression engine; each compiles.
pub open spec fn known_pattern(p: Seq<char>) -> bool {
    p == EMAIL_PATTERN@
}

/// The matches of pattern `p` in `t`, leftmost first and without overlap.
pub uninterp spec fn regex_matches(p: Seq<char>, t: Seq<char>) -> Seq<Seq<char>>;

/// The parts of `t` between the matches of pattern `p`, the first before the first
/// match and the last after the last one.
pub uninterp spec fn regex_gaps(p: Seq<char>, t: Seq<char>) -> Seq<Seq<char>>;

pub open spec fn texts(v: Seq<String>) -> Seq<Seq<char>> {
    v.map_values(|s: String| s@)
}

/// Relies on `regex::Regex::new` and `regex::Regex::find_iter`: the matched texts in order.
#[verifier::external_body]
fn find_matches(pattern: &str, text: &str) -> (r: Vec<String>)
    requires
        known_pattern(pattern@),
    ensures
        texts(r@) == regex_matches(pattern@, text@),
{
    let re = regex::Regex::new(pattern).unwrap();
    re.find_iter(text).map(|m| m.as_str().to_string()).collect()
}

/// The gaps and the matches taken in turn, for the first `n` gaps.
pub open spec fn interleaved(gaps: Seq<Seq<char>>, found: Seq<Seq<char>>, n: int) -> Seq<char>
    decreases n,
{
    if n <= 0 {
        Seq::empty()
    } else {
        interleaved(gaps, found, n - 1) + gaps[n - 1] + if n - 1 < found.len() {
            found[n - 1]
        } else {
            Seq::empty()
        }
    }
}

/// Relies on `regex::Regex::new` and `regex::Regex::split`: the texts between matches,
/// one more than there are matches, which with the matches in turn make up the text.
#[verifier::external_body]
fn split_matches(pattern: &str, text: &str) -> (r: Vec<String>)
    requires
        known_pattern(pattern@),
    ensures
        texts(r@) == regex_gaps(pattern@, text@),
        r@.len() == regex_matches(pattern@, text@).len() + 1,
        interleaved(texts(r@), regex_matches(pattern@, text@), r@.len() as int) == text@,
{
    let re = regex::Regex::new(pattern).unwrap();
    re.split(text).map(|s| s.to_string()).collect()
}

/// An address with a local part longer than three characters, shortened to its first
/// three characters, an ellipsis and its last character; any other text as it is.
pub open spec fn address_obfuscated(m: Seq<char>) -> Seq<char> {
    let a = first_of(m, 0, '@');
    if a >= m.len() || first_of(m, a + 1, '@') < m.len() || a <= 3 {
        m
    } else {
        m.subrange(0, 3) + seq!['.', '.', '.', m[a - 1]] + m.subrange(a, m.len() as int)
    }
}

/// The gaps with the obfuscated matches between them, for the first `n` gaps.
pub open spec fn rejoined(gaps: Seq<Seq<char>>, found: Seq<Seq<char>>, n: int) -> Seq<char>
    decreases n,
{
    if n <= 0 {
        Seq::empty()
    } else {
        rejoined(gaps, found, n - 1) + gaps[n - 1] + if n - 1 < found.len() {
            address_obfuscated(found[n - 1])
        } else {
            Seq::empty()
        }
    }
}

/// The text rebuilt from its gaps and its obfuscated matches.
pub open spec fn obfuscated(gaps: Seq<Seq<char>>, found: Seq<Seq<char>>) -> Seq<char> {
    rejoined(gaps, found, gaps.len() as int)
}

proof fn lemma_empty_pieces(gaps: Seq<Seq<char>>, found: Seq<Seq<char>>, n: int)
    requires
        0 <= n <= gaps.len(),
        interleaved(gaps, found, n).len() == 0,
    ensures
        rejoined(gaps, found, n).len() == 0,
    decreases n,
{
    if n > 0 {
        lemma_empty_pieces(gaps, found, n - 1);
        if n - 1 < found.len() {
            assert(found[n - 1].len() == 0);
            assert(address_obfuscated(found[n - 1]) == found[n - 1]);
        }
    }
}

/// Email obfuscation of a whole text.
pub open spec fn emails_obfuscated(t: Seq<char>) -> Seq<char> {
    obfuscated(regex_gaps(EMAIL_PATTERN@, t), regex_matches(EMAIL_PATTERN@, t))
}

/// The last position before `n` that holds `c`, or -1.
pub open spec fn last_before(t: Seq<char>, n: int, c: char) -> int
    decreases n,
{
    if n <= 0 {
        -1
    } else if n <= t.len() && t[n - 1] == c {
        n - 1
    } else {
        last_before(t, n - 1, c)
    }
}

proof fn lemma_last_before_bounds(t: Seq<char>, n: int, c: char)
    requires
        n >= 0,
    ensures
        -1 <= last_before(t, n, c) < n,
        last_before(t, n, c) >= 0 ==> last_before(t, n, c) < t.len(),
    decreases n,
{
    if n > 0 {
        lemma_last_before_bounds(t, n - 1, c);
    }
}

/// Where a text longer than `max` is cut: at its last space that leaves room for the
/// ellipsis, or else `max - 3` characters in; at the start when `max < 3`.
pub open spec fn cut_point(t: Seq<char>, max: nat) -> int {
    if max >= 3 {
        let sp = last_before(t, max - 2, ' ');
        if sp >= 0 {
            sp
        } else {
            max - 3
        }
    } else {
        0
    }
}

/// A cut that would part an escaping backslash from its character moves before the
/// backslash.
pub open spec fn escape_safe(t: Seq<char>, cut: int) -> int {
    if crate::markup::escaped_pair(t, cut - 1) {
        cut - 1
    } else {
        cut
    }
}

/// A text longer than `max` is cut (see `cut_point`; where `escapes` holds, never inside
/// an escape) and ends with an ellipsis.
pub open spec fn truncated(t: Seq<char>, max: nat, escapes: bool) -> Seq<char> {
    if t.len() <= max {
        t
    } else {
        let cut = if escapes {
            escape_safe(t, cut_point(t, max))
        } else {
            cut_point(t, max)
        };
        t.subrange(0, cut) + seq!['.', '.', '.']
    }
}

pub open spec fn affixed(t: Seq<char>, prefix: Option<Seq<char>>, suffix: Option<Seq<char>>) -> Seq<
    char,
> {
    let p = match prefix {
        Some(p) => p,
        None => Seq::empty(),
    };
    let s = match suffix {
        Some(s) => s,
        None => Seq::empty(),
    };
    p + t + s
}

/// The formatting pipeline over a text that already carries its prefix and suffix.
pub open spec fn transformed(t: Seq<char>, o: FormattingOptions) -> Seq<char> {
    let t2 = if o.escape_html {
        html_escaped(t)
    } else {
        t
    };
    let t3 = if o.obfuscate_emails {
        emails_obfuscated(t2)
    } else {
        t2
    };
    let t4 = if o.escape_markdown {
        markdown_escaped(t3)
    } else {
        t3
    };
    match o.truncate {
        Some(n) => truncated(t4, n as nat, o.escape_markdown),
        None => t4,
    }
}

/// The whole formatting of `text` under options `o`, with an optional prefix and suffix.
pub open spec fn formatted(
    text: Seq<char>,
    o: FormattingOptions,
    prefix: Option<Seq<char>>,
    suffix: Option<Seq<char>>,
) -> Seq<char> {
    transformed(affixed(text, prefix, suffix), o)
}

fn push_text(out: &mut Vec<char>, s: &str)
    ensures
        final(out)@ == old(out)@ + s@,
{
    let mut v = to_chars(s);
    out.append(&mut v);
}

fn obfuscate_address(m: &Vec<char>, out: &mut Vec<char>)
    ensures
        final(out)@ == old(out)@ + address_obfuscated(m@),
{
    let n = m.len();
    let a = find_from(m, 0, '@');
    if a >= n {
        push_slice(out, m, 0, n);
        return;
    }
    let b = find_from(m, a + 1, '@');
    if b < n || a <= 3 {
        push_slice(out, m, 0, n);
        return;
    }
    push_slice(out, m, 0, 3);
    out.push('.');
    out.push('.');
    out.push('.');
    out.push(m[a - 1]);
    push_slice(out, m, a, n);
    assert(out@ == old(out)@ + address_obfuscated(m@));
}

fn truncate_chars(t: &Vec<char>, max: usize, escapes: bool) -> (r: Vec<char>)
    ensures
        r@ == truncated(t@, max as nat, escapes),
        max >= 3 ==> r@.len() <= max,
{
    let n = t.len();
    if n <= max {
        let mut out: Vec<char> = Vec::new();
        push_slice(&mut out, t, 0, n);
        assert(t@.subrange(0, n as int) == t@);
        return out;
    }
    let mut cut: usize = 0;
    if max >= 3 {
        let mut k = max - 2;
        while k > 0 && t[k - 1] != ' '
            invariant
                k <= max - 2,
                max < n == t@.len(),
                last_before(t@, k as int, ' ') == last_before(t@, max - 2, ' '),
            decreases k,
        {
            k = k - 1;
        }
        cut = if k > 0 {
            k - 1
        } else {
            max - 3
        };
        proof {
            lemma_last_before_bounds(t@, max - 2, ' ');
        }
    }
    assert(cut as int == cut_point(t@, max as nat));
    if escapes && cut > 0 && t[cut - 1] == '\\' && crate::markup::reserved(t[cut]) {
        cut = cut - 1;
    }
    let mut out: Vec<char> = Vec::new();
    push_slice(&mut out, t, 0, cut);
    out.push('.');
    out.push('.');
    out.push('.');
    out
}

/// The formatter for outgoing messages.
pub struct Formatter;

impl Formatter {
    /// Applies the configured transformations to `text`: prefix and suffix, then HTML
    /// escaping, email obfuscation, MarkdownV2 escaping and truncation, each where the
    /// options ask for it. Without options, those of `config` apply.
    pub fn format(text: &str, formatting_options: Option<FormattingOptions>, config: &Configuration) -> (r:
        Result<String, Error>)
        ensures
            r matches Ok(s) && s@ == formatted(
                text@,
                match formatting_options {
                    Some(o) => o,
                    None => config@.formatting_options,
                },
                config@.message_prefix,
                config@.message_suffix,
            ),
    {
        let options = match formatting_options {
            Some(o) => o,
            None => *config.formatting_options(),
        };
        let mut t: Vec<char> = Vec::new();
        match config.message_prefix() {
            Some(p) => push_text(&mut t, p),
            None => {},
        }
        push_text(&mut t, text);
        match config.message_suffix() {
            Some(s) => push_text(&mut t, s),
            None => {},
        }
        let ghost t1 = t@;
        assert(t1 == affixed(text@, config@.message_prefix, config@.message_suffix));
        if options.escape_html {
            t = replace_entities(&t);
        }
        if options.obfuscate_emails {
            let s = from_chars(&t);
            t = to_chars(Self::obfuscate_emails(s.as_str()).as_str());
        }
        if options.escape_markdown {
            let s = from_chars(&t);
            t = match Self::escape_markdown_v2(s.as_str()) {
                Ok(escaped) => to_chars(escaped.as_str()),
                Err(_) => to_chars(Self::strip_markdown(s.as_str()).as_str()),
            };
        }
        match options.truncate {
            Some(max) => {
                t = truncate_chars(&t, max, options.escape_markdown);
            },
            None => {},
        }
        Ok(from_chars(&t))
    }

    /// Escapes `text` for MarkdownV2: complete links get their label and target escaped,
    /// then the scan escapes reserved characters outside code, bold, italic and links.
    pub fn escape_markdown_v2(text: &str) -> (r: Result<String, Error>)
        ensures
            r matches Ok(s) && s@ == markdown_escaped(text@),
    {
        let t = to_chars(text);
        let linked = rewrite_links(&t, false);
        Ok(from_chars(&scan(&linked)))
    }

    /// Removes bold, italic and code markers, and collapses each `[label](target)` to its
    /// label.
    pub fn strip_markdown(text: &str) -> (r: String)
        ensures
            r@ == stripped(text@),
    {
        let t = to_chars(text);
        let bare = remove_markers(&t);
        from_chars(&rewrite_links(&bare, true))
    }

    /// Shortens the local part of each email address found in `text`.
    pub fn obfuscate_emails(text: &str) -> (r: String)
        ensures
            r@ == emails_obfuscated(text@),
            text@.len() == 0 ==> r@.len() == 0,
    {
        let gaps = split_matches(EMAIL_PATTERN, text);
        let found = find_matches(EMAIL_PATTERN, text);
        proof {
            if text@.len() == 0 {
                lemma_empty_pieces(texts(gaps@), texts(found@), gaps@.len() as int);
            }
        }
        Self::obfuscate_found(&gaps, &found)
    }

    /// Rebuilds a text from the parts between its email addresses (`gaps`) and the
    /// addresses themselves (`found`), each address obfuscated.
    pub fn obfuscate_found(gaps: &Vec<String>, found: &Vec<String>) -> (r: String)
        ensures
            r@ == obfuscated(texts(gaps@), texts(found@)),
    {
        let mut out: Vec<char> = Vec::new();
        let mut i: usize = 0;
        while i < gaps.len()
            invariant
                i <= gaps@.len(),
                out@ == rejoined(texts(gaps@), texts(found@), i as int),
            decreases gaps@.len() - i,
        {
            push_text(&mut out, gaps[i].as_str());
            if i < found.len() {
                let m = to_chars(found[i].as_str());
                obfuscate_address(&m, &mut out);
            }
            i = i + 1;
        }
        from_chars(&out)
    }

    /// Replaces `<`, `>` and `&` by their HTML entities.
    pub fn escape_html(text: &str) -> (r: String)
        ensures
            r@ == html_escaped(text@),
    {
        from_chars(&replace_entities(&to_chars(text)))
    }

    /// Shortens a text longer than `max_length` characters: at its last space that leaves
    /// room for the ellipsis, or else three characters before the limit, followed by an
    /// ellipsis. With a limit of at least 3 the result stays within it.
    pub fn truncate(text: &str, max_length: usize) -> (r: String)
        ensures
            r@ == truncated(text@, max_length as nat, false),
            max_length >= 3 ==> r@.len() <= max_length,
    {
        from_chars(&truncate_chars(&to_chars(text), max_length, false))
    }
}

} // verus!
