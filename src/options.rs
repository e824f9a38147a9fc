//! Per-call overrides, given as key/value pairs of text.
use crate::configuration::{same_text, FormattingOptions};
use crate::text::to_chars;
use vstd::prelude::*;

verus! {

/// The value of the first pair whose key is `key`, looking from position `i` on.
pub open spec fn lookup(opts: Seq<(&str, &str)>, key: Seq<char>, i: int) -> Option<Seq<char>>
    decreases opts.len() - i,
{
    if i < 0 || i >= opts.len() {
        None
    } else if opts[i].0@ == key {
        Some(opts[i].1@)
    } else {
        lookup(opts, key, i + 1)
    }
}

/// A flag reads as set when it is `true` in any mix of letter cases.
pub open spec fn flag_set(v: Seq<char>) -> bool {
    v.len() == 4 && (v[0] == 't' || v[0] == 'T') && (v[1] == 'r' || v[1] == 'R') && (v[2] == 'u'
        || v[2] == 'U') && (v[3] == 'e' || v[3] == 'E')
}

pub open spec fn is_digit(c: char) -> bool {
    '0' <= c <= '9'
}

pub open spec fn all_digits(s: Seq<char>) -> bool {
    forall|i: int| 0 <= i < s.len() ==> is_digit(#[trigger] s[i])
}

pub open spec fn digit_value(c: char) -> int {
    (c as u32) as int - ('0' as u32) as int
}

/// The number that a run of decimal digits spells.
pub open spec fn digits_value(s: Seq<char>) -> int
    decreases s.len(),
{
    if s.len() == 0 {
        0
    } else {
        digits_value(s.drop_last()) * 10 + digit_value(s.last())
    }
}

/// A size written in decimal, with an optional leading `+`, that fits in `usize`.
pub open spec fn parsed_size(s: Seq<char>) -> Option<usize> {
    let d = if s.len() > 0 && s[0] == '+' {
        s.drop_first()
    } else {
        s
    };
    if d.len() > 0 && all_digits(d) && digits_value(d) <= usize::MAX {
        Some(digits_value(d) as usize)
    } else {
        None
    }
}

/// One override applied to formatting options; unknown keys change nothing.
pub open spec fn apply_override(o: FormattingOptions, key: Seq<char>, value: Seq<char>) -> FormattingOptions {
    if key == "escape_markdown"@ {
        FormattingOptions { escape_markdown: flag_set(value), ..o }
    } else if key == "obfuscate_emails"@ {
        FormattingOptions { obfuscate_emails: flag_set(value), ..o }
    } else if key == "escape_html"@ {
        FormattingOptions { escape_html: flag_set(value), ..o }
    } else if key == "truncate"@ {
        FormattingOptions { truncate: parsed_size(value), ..o }
    } else {
        o
    }
}

/// The first `n` overrides applied in order to `base`.
pub open spec fn overridden(opts: Seq<(&str, &str)>, n: int, base: FormattingOptions) -> FormattingOptions
    decreases n,
{
    if n <= 0 || n > opts.len() {
        base
    } else {
        apply_override(overridden(opts, n - 1, base), opts[n - 1].0@, opts[n - 1].1@)
    }
}

/// The value of the first pair with key `key`.
pub fn find_option<'a>(opts: &[(&'a str, &'a str)], key: &str) -> (r: Option<&'a str>)
    ensures
        match lookup(opts@, key@, 0) {
            Some(v) => r matches Some(s) && s@ == v,
            None => r is None,
        },
{
    let mut i: usize = 0;
    while i < opts.len()
        invariant
            i <= opts@.len(),
            lookup(opts@, key@, i as int) == lookup(opts@, key@, 0),
        decreases opts@.len() - i,
    {
        let (k, v) = opts[i];
        if same_text(k, key) {
            return Some(v);
        }
        i = i + 1;
    }
    None
}

/// Whether a flag value reads as set.
pub fn parse_flag(v: &str) -> (r: bool)
    ensures
        r == flag_set(v@),
{
    if v.unicode_len() != 4 {
        return false;
    }
    let a = v.get_char(0);
    let b = v.get_char(1);
    let c = v.get_char(2);
    let d = v.get_char(3);
    (a == 't' || a == 'T') && (b == 'r' || b == 'R') && (c == 'u' || c == 'U') && (d == 'e' || d
        == 'E')
}

proof fn lemma_digits_grow(d: Seq<char>, k: int)
    requires
        all_digits(d),
        0 <= k <= d.len(),
    ensures
        digits_value(d) >= digits_value(d.subrange(0, k)),
        digits_value(d) >= 0,
    decreases d.len(),
{
    if d.len() > 0 {
        let p = d.drop_last();
        assert(all_digits(p));
        if k < d.len() {
            assert(p.subrange(0, k) == d.subrange(0, k));
            lemma_digits_grow(p, k);
        } else {
            assert(d.subrange(0, k) == d);
            lemma_digits_grow(p, 0);
        }
        assert(is_digit(d[d.len() - 1]));
    } else {
        assert(d.subrange(0, k) == d);
    }
}

/// Reads a size written in decimal, with an optional leading `+`.
pub fn parse_size(v: &str) -> (r: Option<usize>)
    ensures
        r == parsed_size(v@),
{
    let s = to_chars(v);
    let n = s.len();
    let start: usize = if n > 0 && s[0] == '+' {
        1
    } else {
        0
    };
    let ghost d = s@.subrange(start as int, n as int);
    assert(d == if s@.len() > 0 && s@[0] == '+' {
        s@.drop_first()
    } else {
        s@
    });
    if start >= n {
        return None;
    }
    let mut value: usize = 0;
    let mut k = start;
    while k < n
        invariant
            start <= k <= n == s@.len(),
            s@ == v@,
            d == s@.subrange(start as int, n as int),
            d == if s@.len() > 0 && s@[0] == '+' {
                s@.drop_first()
            } else {
                s@
            },
            all_digits(d.subrange(0, k - start)),
            value as int == digits_value(d.subrange(0, k - start)),
        decreases n - k,
    {
        let c = s[k];
        let ghost prev = d.subrange(0, k - start);
        let ghost next = d.subrange(0, k + 1 - start);
        assert(next.drop_last() == prev);
        if !('0' <= c && c <= '9') {
            assert(!is_digit(d[k - start]));
            assert(!all_digits(d));
            return None;
        }
        let digit = (c as u32 - '0' as u32) as usize;
        assert(next.last() == c);
        assert(digit as int == digit_value(c));
        assert(digits_value(next) == digits_value(prev) * 10 + digit as int);
        assert(all_digits(next)) by {
            assert forall|j: int| 0 <= j < next.len() implies is_digit(#[trigger] next[j]) by {
                if j < prev.len() {
                    assert(next[j] == prev[j]);
                }
            }
        }
        match value.checked_mul(10) {
            Some(m) => match m.checked_add(digit) {
                Some(total) => {
                    value = total;
                },
                None => {
                    proof {
                        if all_digits(d) {
                            lemma_digits_grow(d, k + 1 - start);
                        }
                    }
                    return None;
                },
            },
            None => {
                proof {
                    if all_digits(d) {
                        lemma_digits_grow(next, 0);
                        lemma_digits_grow(d, k + 1 - start);
                    }
                }
                return None;
            },
        }
        k = k + 1;
    }
    assert(d.subrange(0, n - start) == d);
    Some(value)
}

/// Applies the recognised overrides among `opts` to `defaults`, in order.
pub fn extract_formatting_options(opts: &[(&str, &str)], defaults: FormattingOptions) -> (r: FormattingOptions)
    ensures
        r == overridden(opts@, opts@.len() as int, defaults),
{
    let mut o = defaults;
    let mut i: usize = 0;
    while i < opts.len()
        invariant
            i <= opts@.len(),
            o == overridden(opts@, i as int, defaults),
        decreases opts@.len() - i,
    {
        let (key, value) = opts[i];
        if same_text(key, "escape_markdown") {
            o.escape_markdown = parse_flag(value);
        } else if same_text(key, "obfuscate_emails") {
            o.obfuscate_emails = parse_flag(value);
        } else if same_text(key, "escape_html") {
            o.escape_html = parse_flag(value);
        } else if same_text(key, "truncate") {
            o.truncate = parse_size(value);
        }
        i = i + 1;
    }
    o
}

} // verus!
