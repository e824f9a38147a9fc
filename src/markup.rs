//! The MarkdownV2 escaping machine, the link pre-pass and format stripping.
use vstd::prelude::*;

verus! {

/// Characters with a meaning of their own in MarkdownV2.
pub open spec fn is_reserved(c: char) -> bool {
    c == '_' || c == '*' || c == '[' || c == ']' || c == '(' || c == ')' || c == '~' || c == '`'
        || c == '>' || c == '#' || c == '+' || c == '-' || c == '=' || c == '|' || c == '{'
        || c == '}' || c == '.' || c == '!'
}

pub fn reserved(c: char) -> (r: bool)
    ensures
        r == is_reserved(c),
{
    c == '_' || c == '*' || c == '[' || c == ']' || c == '(' || c == ')' || c == '~' || c == '`'
        || c == '>' || c == '#' || c == '+' || c == '-' || c == '=' || c == '|' || c == '{'
        || c == '}' || c == '.' || c == '!'
}

/// Reserved characters that a link target keeps as they are.
pub open spec fn is_url_structural(c: char) -> bool {
    c == '/' || c == ':' || c == '.' || c == '-'
}

/// The lexical context of the escaping scan.
#[derive(Clone, Copy, PartialEq, Eq, Structural)]
pub struct LexicalContext {
    pub inline_code: bool,
    pub fenced_block: bool,
    pub bold: bool,
    pub italic: bool,
    pub link_label: bool,
    pub link_target: bool,
}

pub open spec fn initial_context() -> LexicalContext {
    LexicalContext {
        inline_code: false,
        fenced_block: false,
        bold: false,
        italic: false,
        link_label: false,
        link_target: false,
    }
}

pub open spec fn outside_code(st: LexicalContext) -> bool {
    !st.inline_code && !st.fenced_block
}

pub open spec fn plain_context(st: LexicalContext) -> bool {
    outside_code(st) && !st.bold && !st.italic && !st.link_label && !st.link_target
}

/// A backslash at `i` escapes the reserved character after it: an escape already made.
pub open spec fn escaped_pair(s: Seq<char>, i: int) -> bool {
    0 <= i && i + 1 < s.len() && s[i] == '\\' && is_reserved(s[i + 1])
}

pub open spec fn opens_fence(s: Seq<char>, i: int, st: LexicalContext) -> bool {
    !st.inline_code && i + 2 < s.len() && s[i + 1] == '`' && s[i + 2] == '`'
}

/// One step of the scan at position `i`: what is emitted, where the scan goes on, and
/// in which context.
pub open spec fn scan_step(s: Seq<char>, i: int, st: LexicalContext) -> (Seq<char>, int, LexicalContext) {
    let c = s[i];
    if escaped_pair(s, i) && outside_code(st) {
        (seq![c, s[i + 1]], i + 2, st)
    } else if c == '`' {
        if opens_fence(s, i, st) {
            (seq!['`', '`', '`'], i + 3, LexicalContext { fenced_block: !st.fenced_block, ..st })
        } else {
            (seq!['`'], i + 1, LexicalContext { inline_code: !st.inline_code, ..st })
        }
    } else if c == '*' && outside_code(st) {
        (seq![c], i + 1, LexicalContext { bold: !st.bold, ..st })
    } else if c == '_' && outside_code(st) {
        (seq![c], i + 1, LexicalContext { italic: !st.italic, ..st })
    } else if c == '[' && outside_code(st) && !st.link_label {
        (seq![c], i + 1, LexicalContext { link_label: true, ..st })
    } else if c == ']' && outside_code(st) && st.link_label {
        let target = i + 1 < s.len() && s[i + 1] == '(';
        (seq![c], i + 1, LexicalContext { link_label: false, link_target: target || st.link_target, ..st })
    } else if c == '(' && outside_code(st) && !st.link_label && st.link_target {
        (seq![c], i + 1, st)
    } else if c == ')' && outside_code(st) && st.link_target {
        (seq![c], i + 1, LexicalContext { link_target: false, ..st })
    } else if plain_context(st) && is_reserved(c) {
        (seq!['\\', c], i + 1, st)
    } else {
        (seq![c], i + 1, st)
    }
}

/// What the scan emits from position `i` on, starting in context `st`.
pub open spec fn scan_from(s: Seq<char>, i: int, st: LexicalContext) -> Seq<char>
    decreases s.len() - i,
{
    if i < 0 || i >= s.len() {
        Seq::empty()
    } else {
        let (out, j, next) = scan_step(s, i, st);
        if j > i {
            out + scan_from(s, j, next)
        } else {
            out
        }
    }
}

/// The escaping scan over a whole text.
pub open spec fn scanned(s: Seq<char>) -> Seq<char> {
    scan_from(s, 0, initial_context())
}

fn push_all(out: &mut Vec<char>, items: &[char])
    ensures
        final(out)@ == old(out)@ + items@,
{
    let mut k: usize = 0;
    while k < items.len()
        invariant
            k <= items@.len(),
            out@ == old(out)@ + items@.subrange(0, k as int),
        decreases items@.len() - k,
    {
        out.push(items[k]);
        k = k + 1;
        assert(items@.subrange(0, k as int) == items@.subrange(0, k - 1) + seq![items@[k - 1]]);
    }
    assert(items@.subrange(0, items@.len() as int) == items@);
}

fn scan_step_exec(s: &Vec<char>, i: usize, st: LexicalContext, out: &mut Vec<char>) -> (r: (usize, LexicalContext))
    requires
        i < s@.len(),
    ensures
        final(out)@ == old(out)@ + scan_step(s@, i as int, st).0,
        r.0 as int == scan_step(s@, i as int, st).1,
        r.1 == scan_step(s@, i as int, st).2,
{
    let n = s.len();
    let c = s[i];
    let code_free = !st.inline_code && !st.fenced_block;
    if c == '\\' && code_free && n - i > 1 && reserved(s[i + 1]) {
        out.push(c);
        out.push(s[i + 1]);
        (i + 2, st)
    } else if c == '`' {
        if !st.inline_code && n - i > 2 && s[i + 1] == '`' && s[i + 2] == '`' {
            push_all(out, &['`', '`', '`']);
            (i + 3, LexicalContext { fenced_block: !st.fenced_block, ..st })
        } else {
            out.push(c);
            (i + 1, LexicalContext { inline_code: !st.inline_code, ..st })
        }
    } else if c == '*' && code_free {
        out.push(c);
        (i + 1, LexicalContext { bold: !st.bold, ..st })
    } else if c == '_' && code_free {
        out.push(c);
        (i + 1, LexicalContext { italic: !st.italic, ..st })
    } else if c == '[' && code_free && !st.link_label {
        out.push(c);
        (i + 1, LexicalContext { link_label: true, ..st })
    } else if c == ']' && code_free && st.link_label {
        out.push(c);
        let target = n - i > 1 && s[i + 1] == '(';
        (i + 1, LexicalContext { link_label: false, link_target: target || st.link_target, ..st })
    } else if c == '(' && code_free && !st.link_label && st.link_target {
        out.push(c);
        (i + 1, st)
    } else if c == ')' && code_free && st.link_target {
        out.push(c);
        (i + 1, LexicalContext { link_target: false, ..st })
    } else if code_free && !st.bold && !st.italic && !st.link_label && !st.link_target && reserved(c) {
        out.push('\\');
        out.push(c);
        (i + 1, st)
    } else {
        out.push(c);
        (i + 1, st)
    }
}

/// Runs the escaping machine over `s`.
pub fn scan(s: &Vec<char>) -> (r: Vec<char>)
    ensures
        r@ == scanned(s@),
{
    let mut out: Vec<char> = Vec::new();
    let mut i: usize = 0;
    let mut st = LexicalContext {
        inline_code: false,
        fenced_block: false,
        bold: false,
        italic: false,
        link_label: false,
        link_target: false,
    };
    while i < s.len()
        invariant
            i <= s@.len(),
            out@ + scan_from(s@, i as int, st) == scanned(s@),
        decreases s@.len() - i,
    {
        let ghost before = out@;
        let (j, next) = scan_step_exec(s, i, st, &mut out);
        assert(before + scan_from(s@, i as int, st) == out@ + scan_from(s@, j as int, next));
        i = j;
        st = next;
    }
    assert(scan_from(s@, i as int, st) == Seq::<char>::empty());
    out
}

/// The first position at or after `i` that holds `c`, or the length when there is none.
pub open spec fn first_of(s: Seq<char>, i: int, c: char) -> int
    decreases s.len() - i,
{
    if i >= s.len() {
        s.len() as int
    } else if i >= 0 && s[i] == c {
        i
    } else {
        first_of(s, i + 1, c)
    }
}

/// Position of the `]` that closes a link label opened at `i`.
pub open spec fn label_end(s: Seq<char>, i: int) -> int {
    first_of(s, i + 1, ']')
}

/// Position of the `)` that closes the link target of a link opened at `i`.
pub open spec fn target_end(s: Seq<char>, i: int) -> int {
    first_of(s, label_end(s, i) + 2, ')')
}

/// A complete `[label](target)` starts at `i`, with a non-empty label free of `]` and a
/// non-empty target free of `)`.
pub open spec fn link_at(s: Seq<char>, i: int) -> bool {
    let j = label_end(s, i);
    let k = target_end(s, i);
    0 <= i < s.len() && s[i] == '[' && j >= i + 2 && j + 1 < s.len() && s[j + 1] == '('
        && k < s.len() && k >= j + 3
}

/// Escapes every reserved character not escaped already; in a link target (`url`) the
/// characters `/ : . -` stay.
pub open spec fn escape_chars(t: Seq<char>, url: bool) -> Seq<char>
    decreases t.len(),
{
    if t.len() == 0 {
        Seq::empty()
    } else if escaped_pair(t, 0) {
        seq![t[0], t[1]] + escape_chars(t.subrange(2, t.len() as int), url)
    } else {
        let c = t[0];
        let piece = if is_reserved(c) && !(url && is_url_structural(c)) {
            seq!['\\', c]
        } else {
            seq![c]
        };
        piece + escape_chars(t.drop_first(), url)
    }
}

/// A link with its label and target escaped; when `strip` holds, its label alone.
pub open spec fn link_rewrite(s: Seq<char>, i: int, strip: bool) -> Seq<char> {
    let j = label_end(s, i);
    let k = target_end(s, i);
    if strip {
        s.subrange(i + 1, j)
    } else {
        seq!['['] + escape_chars(s.subrange(i + 1, j), false) + seq![']', '(']
            + escape_chars(s.subrange(j + 2, k), true) + seq![')']
    }
}

/// Rewrites each complete link found from `i` on, leftmost first, and keeps the rest.
/// When escaping (`strip` unset), code spans and fenced blocks are tracked as the scan
/// tracks them (`inline`, `fenced`): text inside them, and escapes already made, are
/// copied as they are.
pub open spec fn links_from(s: Seq<char>, i: int, strip: bool, inline: bool, fenced: bool) -> Seq<
    char,
>
    decreases s.len() - i,
{
    if i < 0 || i >= s.len() {
        Seq::empty()
    } else if !strip && escaped_pair(s, i) && !inline && !fenced {
        seq![s[i], s[i + 1]] + links_from(s, i + 2, strip, inline, fenced)
    } else if !strip && s[i] == '`' {
        if !inline && i + 2 < s.len() && s[i + 1] == '`' && s[i + 2] == '`' {
            seq!['`', '`', '`'] + links_from(s, i + 3, strip, inline, !fenced)
        } else {
            seq!['`'] + links_from(s, i + 1, strip, !inline, fenced)
        }
    } else if !inline && !fenced && link_at(s, i) {
        link_rewrite(s, i, strip) + links_from(s, target_end(s, i) + 1, strip, inline, fenced)
    } else {
        seq![s[i]] + links_from(s, i + 1, strip, inline, fenced)
    }
}

/// The text with its links escaped.
pub open spec fn links_escaped(s: Seq<char>) -> Seq<char> {
    links_from(s, 0, false, false, false)
}

/// The text with each link collapsed to its label.
pub open spec fn links_collapsed(s: Seq<char>) -> Seq<char> {
    links_from(s, 0, true, false, false)
}

/// MarkdownV2 escaping: the link pre-pass, then the scan.
pub open spec fn markdown_escaped(s: Seq<char>) -> Seq<char> {
    scanned(links_escaped(s))
}

pub open spec fn is_marker(c: char) -> bool {
    c == '*' || c == '_' || c == '`'
}

/// The text without bold, italic and code markers, each escaped reserved character read
/// as the character itself.
pub open spec fn unmarked(t: Seq<char>) -> Seq<char>
    decreases t.len(),
{
    if t.len() == 0 {
        Seq::empty()
    } else if escaped_pair(t, 0) {
        seq![t[1]] + unmarked(t.subrange(2, t.len() as int))
    } else if is_marker(t[0]) {
        unmarked(t.drop_first())
    } else {
        seq![t[0]] + unmarked(t.drop_first())
    }
}

/// Format stripping: markers and escapes removed, then links collapsed to their labels.
pub open spec fn stripped(t: Seq<char>) -> Seq<char> {
    links_collapsed(unmarked(t))
}

pub open spec fn html_entity(c: char) -> Seq<char> {
    if c == '<' {
        seq!['&', 'l', 't', ';']
    } else if c == '>' {
        seq!['&', 'g', 't', ';']
    } else if c == '&' {
        seq!['&', 'a', 'm', 'p', ';']
    } else {
        seq![c]
    }
}

/// The text with `<`, `>` and `&` replaced by their entities.
pub open spec fn html_escaped(t: Seq<char>) -> Seq<char>
    decreases t.len(),
{
    if t.len() == 0 {
        Seq::empty()
    } else {
        html_escaped(t.drop_last()) + html_entity(t.last())
    }
}

pub(crate) fn find_from(s: &Vec<char>, from: usize, c: char) -> (r: usize)
    ensures
        r as int == first_of(s@, from as int, c),
        r <= s@.len(),
        from <= s@.len() ==> from <= r,
{
    let mut i = from;
    while i < s.len()
        invariant
            from <= i,
            first_of(s@, i as int, c) == first_of(s@, from as int, c),
        decreases s@.len() - i,
    {
        if s[i] == c {
            return i;
        }
        i = i + 1;
    }
    s.len()
}

/// Where a complete link starts at `i`, the positions of its `]` and its closing `)`.
fn find_link(s: &Vec<char>, i: usize) -> (r: Option<(usize, usize)>)
    requires
        i < s@.len(),
    ensures
        r is Some <==> link_at(s@, i as int),
        r matches Some(p) ==> p.0 as int == label_end(s@, i as int) && p.1 as int == target_end(
            s@,
            i as int,
        ),
{
    let n = s.len();
    if s[i] != '[' {
        return None;
    }
    let j = find_from(s, i + 1, ']');
    if j - i < 2 || s.len() - j < 2 || s[j + 1] != '(' {
        return None;
    }
    let k = find_from(s, j + 2, ')');
    if k >= s.len() || k - j < 3 {
        return None;
    }
    Some((j, k))
}

fn push_escaped(out: &mut Vec<char>, s: &Vec<char>, from: usize, to: usize, url: bool)
    requires
        from <= to <= s@.len(),
    ensures
        final(out)@ == old(out)@ + escape_chars(s@.subrange(from as int, to as int), url),
{
    let mut k = from;
    while k < to
        invariant
            from <= k <= to <= s@.len(),
            old(out)@ + escape_chars(s@.subrange(from as int, to as int), url) == out@ + escape_chars(
                s@.subrange(k as int, to as int),
                url,
            ),
        decreases to - k,
    {
        let c = s[k];
        let ghost t = s@.subrange(k as int, to as int);
        if c == '\\' && to - k > 1 && reserved(s[k + 1]) {
            assert(escaped_pair(t, 0));
            assert(t.subrange(2, t.len() as int) == s@.subrange(k + 2, to as int));
            out.push(c);
            out.push(s[k + 1]);
            k = k + 2;
        } else {
            assert(!escaped_pair(t, 0));
            assert(t.drop_first() == s@.subrange(k + 1, to as int));
            if reserved(c) && !(url && (c == '/' || c == ':' || c == '.' || c == '-')) {
                out.push('\\');
            }
            out.push(c);
            k = k + 1;
        }
    }
    assert(s@.subrange(to as int, to as int) == Seq::<char>::empty());
}

pub(crate) fn push_slice(out: &mut Vec<char>, s: &Vec<char>, from: usize, to: usize)
    requires
        from <= to <= s@.len(),
    ensures
        final(out)@ == old(out)@ + s@.subrange(from as int, to as int),
{
    let mut k = from;
    while k < to
        invariant
            from <= k <= to <= s@.len(),
            out@ == old(out)@ + s@.subrange(from as int, k as int),
        decreases to - k,
    {
        out.push(s[k]);
        k = k + 1;
        assert(s@.subrange(from as int, k as int) == s@.subrange(from as int, k - 1) + seq![
            s@[k - 1],
        ]);
    }
}

/// Rewrites the complete links of `s`: escaped, or collapsed to their labels when
/// `strip` holds.
pub fn rewrite_links(s: &Vec<char>, strip: bool) -> (r: Vec<char>)
    ensures
        r@ == links_from(s@, 0, strip, false, false),
{
    let mut out: Vec<char> = Vec::new();
    let n = s.len();
    let mut i: usize = 0;
    let mut inline = false;
    let mut fenced = false;
    while i < n
        invariant
            i <= n == s@.len(),
            out@ + links_from(s@, i as int, strip, inline, fenced) == links_from(s@, 0, strip, false, false),
        decreases n - i,
    {
        let ghost before = out@;
        let c = s[i];
        if !strip && c == '\\' && n - i > 1 && reserved(s[i + 1]) && !inline && !fenced {
            out.push(c);
            out.push(s[i + 1]);
            i = i + 2;
        } else if !strip && c == '`' {
            if !inline && n - i > 2 && s[i + 1] == '`' && s[i + 2] == '`' {
                push_all(&mut out, &['`', '`', '`']);
                fenced = !fenced;
                i = i + 3;
            } else {
                out.push(c);
                inline = !inline;
                i = i + 1;
            }
        } else {
            let found = if !inline && !fenced {
                find_link(s, i)
            } else {
                None
            };
            match found {
                Some((j, k)) => {
                    if strip {
                        push_slice(&mut out, s, i + 1, j);
                    } else {
                        out.push('[');
                        push_escaped(&mut out, s, i + 1, j, false);
                        push_all(&mut out, &[']', '(']);
                        push_escaped(&mut out, s, j + 2, k, true);
                        out.push(')');
                    }
                    assert(out@ == before + link_rewrite(s@, i as int, strip));
                    i = k + 1;
                },
                None => {
                    out.push(c);
                    i = i + 1;
                },
            }
        }
    }
    out
}

/// Removes the bold, italic and code markers, and the backslash of each escaped reserved
/// character.
pub fn remove_markers(s: &Vec<char>) -> (r: Vec<char>)
    ensures
        r@ == unmarked(s@),
{
    let mut out: Vec<char> = Vec::new();
    let n = s.len();
    let mut k: usize = 0;
    assert(s@.subrange(0, n as int) == s@);
    while k < n
        invariant
            k <= n == s@.len(),
            unmarked(s@) == out@ + unmarked(s@.subrange(k as int, n as int)),
        decreases n - k,
    {
        let c = s[k];
        let ghost t = s@.subrange(k as int, n as int);
        if c == '\\' && n - k > 1 && reserved(s[k + 1]) {
            assert(escaped_pair(t, 0));
            assert(t.subrange(2, t.len() as int) == s@.subrange(k + 2, n as int));
            out.push(s[k + 1]);
            k = k + 2;
        } else {
            assert(!escaped_pair(t, 0));
            assert(t.drop_first() == s@.subrange(k + 1, n as int));
            if !(c == '*' || c == '_' || c == '`') {
                out.push(c);
            }
            k = k + 1;
        }
    }
    assert(s@.subrange(n as int, n as int) == Seq::<char>::empty());
    out
}

/// Replaces `<`, `>` and `&` by their entities.
pub fn replace_entities(s: &Vec<char>) -> (r: Vec<char>)
    ensures
        r@ == html_escaped(s@),
{
    let mut out: Vec<char> = Vec::new();
    let mut k: usize = 0;
    while k < s.len()
        invariant
            k <= s@.len(),
            out@ == html_escaped(s@.subrange(0, k as int)),
        decreases s@.len() - k,
    {
        let c = s[k];
        assert(s@.subrange(0, k + 1).drop_last() == s@.subrange(0, k as int));
        if c == '<' {
            push_all(&mut out, &['&', 'l', 't', ';']);
        } else if c == '>' {
            push_all(&mut out, &['&', 'g', 't', ';']);
        } else if c == '&' {
            push_all(&mut out, &['&', 'a', 'm', 'p', ';']);
        } else {
            out.push(c);
        }
        k = k + 1;
    }
    assert(s@.subrange(0, s@.len() as int) == s@);
    out
}

/// Each character behind a backslash.
pub open spec fn backslashed(t: Seq<char>) -> Seq<char>
    decreases t.len(),
{
    if t.len() == 0 {
        Seq::empty()
    } else {
        seq!['\\', t[0]] + backslashed(t.drop_first())
    }
}

pub open spec fn lacks(t: Seq<char>, c: char) -> bool {
    forall|k: int| 0 <= k < t.len() ==> #[trigger] t[k] != c
}

/// Text in which every reserved character is escaped, and no backslash stands alone
/// before a reserved character.
pub open spec fn settled(t: Seq<char>) -> bool
    decreases t.len(),
{
    if t.len() == 0 {
        true
    } else if escaped_pair(t, 0) {
        settled(t.subrange(2, t.len() as int))
    } else {
        !is_reserved(t[0]) && settled(t.drop_first())
    }
}

/// Text without the markers `* _ `` ` and without the link opener `[`.
pub open spec fn unformatted(x: Seq<char>) -> bool {
    forall|k: int| 0 <= k < x.len() ==> !is_marker(#[trigger] x[k]) && x[k] != '['
}

proof fn lemma_links_absent(s: Seq<char>, i: int, strip: bool, inline: bool, fenced: bool)
    requires
        lacks(s, '['),
        0 <= i <= s.len(),
    ensures
        links_from(s, i, strip, inline, fenced) == s.subrange(i, s.len() as int),
    decreases s.len() - i,
{
    if i < s.len() {
        let t = s.subrange(i, s.len() as int);
        assert(s[i] != '[');
        if !strip && escaped_pair(s, i) && !inline && !fenced {
            lemma_links_absent(s, i + 2, strip, inline, fenced);
            assert(t == seq![s[i], s[i + 1]] + s.subrange(i + 2, s.len() as int));
        } else if !strip && s[i] == '`' {
            if !inline && i + 2 < s.len() && s[i + 1] == '`' && s[i + 2] == '`' {
                lemma_links_absent(s, i + 3, strip, inline, !fenced);
                assert(t == seq!['`', '`', '`'] + s.subrange(i + 3, s.len() as int));
            } else {
                lemma_links_absent(s, i + 1, strip, !inline, fenced);
                assert(t == seq![s[i]] + s.subrange(i + 1, s.len() as int));
            }
        } else {
            lemma_links_absent(s, i + 1, strip, inline, fenced);
            assert(t == seq![s[i]] + s.subrange(i + 1, s.len() as int));
        }
    }
}

/// Inside a fenced block the pre-pass copies every character up to the next backtick.
proof fn lemma_links_fenced(s: Seq<char>, i: int, e: int)
    requires
        0 <= i <= e <= s.len(),
        forall|k: int| i <= k < e ==> #[trigger] s[k] != '`',
    ensures
        links_from(s, i, false, false, true) == s.subrange(i, e) + links_from(s, e, false, false, true),
    decreases e - i,
{
    if i < e {
        assert(s[i] != '`');
        lemma_links_fenced(s, i + 1, e);
        assert(s.subrange(i, e) == seq![s[i]] + s.subrange(i + 1, e));
    }
}

/// From `i` to `e` the scan copies each character and keeps its context.
proof fn lemma_scan_copies(s: Seq<char>, i: int, e: int, st: LexicalContext)
    requires
        0 <= i <= e <= s.len(),
        forall|k: int| i <= k < e ==> #[trigger] scan_step(s, k, st) == (seq![s[k]], k + 1, st),
    ensures
        scan_from(s, i, st) == s.subrange(i, e) + scan_from(s, e, st),
    decreases e - i,
{
    if i < e {
        assert(scan_step(s, i, st) == (seq![s[i]], i + 1, st));
        lemma_scan_copies(s, i + 1, e, st);
        assert(s.subrange(i, e) == seq![s[i]] + s.subrange(i + 1, e));
    }
}

/// From `i` on the scan puts a backslash before each character and keeps its context.
proof fn lemma_scan_escapes(s: Seq<char>, i: int, st: LexicalContext)
    requires
        0 <= i <= s.len(),
        forall|k: int| i <= k < s.len() ==> #[trigger] scan_step(s, k, st) == (seq!['\\', s[k]], k + 1, st),
    ensures
        scan_from(s, i, st) == backslashed(s.subrange(i, s.len() as int)),
    decreases s.len() - i,
{
    if i < s.len() {
        assert(scan_step(s, i, st) == (seq!['\\', s[i]], i + 1, st));
        lemma_scan_escapes(s, i + 1, st);
        assert(s.subrange(i, s.len() as int).drop_first() == s.subrange(i + 1, s.len() as int));
    }
}

proof fn lemma_unmarked_backslashed(x: Seq<char>)
    requires
        forall|k: int| 0 <= k < x.len() ==> is_reserved(#[trigger] x[k]),
    ensures
        unmarked(backslashed(x)) == x,
    decreases x.len(),
{
    if x.len() > 0 {
        let b = backslashed(x);
        let rest = x.drop_first();
        assert(is_reserved(x[0]));
        assert(escaped_pair(b, 0));
        assert(b.subrange(2, b.len() as int) == backslashed(rest));
        assert forall|k: int| 0 <= k < rest.len() implies is_reserved(#[trigger] rest[k]) by {
            assert(rest[k] == x[k + 1]);
        }
        lemma_unmarked_backslashed(rest);
        assert(seq![x[0]] + rest == x);
    }
}

/// On settled text the scan copies everything.
proof fn lemma_scan_settled(s: Seq<char>, i: int)
    requires
        0 <= i <= s.len(),
        settled(s.subrange(i, s.len() as int)),
    ensures
        scan_from(s, i, initial_context()) == s.subrange(i, s.len() as int),
    decreases s.len() - i,
{
    let t = s.subrange(i, s.len() as int);
    if i < s.len() {
        if escaped_pair(t, 0) {
            assert(escaped_pair(s, i));
            assert(t.subrange(2, t.len() as int) == s.subrange(i + 2, s.len() as int));
            lemma_scan_settled(s, i + 2);
            assert(t == seq![s[i], s[i + 1]] + s.subrange(i + 2, s.len() as int));
        } else {
            assert(!escaped_pair(s, i));
            assert(!is_reserved(s[i]));
            assert(t.drop_first() == s.subrange(i + 1, s.len() as int));
            lemma_scan_settled(s, i + 1);
            assert(t == seq![s[i]] + s.subrange(i + 1, s.len() as int));
        }
    }
}

/// The scan of unformatted text is settled, holds no `[`, and starts with a character that
/// is not reserved.
proof fn lemma_scan_settles(x: Seq<char>, i: int)
    requires
        unformatted(x),
        0 <= i <= x.len(),
    ensures
        settled(scan_from(x, i, initial_context())),
        lacks(scan_from(x, i, initial_context()), '['),
        i < x.len() ==> scan_from(x, i, initial_context()).len() > 0 && !is_reserved(
            scan_from(x, i, initial_context())[0],
        ),
    decreases x.len() - i,
{
    let st = initial_context();
    if i < x.len() {
        let out = scan_from(x, i, st);
        assert(!is_marker(x[i]) && x[i] != '[');
        if escaped_pair(x, i) {
            assert(!is_marker(x[i + 1]) && x[i + 1] != '[');
            lemma_scan_settles(x, i + 2);
            let rest = scan_from(x, i + 2, st);
            assert(out == seq!['\\', x[i + 1]] + rest);
            assert(escaped_pair(out, 0));
            assert(out.subrange(2, out.len() as int) == rest);
            assert forall|k: int| 0 <= k < out.len() implies #[trigger] out[k] != '[' by {
                if k >= 2 {
                    assert(out[k] == rest[k - 2]);
                }
            }
        } else {
            lemma_scan_settles(x, i + 1);
            let rest = scan_from(x, i + 1, st);
            if is_reserved(x[i]) {
                assert(out == seq!['\\', x[i]] + rest);
                assert(escaped_pair(out, 0));
                assert(out.subrange(2, out.len() as int) == rest);
                assert forall|k: int| 0 <= k < out.len() implies #[trigger] out[k] != '[' by {
                    if k >= 2 {
                        assert(out[k] == rest[k - 2]);
                    }
                }
            } else {
                assert(out == seq![x[i]] + rest);
                assert(!escaped_pair(out, 0));
                assert(out.drop_first() == rest);
                assert forall|k: int| 0 <= k < out.len() implies #[trigger] out[k] != '[' by {
                    if k >= 1 {
                        assert(out[k] == rest[k - 1]);
                    }
                }
            }
        }
    }
}

/// Outside code, an escape already made is copied as it is: the scan adds no backslash
/// to a reserved character that already has one.
pub proof fn lemma_escaped_pair_kept(s: Seq<char>, i: int, st: LexicalContext)
    requires
        outside_code(st),
        escaped_pair(s, i),
    ensures
        scan_from(s, i, st) == seq![s[i], s[i + 1]] + scan_from(s, i + 2, st),
{
}

/// Escaping is idempotent on text without formatting markers and links: escaping the
/// escaped text again changes nothing.
pub proof fn lemma_escape_idempotent(x: Seq<char>)
    requires
        unformatted(x),
    ensures
        markdown_escaped(markdown_escaped(x)) == markdown_escaped(x),
{
    assert(lacks(x, '['));
    lemma_links_absent(x, 0, false, false, false);
    assert(x.subrange(0, x.len() as int) == x);
    let y = markdown_escaped(x);
    assert(y == scanned(x));
    lemma_scan_settles(x, 0);
    lemma_links_absent(y, 0, false, false, false);
    assert(y.subrange(0, y.len() as int) == y);
    lemma_scan_settled(y, 0);
}

/// Text made only of reserved characters other than the markers `* _ `` ` and the link
/// opener `[` comes out with exactly one backslash before each character, and stripping
/// the formatting from that gives back the original characters.
pub proof fn lemma_reserved_round_trip(x: Seq<char>)
    requires
        forall|k: int|
            0 <= k < x.len() ==> is_reserved(#[trigger] x[k]) && !is_marker(x[k]) && x[k] != '[',
    ensures
        markdown_escaped(x) == backslashed(x),
        stripped(markdown_escaped(x)) == x,
{
    assert(lacks(x, '['));
    lemma_links_absent(x, 0, false, false, false);
    assert(x.subrange(0, x.len() as int) == x);
    let st = initial_context();
    assert forall|k: int| 0 <= k < x.len() implies #[trigger] scan_step(x, k, st) == (
        seq!['\\', x[k]],
        k + 1,
        st,
    ) by {
        assert(is_reserved(x[k]) && !is_marker(x[k]) && x[k] != '[');
    }
    lemma_scan_escapes(x, 0, st);
    assert forall|k: int| 0 <= k < x.len() implies is_reserved(#[trigger] x[k]) by {}
    lemma_unmarked_backslashed(x);
    lemma_links_absent(x, 0, true, false, false);
}

/// The fence of a code block.
pub open spec fn fence() -> Seq<char> {
    seq!['`', '`', '`']
}

/// A fenced block whose body holds no backtick comes out exactly as it went in: nothing
/// inside it is escaped, reserved characters and links included.
pub proof fn lemma_fenced_block_verbatim(body: Seq<char>)
    requires
        lacks(body, '`'),
    ensures
        markdown_escaped(fence() + body + fence()) == fence() + body + fence(),
{
    let s = fence() + body + fence();
    let e: int = 3 + body.len() as int;
    assert forall|k: int| 3 <= k < e implies #[trigger] s[k] != '`' by {
        assert(s[k] == body[k - 3]);
    }
    assert(!escaped_pair(s, 0));
    assert(links_from(s, 0, false, false, false) == fence() + links_from(s, 3, false, false, true));
    lemma_links_fenced(s, 3, e);
    assert(!escaped_pair(s, e));
    assert(links_from(s, e, false, false, true) == fence() + links_from(s, e + 3, false, false, false));
    assert(links_from(s, e + 3, false, false, false) == Seq::<char>::empty());
    assert(s.subrange(3, e) == body);
    assert(links_escaped(s) == s);
    let st0 = initial_context();
    let st1 = LexicalContext { fenced_block: true, ..st0 };
    assert(scan_step(s, 0, st0) == (fence(), 3int, st1));
    assert forall|k: int| 3 <= k < e implies #[trigger] scan_step(s, k, st1) == (seq![s[k]], k + 1, st1) by {
        assert(s[k] == body[k - 3]);
    }
    lemma_scan_copies(s, 3, e, st1);
    let st2 = LexicalContext { fenced_block: false, ..st1 };
    assert(scan_step(s, e, st1) == (fence(), e + 3, st2));
    assert(scan_from(s, e + 3, st2) == Seq::<char>::empty());
    assert(scan_from(s, e, st1) == fence());
    assert(scan_from(s, 0, st0) == fence() + scan_from(s, 3, st1));
}

} // verus!
