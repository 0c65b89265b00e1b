//! Telegram MarkdownV2 escaping of user text.
//!
//! Text is kept raw in storage and escaped only when a message is rendered.
//! Rows written before September 2026 were stored already escaped, so text
//! read back from storage is unescaped first (`stored_text`).
use vstd::prelude::*;

verus! {

broadcast use vstd::string::group_string_axioms;

// ---------------------------------------------------------------------
// the model
// ---------------------------------------------------------------------

/// The characters that MarkdownV2 reserves outside of links:
/// `_ * [ ] ( ) ~ ` > # + - = | { } . !` and the backslash.
pub open spec fn is_reserved(c: char) -> bool {
    ||| c == '_'
    ||| c == '*'
    ||| c == '['
    ||| c == ']'
    ||| c == '('
    ||| c == ')'
    ||| c == '~'
    ||| c == '`'
    ||| c == '>'
    ||| c == '#'
    ||| c == '+'
    ||| c == '-'
    ||| c == '='
    ||| c == '|'
    ||| c == '{'
    ||| c == '}'
    ||| c == '.'
    ||| c == '!'
    ||| c == '\\'
}

/// One character as MarkdownV2 text: reserved ones get a backslash in front.
pub open spec fn escaped_char(c: char) -> Seq<char> {
    if is_reserved(c) {
        seq!['\\', c]
    } else {
        seq![c]
    }
}

/// `s` escaped for MarkdownV2, character by character.
pub open spec fn escaped(s: Seq<char>) -> Seq<char>
    decreases s.len(),
{
    if s.len() == 0 {
        Seq::empty()
    } else {
        escaped_char(s[0]) + escaped(s.skip(1))
    }
}

/// `s` with every backslash that stands before a reserved character dropped;
/// the reserved character itself is kept. Everything else is left as it is.
pub open spec fn unescaped(s: Seq<char>) -> Seq<char>
    decreases s.len(),
{
    if s.len() == 0 {
        Seq::empty()
    } else if s.len() >= 2 && s[0] == '\\' && is_reserved(s[1]) {
        seq![s[1]] + unescaped(s.skip(2))
    } else {
        seq![s[0]] + unescaped(s.skip(1))
    }
}

/// Inside the `(...)` part of an inline link only `)` and the backslash are
/// reserved: each of them gets a backslash in front.
pub open spec fn link_url_escaped(s: Seq<char>) -> Seq<char>
    decreases s.len(),
{
    if s.len() == 0 {
        Seq::empty()
    } else {
        (if s[0] == '\\' || s[0] == ')' {
            seq!['\\', s[0]]
        } else {
            seq![s[0]]
        }) + link_url_escaped(s.skip(1))
    }
}

/// Whether the rest `s` of a message, read from `mode` (0: plain text,
/// 1: the text of a link, 2: its url) on, is well formed: in plain text and
/// link text every reserved character is escaped, a link is `[text](url)`,
/// and in the url only `)` closes it; a backslash always escapes the
/// character after it, so a backslash cannot end a message.
pub open spec fn markdown_v2_from(mode: nat, s: Seq<char>) -> bool
    decreases s.len(),
{
    if s.len() == 0 {
        mode == 0
    } else if s[0] == '\\' {
        s.len() >= 2 && markdown_v2_from(mode, s.skip(2))
    } else if mode == 0 {
        if s[0] == '[' {
            markdown_v2_from(1, s.skip(1))
        } else {
            !is_reserved(s[0]) && markdown_v2_from(0, s.skip(1))
        }
    } else if mode == 1 {
        if s[0] == ']' {
            s.len() >= 2 && s[1] == '(' && markdown_v2_from(2, s.skip(2))
        } else {
            !is_reserved(s[0]) && markdown_v2_from(1, s.skip(1))
        }
    } else if s[0] == ')' {
        markdown_v2_from(0, s.skip(1))
    } else {
        markdown_v2_from(mode, s.skip(1))
    }
}

/// A whole message is well-formed MarkdownV2.
pub open spec fn is_markdown_v2(s: Seq<char>) -> bool {
    markdown_v2_from(0, s)
}

/// Plain MarkdownV2 text without links: every reserved character, the
/// backslash included, is escaped.
pub open spec fn is_plain_markdown_v2(s: Seq<char>) -> bool
    decreases s.len(),
{
    if s.len() == 0 {
        true
    } else if s[0] == '\\' {
        s.len() >= 2 && is_plain_markdown_v2(s.skip(2))
    } else {
        !is_reserved(s[0]) && is_plain_markdown_v2(s.skip(1))
    }
}

/// A link url in which every `)` and backslash is escaped.
pub open spec fn is_link_url(s: Seq<char>) -> bool
    decreases s.len(),
{
    if s.len() == 0 {
        true
    } else if s[0] == '\\' {
        s.len() >= 2 && is_link_url(s.skip(2))
    } else {
        s[0] != ')' && is_link_url(s.skip(1))
    }
}

/// Text without any reserved character, the backslash included.
pub open spec fn no_reserved(s: Seq<char>) -> bool {
    forall|i: int| 0 <= i < s.len() ==> !is_reserved(#[trigger] s[i])
}

/// Text in which no backslash stands before a reserved character: text that
/// was never escaped, unless it escapes by hand.
pub open spec fn has_no_escapes(s: Seq<char>) -> bool {
    forall|i: int| 0 <= i < s.len() - 1 ==> !(s[i] == '\\' && is_reserved(#[trigger] s[i + 1]))
}

// ---------------------------------------------------------------------
// trusted: std's String::push
// ---------------------------------------------------------------------

/// `String::push` of std: appends `c` at the end of `s`.
#[verifier::external_body]
pub(crate) fn push_char(s: &mut String, c: char)
    ensures
        final(s)@ == old(s)@.push(c),
{
    s.push(c)
}

// ---------------------------------------------------------------------
// executable functions
// ---------------------------------------------------------------------

/// The characters of `text`, in order.
pub fn chars_of(text: &str) -> (out: Vec<char>)
    ensures
        out@ == text@,
{
    let mut out: Vec<char> = Vec::new();
    for c in it: text.chars()
        invariant
            out@ == it.seq().take(it.index() as int),
    {
        out.push(c);
    }
    out
}

/// Appends all of `text` to `out`.
pub fn push_str(out: &mut String, text: &str)
    ensures
        final(out)@ == old(out)@ + text@,
{
    let cs = chars_of(text);
    let n = cs.len();
    let mut i: usize = 0;
    while i < n
        invariant
            n == cs@.len(),
            cs@ == text@,
            i <= n,
            out@ == old(out)@ + cs@.take(i as int),
        decreases n - i,
    {
        push_char(out, cs[i]);
        assert(cs@.take(i + 1) == cs@.take(i as int).push(cs@[i as int]));
        i = i + 1;
    }
    assert(cs@.take(n as int) == cs@);
}

/// Whether MarkdownV2 reserves `c`.
pub fn is_reserved_char(c: char) -> (r: bool)
    ensures
        r == is_reserved(c),
{
    match c {
        '_' | '*' | '[' | ']' | '(' | ')' | '~' | '`' | '>' | '#' | '+' | '-' | '=' | '|' | '{'
        | '}' | '.' | '!' | '\\' => true,
        _ => false,
    }
}

/// Escapes `text` for MarkdownV2: every reserved character gets a backslash
/// in front of it, everything else is copied.
pub fn escape_markdown_v2(text: &str) -> (out: String)
    ensures
        out@ == escaped(text@),
{
    let cs = chars_of(text);
    let n = cs.len();
    let mut out = String::new();
    let mut i: usize = 0;
    assert(cs@.skip(0) == cs@);
    while i < n
        invariant
            n == cs@.len(),
            i <= n,
            out@ + escaped(cs@.skip(i as int)) == escaped(cs@),
        decreases n - i,
    {
        let c = cs[i];
        let ghost before = out@;
        let ghost rest = cs@.skip(i as int);
        assert(rest[0] == c);
        assert(rest.skip(1) == cs@.skip(i + 1));
        if is_reserved_char(c) {
            push_char(&mut out, '\\');
        }
        push_char(&mut out, c);
        assert(out@ == before + escaped_char(c));
        assert(before + escaped(rest) == before + escaped_char(c) + escaped(cs@.skip(i + 1)));
        i = i + 1;
    }
    assert(cs@.skip(n as int).len() == 0);
    assert(out@ + escaped(cs@.skip(n as int)) == out@);
    out
}

/// Drops the backslash in front of every reserved character; any other
/// character, a lone backslash included, is copied.
pub fn unescape_markdown_v2(text: &str) -> (out: String)
    ensures
        out@ == unescaped(text@),
{
    let cs = chars_of(text);
    let n = cs.len();
    let mut out = String::new();
    let mut i: usize = 0;
    assert(cs@.skip(0) == cs@);
    while i < n
        invariant
            n == cs@.len(),
            i <= n,
            out@ + unescaped(cs@.skip(i as int)) == unescaped(cs@),
        decreases n - i,
    {
        let c = cs[i];
        let ghost before = out@;
        let ghost rest = cs@.skip(i as int);
        assert(rest[0] == c);
        if c == '\\' && i + 1 < n && is_reserved_char(cs[i + 1]) {
            assert(rest[1] == cs@[i + 1]);
            assert(rest.skip(2) == cs@.skip(i + 2));
            push_char(&mut out, cs[i + 1]);
            assert(out@ + unescaped(cs@.skip(i + 2)) == before + unescaped(rest));
            i = i + 2;
        } else {
            assert(rest.skip(1) == cs@.skip(i + 1));
            push_char(&mut out, c);
            assert(out@ + unescaped(cs@.skip(i + 1)) == before + unescaped(rest));
            i = i + 1;
        }
    }
    assert(cs@.skip(n as int).len() == 0);
    assert(out@ + unescaped(cs@.skip(n as int)) == out@);
    out
}

/// Escapes a url for the `(...)` part of an inline link, where only `)` and
/// the backslash are reserved.
pub fn escape_link_url(url: &str) -> (out: String)
    ensures
        out@ == link_url_escaped(url@),
{
    let cs = chars_of(url);
    let n = cs.len();
    let mut out = String::new();
    let mut i: usize = 0;
    assert(cs@.skip(0) == cs@);
    while i < n
        invariant
            n == cs@.len(),
            i <= n,
            out@ + link_url_escaped(cs@.skip(i as int)) == link_url_escaped(cs@),
        decreases n - i,
    {
        let c = cs[i];
        let ghost before = out@;
        let ghost rest = cs@.skip(i as int);
        assert(rest[0] == c);
        assert(rest.skip(1) == cs@.skip(i + 1));
        if c == '\\' || c == ')' {
            push_char(&mut out, '\\');
        }
        push_char(&mut out, c);
        assert(out@ + link_url_escaped(cs@.skip(i + 1)) == before + link_url_escaped(rest));
        i = i + 1;
    }
    assert(cs@.skip(n as int).len() == 0);
    assert(out@ + link_url_escaped(cs@.skip(n as int)) == out@);
    out
}

/// Text as read back from storage. Text is stored raw, but rows written
/// before September 2026 were stored already MarkdownV2-escaped, so they are
/// unescaped on read; raw text without escapes comes back as it is
/// (`lemma_raw_text_is_kept`).
pub fn stored_text(text: &str) -> (out: String)
    ensures
        out@ == unescaped(text@),
{
    unescape_markdown_v2(text)
}

/// Asserts that `s` is well-formed MarkdownV2; a text that is not is
/// refused by the precondition (`check_markdown_v2` tells the two apart).
pub fn assert_markdown_v2(s: &str)
    requires
        is_markdown_v2(s@),
{
    let ok = check_markdown_v2(s);
    assert(ok);
}

/// Whether `s` is well-formed MarkdownV2 (see `is_markdown_v2`): every
/// reserved character is escaped, and in `[text](url)` links only `)` and
/// the backslash are reserved inside the url.
pub fn check_markdown_v2(s: &str) -> (ok: bool)
    ensures
        ok == is_markdown_v2(s@),
{
    let cs = chars_of(s);
    let n = cs.len();
    let mut i: usize = 0;
    let mut mode: u8 = 0;
    assert(cs@.skip(0) == cs@);
    while i < n
        invariant
            n == cs@.len(),
            i <= n,
            mode <= 2,
            cs@ == s@,
            markdown_v2_from(mode as nat, cs@.skip(i as int)) == is_markdown_v2(cs@),
        decreases n - i,
    {
        let ghost rest = cs@.skip(i as int);
        let c = cs[i];
        assert(rest[0] == c);
        assert(rest.skip(1) == cs@.skip(i + 1));
        assert(i + 1 < n ==> rest[1] == cs@[i + 1]);
        if c == '\\' {
            if i + 1 < n {
                assert(rest.skip(2) == cs@.skip(i + 2));
                i = i + 2;
            } else {
                assert(rest.len() == 1);
                return false;
            }
        } else if mode == 0 {
            if c == '[' {
                mode = 1;
            } else if is_reserved_char(c) {
                return false;
            }
            i = i + 1;
        } else if mode == 1 {
            if c == ']' {
                if i + 1 < n && cs[i + 1] == '(' {
                    assert(rest[1] == cs@[i + 1]);
                    assert(rest.skip(2) == cs@.skip(i + 2));
                    mode = 2;
                    i = i + 2;
                } else {
                    return false;
                }
            } else if is_reserved_char(c) {
                return false;
            } else {
                i = i + 1;
            }
        } else {
            if c == ')' {
                mode = 0;
            }
            i = i + 1;
        }
    }
    assert(cs@.skip(n as int).len() == 0);
    mode == 0
}

// ---------------------------------------------------------------------
// laws
// ---------------------------------------------------------------------

/// Unescaping what was escaped gives the text back: no text is changed by a
/// round trip through MarkdownV2.
pub proof fn lemma_unescape_escape(s: Seq<char>)
    ensures
        unescaped(escaped(s)) == s,
    decreases s.len(),
{
    if s.len() > 0 {
        let t = escaped(s);
        lemma_unescape_escape(s.skip(1));
        if is_reserved(s[0]) {
            assert(t[0] == '\\' && t[1] == s[0]);
            assert(t.skip(2) == escaped(s.skip(1)));
        } else {
            assert(t[0] == s[0]);
            assert(t.skip(1) == escaped(s.skip(1)));
        }
        assert(s == seq![s[0]] + s.skip(1));
    }
}

/// Escaped text is plain MarkdownV2: no reserved character of it stands
/// unescaped.
pub proof fn lemma_escaped_is_plain_markdown_v2(s: Seq<char>)
    ensures
        is_plain_markdown_v2(escaped(s)),
    decreases s.len(),
{
    if s.len() > 0 {
        let t = escaped(s);
        lemma_escaped_is_plain_markdown_v2(s.skip(1));
        if is_reserved(s[0]) {
            assert(t.skip(2) == escaped(s.skip(1)));
        } else {
            assert(t.skip(1) == escaped(s.skip(1)));
        }
    }
}

/// An escaped link url escapes every `)` and backslash in it.
pub proof fn lemma_link_url_escaped_is_link_url(s: Seq<char>)
    ensures
        is_link_url(link_url_escaped(s)),
    decreases s.len(),
{
    if s.len() > 0 {
        let t = link_url_escaped(s);
        lemma_link_url_escaped_is_link_url(s.skip(1));
        if s[0] == '\\' || s[0] == ')' {
            assert(t.skip(2) == link_url_escaped(s.skip(1)));
        } else {
            assert(t.skip(1) == link_url_escaped(s.skip(1)));
        }
    }
}

/// Raw text, in which no backslash stands before a reserved character, is
/// read back from storage unchanged.
pub proof fn lemma_raw_text_is_kept(s: Seq<char>)
    requires
        has_no_escapes(s),
    ensures
        unescaped(s) == s,
    decreases s.len(),
{
    if s.len() > 0 {
        assert(has_no_escapes(s.skip(1))) by {
            assert forall|i: int| 0 <= i < s.skip(1).len() - 1 implies !(s.skip(1)[i] == '\\'
                && is_reserved(#[trigger] s.skip(1)[i + 1])) by {
                assert(s.skip(1)[i] == s[i + 1]);
                assert(s.skip(1)[i + 1] == s[i + 2]);
            }
        }
        lemma_raw_text_is_kept(s.skip(1));
        if s.len() >= 2 {
            assert(!(s[0int] == '\\' && is_reserved(s[0int + 1])));
        }
        assert(s == seq![s[0]] + s.skip(1));
    }
}

/// Plain MarkdownV2 text followed by a well-formed rest is well formed.
pub proof fn lemma_plain_then_markdown_v2(a: Seq<char>, b: Seq<char>, mode: nat)
    requires
        is_plain_markdown_v2(a),
        markdown_v2_from(mode, b),
        mode == 0 || mode == 1,
    ensures
        markdown_v2_from(mode, a + b),
    decreases a.len(),
{
    if a.len() > 0 {
        let ab = a + b;
        if a[0] == '\\' {
            assert(ab.skip(2) == a.skip(2) + b);
            lemma_plain_then_markdown_v2(a.skip(2), b, mode);
        } else {
            assert(ab.skip(1) == a.skip(1) + b);
            lemma_plain_then_markdown_v2(a.skip(1), b, mode);
        }
    } else {
        assert(a + b == b);
    }
}

/// A link url whose `)` and backslashes are escaped, followed by the `)` that
/// closes the link and a well-formed rest, is well formed as the url part.
pub proof fn lemma_link_url_then_markdown_v2(u: Seq<char>, b: Seq<char>)
    requires
        is_link_url(u),
        is_markdown_v2(b),
    ensures
        markdown_v2_from(2, u + seq![')'] + b),
    decreases u.len(),
{
    let ub = u + seq![')'] + b;
    if u.len() > 0 {
        if u[0] == '\\' {
            assert(ub.skip(2) == u.skip(2) + seq![')'] + b);
            lemma_link_url_then_markdown_v2(u.skip(2), b);
        } else {
            assert(ub.skip(1) == u.skip(1) + seq![')'] + b);
            lemma_link_url_then_markdown_v2(u.skip(1), b);
        }
    } else {
        assert(ub[0] == ')');
        assert(ub.skip(1) == b);
    }
}

/// A link `[text](url)` with plain text and an escaped url, followed by a
/// well-formed rest, is well formed.
pub proof fn lemma_link_then_markdown_v2(text: Seq<char>, url: Seq<char>, b: Seq<char>)
    requires
        is_plain_markdown_v2(text),
        is_link_url(url),
        is_markdown_v2(b),
    ensures
        is_markdown_v2(seq!['['] + text + seq![']', '('] + url + seq![')'] + b),
{
    let tail = url + seq![')'] + b;
    lemma_link_url_then_markdown_v2(url, b);
    let close = seq![']', '('] + tail;
    assert(close[0] == ']' && close[1] == '(');
    assert(close.skip(2) == tail);
    lemma_plain_then_markdown_v2(text, close, 1);
    let whole = seq!['['] + text + seq![']', '('] + url + seq![')'] + b;
    assert(whole == seq!['['] + (text + close));
    assert(whole.skip(1) == text + close);
}

/// Text without reserved characters is plain MarkdownV2 as it is.
pub proof fn lemma_no_reserved_is_plain(s: Seq<char>)
    requires
        no_reserved(s),
    ensures
        is_plain_markdown_v2(s),
    decreases s.len(),
{
    if s.len() > 0 {
        assert(!is_reserved(s[0]));
        assert(no_reserved(s.skip(1))) by {
            assert forall|i: int| 0 <= i < s.skip(1).len() implies !is_reserved(#[trigger] s.skip(1)[i]) by {
                assert(s.skip(1)[i] == s[i + 1]);
            }
        }
        lemma_no_reserved_is_plain(s.skip(1));
    }
}

/// Two pieces without reserved characters make one.
pub proof fn lemma_no_reserved_concat(a: Seq<char>, b: Seq<char>)
    requires
        no_reserved(a),
        no_reserved(b),
    ensures
        no_reserved(a + b),
{
    assert forall|i: int| 0 <= i < (a + b).len() implies !is_reserved(#[trigger] (a + b)[i]) by {
        if i < a.len() {
            assert((a + b)[i] == a[i]);
        } else {
            assert((a + b)[i] == b[i - a.len()]);
        }
    }
}

/// Two pieces of plain MarkdownV2 make one.
pub proof fn lemma_plain_concat(a: Seq<char>, b: Seq<char>)
    requires
        is_plain_markdown_v2(a),
        is_plain_markdown_v2(b),
    ensures
        is_plain_markdown_v2(a + b),
    decreases a.len(),
{
    if a.len() > 0 {
        let ab = a + b;
        if a[0] == '\\' {
            assert(ab.skip(2) == a.skip(2) + b);
            lemma_plain_concat(a.skip(2), b);
        } else {
            assert(ab.skip(1) == a.skip(1) + b);
            lemma_plain_concat(a.skip(1), b);
        }
    } else {
        assert(a + b == b);
    }
}

/// A backslash and the character it escapes are plain MarkdownV2.
pub proof fn lemma_escape_pair_is_plain(c: char)
    ensures
        is_plain_markdown_v2(seq!['\\', c]),
{
    let s = seq!['\\', c];
    assert(s[0] == '\\');
    assert(s.len() == 2);
    assert(is_plain_markdown_v2(s.skip(2)));
}

/// Plain MarkdownV2 is a well-formed message.
pub proof fn lemma_plain_is_markdown_v2(s: Seq<char>)
    requires
        is_plain_markdown_v2(s),
    ensures
        is_markdown_v2(s),
{
    lemma_plain_then_markdown_v2(s, Seq::empty(), 0);
    assert(s + Seq::<char>::empty() == s);
}

/// A message made of plain text, one `[text](url)` link with plain text and
/// an escaped url, and plain text after it, is well formed.
pub proof fn lemma_message_with_link(
    prefix: Seq<char>,
    text: Seq<char>,
    url: Seq<char>,
    suffix: Seq<char>,
)
    requires
        is_plain_markdown_v2(prefix),
        is_plain_markdown_v2(text),
        is_link_url(url),
        is_plain_markdown_v2(suffix),
    ensures
        is_markdown_v2(prefix + seq!['['] + text + seq![']', '('] + url + seq![')'] + suffix),
{
    lemma_plain_is_markdown_v2(suffix);
    lemma_link_then_markdown_v2(text, url, suffix);
    let link = seq!['['] + text + seq![']', '('] + url + seq![')'] + suffix;
    lemma_plain_then_markdown_v2(prefix, link, 0);
    assert(prefix + link == prefix + seq!['['] + text + seq![']', '('] + url + seq![')'] + suffix);
}

/// Appends the inline link `[text](url)`, with the url escaped for links.
pub fn push_link(out: &mut String, text: &str, url: &str)
    ensures
        final(out)@ == old(out)@ + seq!['['] + text@ + seq![']', '('] + link_url_escaped(url@)
            + seq![')'],
{
    push_char(out, '[');
    push_str(out, text);
    push_char(out, ']');
    push_char(out, '(');
    let escaped_url = escape_link_url(url);
    push_str(out, escaped_url.as_str());
    push_char(out, ')');
}

/// Escaped text, shown on its own, is a well-formed MarkdownV2 message.
pub proof fn lemma_escaped_is_markdown_v2(s: Seq<char>)
    ensures
        is_markdown_v2(escaped(s)),
{
    lemma_escaped_is_plain_markdown_v2(s);
    lemma_plain_is_markdown_v2(escaped(s));
}

/// A link `[text](url)` with plain text and an escaped url is a well-formed
/// MarkdownV2 message, whatever the url holds.
pub proof fn lemma_link_with_escaped_url_is_markdown_v2(text: Seq<char>, url: Seq<char>)
    requires
        is_plain_markdown_v2(text),
    ensures
        is_markdown_v2(seq!['['] + text + seq![']', '('] + link_url_escaped(url) + seq![')']),
{
    lemma_link_url_escaped_is_link_url(url);
    lemma_message_with_link(Seq::empty(), text, link_url_escaped(url), Seq::empty());
    assert(Seq::<char>::empty() + seq!['['] + text + seq![']', '('] + link_url_escaped(url)
        + seq![')'] + Seq::<char>::empty() == seq!['['] + text + seq![']', '(']
        + link_url_escaped(url) + seq![')']);
}

/// How a link url is read: a backslash stands for the character after it.
pub open spec fn link_url_unescaped(s: Seq<char>) -> Seq<char>
    decreases s.len(),
{
    if s.len() == 0 {
        Seq::empty()
    } else if s.len() >= 2 && s[0] == '\\' {
        seq![s[1]] + link_url_unescaped(s.skip(2))
    } else {
        seq![s[0]] + link_url_unescaped(s.skip(1))
    }
}

/// Reading an escaped link url gives back the url: a link is shown as it
/// is, and a url without `)` or backslash is not changed at all.
pub proof fn lemma_link_url_round_trip(s: Seq<char>)
    ensures
        link_url_unescaped(link_url_escaped(s)) == s,
        (forall|i: int| 0 <= i < s.len() ==> s[i] != ')' && s[i] != '\\') ==> link_url_escaped(s)
            == s,
    decreases s.len(),
{
    if s.len() > 0 {
        let t = link_url_escaped(s);
        lemma_link_url_round_trip(s.skip(1));
        if s[0] == '\\' || s[0] == ')' {
            assert(t.skip(2) == link_url_escaped(s.skip(1)));
        } else {
            assert(t.skip(1) == link_url_escaped(s.skip(1)));
            if forall|i: int| 0 <= i < s.len() ==> s[i] != ')' && s[i] != '\\' {
                assert forall|i: int| 0 <= i < s.skip(1).len() implies s.skip(1)[i] != ')'
                    && s.skip(1)[i] != '\\' by {
                    assert(s.skip(1)[i] == s[i + 1]);
                }
            }
        }
        assert(s == seq![s[0]] + s.skip(1));
    }
}

/// MarkdownV2 reserves exactly the characters of its list
/// `_*[]()~`>#+-=|{}.!` and the backslash.
pub proof fn lemma_reserved_characters(c: char)
    ensures
        is_reserved(c) <==> "_*[]()~`>#+-=|{}.!\\"@.contains(c),
{
    reveal_strlit("_*[]()~`>#+-=|{}.!\\");
    let list = "_*[]()~`>#+-=|{}.!\\"@;
    if is_reserved(c) {
        if c == '_' { assert(list[0] == c); }
        else if c == '*' { assert(list[1] == c); }
        else if c == '[' { assert(list[2] == c); }
        else if c == ']' { assert(list[3] == c); }
        else if c == '(' { assert(list[4] == c); }
        else if c == ')' { assert(list[5] == c); }
        else if c == '~' { assert(list[6] == c); }
        else if c == '`' { assert(list[7] == c); }
        else if c == '>' { assert(list[8] == c); }
        else if c == '#' { assert(list[9] == c); }
        else if c == '+' { assert(list[10] == c); }
        else if c == '-' { assert(list[11] == c); }
        else if c == '=' { assert(list[12] == c); }
        else if c == '|' { assert(list[13] == c); }
        else if c == '{' { assert(list[14] == c); }
        else if c == '}' { assert(list[15] == c); }
        else if c == '.' { assert(list[16] == c); }
        else if c == '!' { assert(list[17] == c); }
        else { assert(list[18] == c); }
    }
}

/// What a well-formed message refuses and accepts, character by character:
/// a reserved character on its own, or unescaped in the text of a link, is
/// refused, and so are a lone backslash and a link without its url or
/// without the `)` that closes it; inside the url any character but `)` and
/// the backslash stands as it is.
pub proof fn lemma_markdown_v2_refuses_unescaped_reserved(c: char, x: char)
    ensures
        is_reserved(c) ==> !is_markdown_v2(seq![c]),
        is_reserved(c) && c != ']' && c != '\\' ==> !is_markdown_v2(
            seq!['[', c, ']', '(', 'u', ')'],
        ),
        !is_markdown_v2(seq!['\\']),
        !is_markdown_v2(seq!['[', 'x', ']', x]) || x == '(',
        !is_markdown_v2(seq!['[', 'x', ']', '(', 'u']),
        x != ')' && x != '\\' ==> is_markdown_v2(seq!['[', 'x', ']', '(', x, ')']),
        !is_reserved(x) ==> is_markdown_v2(seq![x]),
{
    let a = seq![c];
    assert(a.skip(1).len() == 0);
    let b = seq!['[', c, ']', '(', 'u', ')'];
    assert(b.skip(1) == seq![c, ']', '(', 'u', ')']);
    if is_reserved(c) && c != ']' && c != '\\' {
        assert(b.skip(1)[0] == c);
        assert(!markdown_v2_from(1, b.skip(1)));
    }
    let l = seq!['[', 'x', ']', x];
    assert(l.skip(1) == seq!['x', ']', x]);
    assert(l.skip(1).skip(1) == seq![']', x]);
    if x != '(' {
        assert(l.skip(1).skip(1)[1] == x);
        assert(!markdown_v2_from(1, l.skip(1).skip(1)));
        assert(!markdown_v2_from(1, l.skip(1)));
    }
    let o = seq!['[', 'x', ']', '(', 'u'];
    assert(o.skip(1) == seq!['x', ']', '(', 'u']);
    assert(o.skip(1).skip(1) == seq![']', '(', 'u']);
    assert(o.skip(1).skip(1).skip(2) == seq!['u']);
    assert(o.skip(1).skip(1).skip(2).skip(1).len() == 0);
    assert(!markdown_v2_from(2, o.skip(1).skip(1).skip(2).skip(1)));
    assert(!markdown_v2_from(2, o.skip(1).skip(1).skip(2)));
    assert(!markdown_v2_from(1, o.skip(1).skip(1)));
    assert(!markdown_v2_from(1, o.skip(1)));
    let xs = seq![x];
    if !is_reserved(x) {
        assert(xs.skip(1).len() == 0);
        assert(markdown_v2_from(0, xs.skip(1)));
    }
    let g = seq!['[', 'x', ']', '(', x, ')'];
    assert(g.skip(1) == seq!['x', ']', '(', x, ')']);
    assert(g.skip(1).skip(1) == seq![']', '(', x, ')']);
    assert(g.skip(1).skip(1).skip(2) == seq![x, ')']);
    assert(g.skip(1).skip(1).skip(2).skip(1) == seq![')']);
    assert(g.skip(1).skip(1).skip(2).skip(1).skip(1).len() == 0);
    if x != ')' && x != '\\' {
        assert(markdown_v2_from(0, g.skip(1).skip(1).skip(2).skip(1).skip(1)));
        assert(markdown_v2_from(2, g.skip(1).skip(1).skip(2).skip(1)));
        assert(markdown_v2_from(2, g.skip(1).skip(1).skip(2)));
        assert(markdown_v2_from(1, g.skip(1).skip(1)));
        assert(markdown_v2_from(1, g.skip(1)));
    }
    assert(markdown_v2_from(0, a.skip(1)));
    assert(!markdown_v2_from(1, a.skip(1)));
}

} // verus!
