//! Markdown message formatting.
//!
//! The relay sends messages in markdown style, where special characters must
//! be escaped with a backslash.  Three escaping regimes exist: ordinary
//! message text, the URL inside an inline link, and the body of a code block.

use vstd::prelude::*;
use vstd::string::StrSliceExecFns;

verus! {

/// Which escaping regime applies: ordinary message text, the URL of an
/// inline link, or the body of a code block.
#[derive(Clone, Copy, Debug, PartialEq, Eq, Structural)]
pub enum EscapeSet {
    MessageText,
    LinkUrl,
    Code,
}

/// Whether `c` must be escaped under the regime `set`.
pub open spec fn special_in(set: EscapeSet, c: char) -> bool {
    match set {
        EscapeSet::MessageText => c == '_' || c == '*' || c == '[' || c == ']' || c == '('
            || c == ')' || c == '~' || c == '`' || c == '>' || c == '#' || c == '+' || c == '-'
            || c == '=' || c == '|' || c == '{' || c == '}' || c == '.' || c == '!',
        EscapeSet::LinkUrl => c == '`' || c == ')',
        EscapeSet::Code => c == '\\' || c == '`',
    }
}

/// The characters of `s` with a backslash inserted before each character
/// that is special under `set`.
pub open spec fn escaped_in(set: EscapeSet, s: Seq<char>) -> Seq<char>
    decreases s.len(),
{
    if s.len() == 0 {
        Seq::empty()
    } else {
        (if special_in(set, s[0]) {
            seq!['\\', s[0]]
        } else {
            seq![s[0]]
        }) + escaped_in(set, s.drop_first())
    }
}

fn is_special_in(set: EscapeSet, c: char) -> (b: bool)
    ensures
        b == special_in(set, c),
{
    match set {
        EscapeSet::MessageText => c == '_' || c == '*' || c == '[' || c == ']' || c == '('
            || c == ')' || c == '~' || c == '`' || c == '>' || c == '#' || c == '+' || c == '-'
            || c == '=' || c == '|' || c == '{' || c == '}' || c == '.' || c == '!',
        EscapeSet::LinkUrl => c == '`' || c == ')',
        EscapeSet::Code => c == '\\' || c == '`',
    }
}

/// The characters of a string, in order.
pub fn chars_of(s: &str) -> (v: Vec<char>)
    ensures
        v@ == s@,
{
    let n = s.unicode_len();
    let mut v: Vec<char> = Vec::new();
    let mut i: usize = 0;
    while i < n
        invariant
            n == s@.len(),
            i <= n,
            v@ == s@.take(i as int),
        decreases n - i,
    {
        let c = s.get_char(i);
        v.push(c);
        i = i + 1;
        proof {
            assert(v@ =~= s@.take(i as int));
        }
    }
    proof {
        assert(v@ =~= s@);
    }
    v
}

/// Relies on Iterator::collect for String over the vector's characters: the
/// result holds exactly those characters in order.
#[verifier::external_body]
pub fn chars_to_string(v: &Vec<char>) -> (r: String)
    ensures
        r@ == v@,
{
    v.iter().collect()
}

/// Append every character of `src` to `out`.
pub fn append_chars(out: &mut Vec<char>, src: &Vec<char>)
    ensures
        final(out)@ == old(out)@ + src@,
{
    let mut i: usize = 0;
    while i < src.len()
        invariant
            i <= src@.len(),
            out@ == old(out)@ + src@.take(i as int),
        decreases src@.len() - i,
    {
        let c = src[i];
        out.push(c);
        i = i + 1;
        proof {
            assert(out@ =~= old(out)@ + src@.take(i as int));
        }
    }
    proof {
        assert(old(out)@ + src@.take(src@.len() as int) =~= old(out)@ + src@);
    }
}

/// Escape `v` under the regime `set`.
pub fn escape_chars(set: EscapeSet, v: &Vec<char>) -> (r: Vec<char>)
    ensures
        r@ == escaped_in(set, v@),
{
    let mut out: Vec<char> = Vec::new();
    let mut i: usize = 0;
    proof {
        assert(v@.skip(0) =~= v@);
        assert(Seq::<char>::empty() + escaped_in(set, v@) =~= escaped_in(set, v@));
    }
    while i < v.len()
        invariant
            i <= v@.len(),
            escaped_in(set, v@) == out@ + escaped_in(set, v@.skip(i as int)),
        decreases v@.len() - i,
    {
        let ghost rest = v@.skip(i as int);
        proof {
            assert(rest.len() > 0);
            assert(rest[0] == v@[i as int]);
            assert(rest.drop_first() =~= v@.skip(i as int + 1));
        }
        let ghost out0 = out@;
        let c = v[i];
        if is_special_in(set, c) {
            out.push('\\');
            out.push(c);
            proof {
                assert(out@ =~= out0 + seq!['\\', v@[i as int]]);
            }
        } else {
            out.push(c);
            proof {
                assert(out@ =~= out0 + seq![v@[i as int]]);
            }
        }
        i = i + 1;
        proof {
            let head = if special_in(set, rest[0]) {
                seq!['\\', rest[0]]
            } else {
                seq![rest[0]]
            };
            assert(escaped_in(set, rest) == head + escaped_in(set, v@.skip(i as int)));
            assert(out0 + (head + escaped_in(set, v@.skip(i as int)))
                =~= (out0 + head) + escaped_in(set, v@.skip(i as int)));
        }
    }
    proof {
        assert(v@.skip(v@.len() as int) =~= Seq::<char>::empty());
        assert(out@ + Seq::<char>::empty() =~= out@);
    }
    out
}

/// The decimal digit character of `d`.
pub open spec fn dec_digit_char(d: int) -> char {
    if d == 0 {
        '0'
    } else if d == 1 {
        '1'
    } else if d == 2 {
        '2'
    } else if d == 3 {
        '3'
    } else if d == 4 {
        '4'
    } else if d == 5 {
        '5'
    } else if d == 6 {
        '6'
    } else if d == 7 {
        '7'
    } else if d == 8 {
        '8'
    } else {
        '9'
    }
}

/// The decimal digit characters of `n`, most significant first.
pub open spec fn dec_digits(n: nat) -> Seq<char>
    decreases n,
{
    if n < 10 {
        seq![dec_digit_char(n as int)]
    } else {
        dec_digits(n / 10) + seq![dec_digit_char((n % 10) as int)]
    }
}

fn dec_digit_char_exec(d: u64) -> (c: char)
    requires
        d < 10,
    ensures
        c == dec_digit_char(d as int),
{
    if d == 0 {
        '0'
    } else if d == 1 {
        '1'
    } else if d == 2 {
        '2'
    } else if d == 3 {
        '3'
    } else if d == 4 {
        '4'
    } else if d == 5 {
        '5'
    } else if d == 6 {
        '6'
    } else if d == 7 {
        '7'
    } else if d == 8 {
        '8'
    } else {
        '9'
    }
}

/// Append the decimal digits of `n` to `out`, most significant first.
pub fn push_dec_digits(n: u64, out: &mut Vec<char>)
    ensures
        final(out)@ == old(out)@ + dec_digits(n as nat),
    decreases n,
{
    if n < 10 {
        out.push(dec_digit_char_exec(n));
        proof {
            assert(out@ =~= old(out)@ + dec_digits(n as nat));
        }
    } else {
        push_dec_digits(n / 10, out);
        out.push(dec_digit_char_exec(n % 10));
        proof {
            assert(out@ =~= old(out)@ + dec_digits(n as nat));
        }
    }
}

/// The inline-link form: the anchor text in brackets, then the URL, escaped
/// under its own regime, in parentheses.
pub open spec fn link_of(url: Seq<char>, text: Seq<char>) -> Seq<char> {
    seq!['['] + text + seq![']', '('] + escaped_in(EscapeSet::LinkUrl, url) + seq![')']
}

/// A link whose anchor is the URL itself, escaped as message text.
pub open spec fn plain_link_of(url: Seq<char>) -> Seq<char> {
    link_of(url, escaped_in(EscapeSet::MessageText, url))
}

/// The user-mention URL: the fixed scheme and the decimal user identifier.
pub open spec fn tg_user_url_of(id: nat) -> Seq<char> {
    "tg://user?id="@ + dec_digits(id)
}

fn link_chars(url: &Vec<char>, text: &Vec<char>) -> (r: Vec<char>)
    ensures
        r@ == link_of(url@, text@),
{
    let mut out: Vec<char> = Vec::new();
    out.push('[');
    append_chars(&mut out, text);
    out.push(']');
    out.push('(');
    let escaped = escape_chars(EscapeSet::LinkUrl, url);
    append_chars(&mut out, &escaped);
    out.push(')');
    proof {
        assert(out@ =~= link_of(url@, text@));
    }
    out
}

/// Escape a string for ordinary markdown message text.
pub fn escape(s: &str) -> (r: String)
    ensures
        r@ == escaped_in(EscapeSet::MessageText, s@),
{
    let v = chars_of(s);
    let e = escape_chars(EscapeSet::MessageText, &v);
    chars_to_string(&e)
}

/// Escape a string for use as the URL of an inline link.
pub fn escape_link_url(s: &str) -> (r: String)
    ensures
        r@ == escaped_in(EscapeSet::LinkUrl, s@),
{
    let v = chars_of(s);
    let e = escape_chars(EscapeSet::LinkUrl, &v);
    chars_to_string(&e)
}

/// Apply the bold style to an already-formatted string.
pub fn bold(s: &str) -> (r: String)
    ensures
        r@ == seq!['*'] + s@ + seq!['*'],
{
    let mut out: Vec<char> = Vec::new();
    out.push('*');
    let v = chars_of(s);
    append_chars(&mut out, &v);
    out.push('*');
    proof {
        assert(out@ =~= seq!['*'] + s@ + seq!['*']);
    }
    chars_to_string(&out)
}

/// The code-block form: fences around the body, escaped under the code
/// regime.
pub open spec fn code_block_of(code: Seq<char>) -> Seq<char> {
    seq!['`', '`', '`', '\n'] + escaped_in(EscapeSet::Code, code) + seq!['\n', '`', '`', '`']
}

/// Format a string as a fenced code block.
pub fn code_block(code: &str) -> (r: String)
    ensures
        r@ == code_block_of(code@),
{
    let mut out: Vec<char> = Vec::new();
    out.push('`');
    out.push('`');
    out.push('`');
    out.push('\n');
    let v = chars_of(code);
    let e = escape_chars(EscapeSet::Code, &v);
    append_chars(&mut out, &e);
    out.push('\n');
    out.push('`');
    out.push('`');
    out.push('`');
    proof {
        assert(out@ =~= code_block_of(code@));
    }
    chars_to_string(&out)
}

/// An inline link with the given anchor text.
pub fn link(url: &str, text: &str) -> (r: String)
    ensures
        r@ == link_of(url@, text@),
{
    let u = chars_of(url);
    let t = chars_of(text);
    let out = link_chars(&u, &t);
    chars_to_string(&out)
}

/// A link that shows the URL itself as its anchor.
pub fn plain_link(url: &str) -> (r: String)
    ensures
        r@ == plain_link_of(url@),
{
    let u = chars_of(url);
    let t = escape_chars(EscapeSet::MessageText, &u);
    let out = link_chars(&u, &t);
    chars_to_string(&out)
}

/// A user mention: a link to the user's identifier whose anchor is the
/// user's full name, escaped as message text.
pub fn markup_username_with_link(full_name: &str, user_id: u64) -> (r: String)
    ensures
        r@ == link_of(tg_user_url_of(user_id as nat), escaped_in(EscapeSet::MessageText, full_name@)),
{
    let mut url = chars_of("tg://user?id=");
    push_dec_digits(user_id, &mut url);
    let name = chars_of(full_name);
    let text = escape_chars(EscapeSet::MessageText, &name);
    let out = link_chars(&url, &text);
    chars_to_string(&out)
}

} // verus!
