//! Verified text operations: keyword replacement, trailing question-mark
//! trimming, and splitting on ascii whitespace.

use vstd::prelude::*;
use crate::msgfmt::append_chars;
use crate::msgfmt::chars_of;
use crate::msgfmt::chars_to_string;

verus! {

/// The characters of `s` with every occurrence of `from` replaced by `to`,
/// leftmost first and without overlap.  An empty `from` matches at every
/// character boundary, the ends included.
pub open spec fn replace_spec(s: Seq<char>, from: Seq<char>, to: Seq<char>) -> Seq<char>
    decreases s.len(),
{
    if s.len() == 0 {
        if from.len() == 0 {
            to
        } else {
            Seq::empty()
        }
    } else if from.len() == 0 {
        to + seq![s[0]] + replace_spec(s.drop_first(), from, to)
    } else if from.len() <= s.len() && s.take(from.len() as int) == from {
        to + replace_spec(s.skip(from.len() as int), from, to)
    } else {
        seq![s[0]] + replace_spec(s.drop_first(), from, to)
    }
}

fn matches_at(s: &Vec<char>, from: &Vec<char>, i: usize) -> (b: bool)
    requires
        i <= s@.len(),
    ensures
        b == (i + from@.len() <= s@.len()
            && s@.subrange(i as int, i as int + from@.len() as int) == from@),
{
    if from.len() > s.len() - i {
        return false;
    }
    let n = s.len();
    let mut j: usize = 0;
    while j < from.len()
        invariant
            n == s@.len(),
            i + from@.len() <= n,
            j <= from@.len(),
            forall|k: int| 0 <= k < j ==> s@[i + k] == from@[k],
        decreases from@.len() - j,
    {
        proof {
            assert(i + j < s@.len());
        }
        if s[i + j] != from[j] {
            proof {
                assert(s@.subrange(i as int, i as int + from@.len() as int)[j as int]
                    == s@[i + j]);
            }
            return false;
        }
        j = j + 1;
    }
    proof {
        assert(s@.subrange(i as int, i as int + from@.len() as int) =~= from@);
    }
    true
}

/// Replace every occurrence of `from` in `s` by `to`, leftmost first and
/// without overlap, as `replace_spec` describes.
pub fn replace_chars(s: &Vec<char>, from: &Vec<char>, to: &Vec<char>) -> (r: Vec<char>)
    ensures
        r@ == replace_spec(s@, from@, to@),
{
    let mut out: Vec<char> = Vec::new();
    let mut i: usize = 0;
    proof {
        assert(s@.skip(0) =~= s@);
        assert(Seq::<char>::empty() + replace_spec(s@, from@, to@) =~= replace_spec(s@, from@, to@));
    }
    if from.len() == 0 {
        while i < s.len()
            invariant
                from@.len() == 0,
                i <= s@.len(),
                replace_spec(s@, from@, to@) == out@ + replace_spec(s@.skip(i as int), from@, to@),
            decreases s@.len() - i,
        {
            let ghost rest = s@.skip(i as int);
            let ghost out0 = out@;
            proof {
                assert(rest[0] == s@[i as int]);
                assert(rest.drop_first() =~= s@.skip(i as int + 1));
            }
            append_chars(&mut out, to);
            let c = s[i];
            out.push(c);
            i = i + 1;
            proof {
                assert(out@ =~= out0 + (to@ + seq![rest[0]]));
                assert(replace_spec(rest, from@, to@)
                    == (to@ + seq![rest[0]]) + replace_spec(s@.skip(i as int), from@, to@)) by {
                    assert(to@ + seq![rest[0]] + replace_spec(rest.drop_first(), from@, to@)
                        =~= (to@ + seq![rest[0]]) + replace_spec(s@.skip(i as int), from@, to@));
                }
                assert(out0 + ((to@ + seq![rest[0]]) + replace_spec(s@.skip(i as int), from@, to@))
                    =~= (out0 + (to@ + seq![rest[0]])) + replace_spec(s@.skip(i as int), from@, to@));
            }
        }
        proof {
            assert(s@.skip(s@.len() as int) =~= Seq::<char>::empty());
        }
        append_chars(&mut out, to);
        proof {
            assert(replace_spec(Seq::<char>::empty(), from@, to@) == to@);
        }
        return out;
    }
    while i < s.len()
        invariant
            from@.len() > 0,
            i <= s@.len(),
            replace_spec(s@, from@, to@) == out@ + replace_spec(s@.skip(i as int), from@, to@),
        decreases s@.len() - i,
    {
        let ghost rest = s@.skip(i as int);
        let ghost out0 = out@;
        if matches_at(s, from, i) {
            append_chars(&mut out, to);
            i = i + from.len();
            proof {
                assert(rest.take(from@.len() as int) =~= s@.subrange(
                    i as int - from@.len() as int,
                    i as int,
                ));
                assert(rest.skip(from@.len() as int) =~= s@.skip(i as int));
                assert(replace_spec(rest, from@, to@)
                    == to@ + replace_spec(s@.skip(i as int), from@, to@));
                assert(out0 + (to@ + replace_spec(s@.skip(i as int), from@, to@))
                    =~= (out0 + to@) + replace_spec(s@.skip(i as int), from@, to@));
            }
        } else {
            let c = s[i];
            out.push(c);
            i = i + 1;
            proof {
                assert(rest[0] == s@[i - 1]);
                assert(rest.drop_first() =~= s@.skip(i as int));
                if from@.len() <= rest.len() {
                    assert(rest.take(from@.len() as int) =~= s@.subrange(
                        i - 1,
                        i - 1 + from@.len() as int,
                    ));
                }
                assert(replace_spec(rest, from@, to@)
                    == seq![rest[0]] + replace_spec(s@.skip(i as int), from@, to@));
                assert(out@ =~= out0 + seq![rest[0]]);
                assert(out0 + (seq![rest[0]] + replace_spec(s@.skip(i as int), from@, to@))
                    =~= (out0 + seq![rest[0]]) + replace_spec(s@.skip(i as int), from@, to@));
            }
        }
    }
    proof {
        assert(s@.skip(s@.len() as int) =~= Seq::<char>::empty());
        assert(out@ + Seq::<char>::empty() =~= out@);
    }
    out
}

/// Replace every occurrence of `from` in `s` by `to`, as `replace_spec`
/// describes.
pub fn replace_all(s: &str, from: &str, to: &str) -> (r: String)
    ensures
        r@ == replace_spec(s@, from@, to@),
{
    let sv = chars_of(s);
    let fv = chars_of(from);
    let tv = chars_of(to);
    let out = replace_chars(&sv, &fv, &tv);
    chars_to_string(&out)
}

/// The characters of `s` with every trailing question mark removed.
pub open spec fn trim_trailing_questions(s: Seq<char>) -> Seq<char>
    decreases s.len(),
{
    if s.len() > 0 && s.last() == '?' {
        trim_trailing_questions(s.drop_last())
    } else {
        s
    }
}

/// Remove every trailing question mark of `s`.
pub fn trim_query_marks(s: &str) -> (r: String)
    ensures
        r@ == trim_trailing_questions(s@),
{
    let mut v = chars_of(s);
    let mut end = v.len();
    proof {
        assert(s@.take(s@.len() as int) =~= s@);
    }
    while end > 0 && v[end - 1] == '?'
        invariant
            end <= v@.len(),
            v@ == s@,
            trim_trailing_questions(s@) == trim_trailing_questions(s@.take(end as int)),
        decreases end,
    {
        proof {
            let cur = s@.take(end as int);
            assert(cur.last() == s@[end - 1]);
            assert(cur.drop_last() =~= s@.take(end - 1));
        }
        end = end - 1;
    }
    proof {
        let cur = s@.take(end as int);
        if end > 0 {
            assert(cur.last() == s@[end - 1]);
        }
        assert(trim_trailing_questions(cur) == cur);
    }
    v.truncate(end);
    chars_to_string(&v)
}

/// Whether `c` is one of the five ascii whitespace characters.
pub open spec fn is_ascii_ws(c: char) -> bool {
    c == ' ' || c == '\t' || c == '\n' || c == '\x0C' || c == '\r'
}

fn is_ascii_ws_exec(c: char) -> (b: bool)
    ensures
        b == is_ascii_ws(c),
{
    c == ' ' || c == '\t' || c == '\n' || c == '\x0C' || c == '\r'
}

/// The position right after the whitespace-free run that starts at `i`.
pub open spec fn token_end(s: Seq<char>, i: int) -> int
    decreases s.len() - i when 0 <= i <= s.len()
{
    if i < s.len() && !is_ascii_ws(s[i]) {
        token_end(s, i + 1)
    } else {
        i
    }
}

/// The run starting at `i` ends no earlier than `i` and within `s`; when a
/// run starts, its end lies strictly beyond its start.
pub proof fn lemma_token_end_bounds(s: Seq<char>, i: int)
    requires
        0 <= i <= s.len(),
    ensures
        i <= token_end(s, i) <= s.len(),
        i < s.len() && !is_ascii_ws(s[i]) ==> token_end(s, i) > i,
    decreases s.len() - i,
{
    if i < s.len() && !is_ascii_ws(s[i]) {
        lemma_token_end_bounds(s, i + 1);
    }
}

/// The maximal whitespace-free words of `s` from position `i` on, in order.
pub open spec fn ws_tokens_from(s: Seq<char>, i: int) -> Seq<Seq<char>>
    decreases s.len() - i when 0 <= i <= s.len() via ws_tokens_from_decreases
{
    if i >= s.len() {
        Seq::empty()
    } else if is_ascii_ws(s[i]) {
        ws_tokens_from(s, i + 1)
    } else {
        seq![s.subrange(i, token_end(s, i))] + ws_tokens_from(s, token_end(s, i))
    }
}

#[via_fn]
proof fn ws_tokens_from_decreases(s: Seq<char>, i: int) {
    if 0 <= i <= s.len() && i < s.len() && !is_ascii_ws(s[i]) {
        lemma_token_end_bounds(s, i);
    }
}

/// The maximal whitespace-free words of `s`, in order: what splitting on
/// ascii whitespace yields.
pub open spec fn ws_tokens(s: Seq<char>) -> Seq<Seq<char>> {
    ws_tokens_from(s, 0)
}

/// A scan that ran from `i` to `j` over non-whitespace and stopped at the
/// end or at whitespace found exactly the run that starts at `i`.
proof fn lemma_token_end_scan(s: Seq<char>, i: int, j: int)
    requires
        0 <= i <= j <= s.len(),
        forall|k: int| i <= k < j ==> !is_ascii_ws(s[k]),
        j == s.len() || is_ascii_ws(s[j]),
    ensures
        token_end(s, i) == j,
    decreases j - i,
{
    if i < j {
        lemma_token_end_scan(s, i + 1, j);
    }
}

/// Split `v` into its maximal whitespace-free words, as `ws_tokens`
/// describes.
pub fn split_ascii_ws(v: &Vec<char>) -> (r: Vec<Vec<char>>)
    ensures
        r.deep_view() == ws_tokens(v@),
{
    let mut out: Vec<Vec<char>> = Vec::new();
    let mut i: usize = 0;
    proof {
        assert(Seq::<Seq<char>>::empty() + ws_tokens_from(v@, 0) =~= ws_tokens_from(v@, 0));
    }
    while i < v.len()
        invariant
            i <= v@.len(),
            ws_tokens(v@) == out.deep_view() + ws_tokens_from(v@, i as int),
        decreases v@.len() - i,
    {
        let ghost out0 = out.deep_view();
        if is_ascii_ws_exec(v[i]) {
            i = i + 1;
        } else {
            let ghost start = i as int;
            let mut tok: Vec<char> = Vec::new();
            proof {
                assert(tok@ =~= v@.subrange(start, start));
            }
            while i < v.len() && !is_ascii_ws_exec(v[i])
                invariant
                    0 <= start <= i <= v@.len(),
                    tok@ == v@.subrange(start, i as int),
                    forall|k: int| start <= k < i ==> !is_ascii_ws(v@[k]),
                decreases v@.len() - i,
            {
                let c = v[i];
                tok.push(c);
                i = i + 1;
                proof {
                    assert(tok@ =~= v@.subrange(start, i as int));
                }
            }
            proof {
                lemma_token_end_scan(v@, start, i as int);
            }
            let ghost tokv = tok@;
            out.push(tok);
            proof {
                assert(out.deep_view() =~~= out0 + seq![tokv]);
                assert(ws_tokens_from(v@, start) == seq![tokv] + ws_tokens_from(v@, i as int));
                assert(out0 + (seq![tokv] + ws_tokens_from(v@, i as int))
                    =~~= (out0 + seq![tokv]) + ws_tokens_from(v@, i as int));
            }
        }
    }
    proof {
        assert(out.deep_view() + Seq::<Seq<char>>::empty() =~= out.deep_view());
    }
    out
}

} // verus!
