//! Replies the relay composes for user-interaction messages: the mock-action
//! reply to `/do_sth`-style messages, and the keyword-replacement reply.

use vstd::prelude::*;
use crate::msgfmt::append_chars;
use crate::msgfmt::chars_of;
use crate::msgfmt::chars_to_string;
use crate::textops::replace_chars;
use crate::textops::replace_spec;
use crate::textops::split_ascii_ws;
use crate::textops::ws_tokens;

verus! {

/// Whether the text holds an at sign anywhere.
pub open spec fn contains_at_sign(text: Seq<char>) -> bool {
    exists|k: int| 0 <= k < text.len() && text[k] == '@'
}

/// The mock-action reply for a message `text`, or `None` when the message is
/// no such action: it must start with a slash, hold no at sign, and its
/// first word after the slash must exist and not be `me`.  The reply names
/// the sender, the action word, the addressee, and the action's second word
/// when there is one.
pub open spec fn action_reply_of(text: Seq<char>, from: Seq<char>, to: Seq<char>) -> Option<Seq<char>> {
    if text.len() == 0 || text[0] != '/' || contains_at_sign(text) {
        None
    } else {
        let acts = ws_tokens(text.drop_first());
        if acts.len() == 0 || acts[0] == seq!['m', 'e'] {
            None
        } else if acts.len() > 1 {
            Some(from + seq![' '] + acts[0] + seq!['了', ' '] + to + seq![' '] + acts[1])
        } else {
            Some(from + seq![' '] + acts[0] + seq!['了', ' '] + to)
        }
    }
}

/// Compose the mock-action reply to `text`, with the sender and the
/// addressee already rendered as markup, exactly as `action_reply_of`
/// describes.
pub fn compose_action_reply(text: &str, from_markup: &str, to_markup: &str) -> (r: Option<String>)
    ensures
        r matches Some(msg) ==> action_reply_of(text@, from_markup@, to_markup@) == Some(msg@),
        r is None <==> action_reply_of(text@, from_markup@, to_markup@) is None,
{
    let v = chars_of(text);
    if v.len() == 0 {
        return None;
    }
    if v[0] != '/' {
        return None;
    }
    let mut k: usize = 0;
    while k < v.len()
        invariant
            k <= v@.len(),
            v@ == text@,
            forall|x: int| 0 <= x < k ==> v@[x] != '@',
        decreases v@.len() - k,
    {
        if v[k] == '@' {
            proof {
                assert(contains_at_sign(text@));
            }
            return None;
        }
        k = k + 1;
    }
    proof {
        assert(!contains_at_sign(text@));
    }
    let mut rest: Vec<char> = Vec::new();
    let mut idx: usize = 1;
    proof {
        assert(rest@ =~= v@.subrange(1, 1));
    }
    while idx < v.len()
        invariant
            1 <= idx <= v@.len(),
            v@ == text@,
            rest@ == v@.subrange(1, idx as int),
        decreases v@.len() - idx,
    {
        let c = v[idx];
        rest.push(c);
        idx = idx + 1;
        proof {
            assert(rest@ =~= v@.subrange(1, idx as int));
        }
    }
    proof {
        assert(rest@ =~= text@.drop_first());
    }
    let toks = split_ascii_ws(&rest);
    let ghost acts = ws_tokens(text@.drop_first());
    proof {
        assert(toks.deep_view() == acts);
        assert(toks.deep_view().len() == toks@.len());
    }
    if toks.len() == 0 {
        return None;
    }
    let t0: &Vec<char> = &toks[0];
    let is_me = t0.len() == 2 && t0[0] == 'm' && t0[1] == 'e';
    proof {
        assert(toks.deep_view()[0] == toks@[0]@);
        if is_me {
            assert(t0@ =~= seq!['m', 'e']);
        }
        if !is_me && t0@ == seq!['m', 'e'] {
            assert(t0@.len() == 2);
            assert(t0@[0] == 'm');
            assert(t0@[1] == 'e');
            assert(false);
        }
    }
    if is_me {
        return None;
    }
    let mut out: Vec<char> = Vec::new();
    let fm = chars_of(from_markup);
    append_chars(&mut out, &fm);
    out.push(' ');
    append_chars(&mut out, t0);
    out.push('了');
    out.push(' ');
    let tm = chars_of(to_markup);
    append_chars(&mut out, &tm);
    if toks.len() > 1 {
        let t1: &Vec<char> = &toks[1];
        out.push(' ');
        append_chars(&mut out, t1);
        proof {
            assert(toks.deep_view()[1] == toks@[1]@);
            assert(out@ =~= from_markup@ + seq![' '] + acts[0] + seq!['了', ' '] + to_markup@
                + seq![' '] + acts[1]);
        }
    } else {
        proof {
            assert(out@ =~= from_markup@ + seq![' '] + acts[0] + seq!['了', ' '] + to_markup@);
        }
    }
    Some(chars_to_string(&out))
}

/// The keyword-replacement reply: the replacing user's markup, a full-width
/// colon, and the text with every occurrence of the keyword replaced.
pub open spec fn replace_reply_of(replacer: Seq<char>, text: Seq<char>, keyword: Seq<char>, replacement: Seq<char>) -> Seq<char> {
    replacer + seq![' ', '：'] + replace_spec(text, keyword, replacement)
}

/// Compose the keyword-replacement reply, exactly as `replace_reply_of`
/// describes.
pub fn compose_replace_reply(replacer_markup: &str, text: &str, keyword: &str, replacement: &str) -> (r: String)
    ensures
        r@ == replace_reply_of(replacer_markup@, text@, keyword@, replacement@),
{
    let mut out = chars_of(replacer_markup);
    out.push(' ');
    out.push('：');
    let sv = chars_of(text);
    let kv = chars_of(keyword);
    let rv = chars_of(replacement);
    let rep = replace_chars(&sv, &kv, &rv);
    append_chars(&mut out, &rep);
    proof {
        assert(out@ =~= replace_reply_of(replacer_markup@, text@, keyword@, replacement@));
    }
    chars_to_string(&out)
}

} // verus!
