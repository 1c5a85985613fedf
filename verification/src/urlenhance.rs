//! URL cleaning support: deciding how to serve a clean-URL command, finding
//! links in a text, and composing the reply messages around the cleaner's
//! outcomes.  The cleaning itself talks to the network and lives with the
//! transport layer; everything here is composed from its plain results.

use vstd::prelude::*;
use crate::commands::CleanUrlCommand;
use crate::msgfmt::append_chars;
use crate::msgfmt::bold;
use crate::msgfmt::chars_of;
use crate::msgfmt::chars_to_string;
use crate::msgfmt::code_block_of;
use crate::msgfmt::code_block;
use crate::msgfmt::plain_link_of;
use crate::msgfmt::plain_link;
use crate::textops::trim_query_marks;
use crate::textops::trim_trailing_questions;

verus! {

/// The links that link detection finds in a text, in order, each handed back
/// as its own string.
pub uninterp spec fn links_of(s: Seq<char>) -> Seq<Seq<char>>;

/// Relies on linkify::LinkFinder::links: which substrings of a text are
/// links depends on the text's characters alone; each is handed back as its
/// own string, in order of appearance.
#[verifier::external_body]
pub fn find_links(s: &str) -> (r: Vec<String>)
    ensures
        r.deep_view() == links_of(s@),
{
    let finder = linkify::LinkFinder::new();
    finder.links(s).map(|l| l.as_str().to_string()).collect()
}

/// How a clean-URL command is served.
#[derive(Debug)]
pub enum CleanUrlPlan {
    /// Clean every link found in the replied-to message's text.
    CleanRepliedText(String),
    /// Tell the user the replied-to message cannot be handled.
    ReplyCannotHandle,
    /// Tell the user the URL argument must not be empty.
    ReplyEmptyUrl,
    /// Clean the single URL given as the command's argument.
    CleanSingleUrl(String),
}

/// Decide how to serve a clean-URL command: a replied-to message wins, and
/// its text is used when it has one; without a reply the argument URL is
/// cleaned, unless it is empty.
pub fn plan_clean_url(replied: Option<Option<String>>, cmd: CleanUrlCommand) -> (r: CleanUrlPlan)
    ensures
        replied matches Some(Some(t)) ==> (r matches CleanUrlPlan::CleanRepliedText(p) && p == t),
        (replied matches Some(n) && n is None) ==> r is ReplyCannotHandle,
        (replied is None && cmd.url@.len() == 0) ==> r is ReplyEmptyUrl,
        (replied is None && cmd.url@.len() > 0) ==> (r matches CleanUrlPlan::CleanSingleUrl(p) && p
            == cmd.url),
{
    match replied {
        Some(Some(t)) => CleanUrlPlan::CleanRepliedText(t),
        Some(None) => CleanUrlPlan::ReplyCannotHandle,
        None => {
            if cmd.url.as_str().is_empty() {
                CleanUrlPlan::ReplyEmptyUrl
            } else {
                CleanUrlPlan::CleanSingleUrl(cmd.url)
            }
        },
    }
}

/// The outcome of cleaning one link: the link as it stood in the text, and
/// the cleaned URL when cleaning succeeded.
pub struct CleanOutcome {
    pub url: String,
    pub cleaned: Option<String>,
}

impl View for CleanOutcome {
    type V = (Seq<char>, Option<Seq<char>>);

    open spec fn view(&self) -> (Seq<char>, Option<Seq<char>>) {
        (self.url@, self.cleaned.deep_view())
    }
}

impl DeepView for CleanOutcome {
    type V = (Seq<char>, Option<Seq<char>>);

    open spec fn deep_view(&self) -> (Seq<char>, Option<Seq<char>>) {
        self.view()
    }
}

/// One line of the link report: the cleaned link with trailing question
/// marks trimmed, or the original link marked as failed.
pub open spec fn cleaned_line_of(url: Seq<char>, outcome: Option<Seq<char>>) -> Seq<char> {
    match outcome {
        Some(res) => seq!['\\', '-', ' '] + plain_link_of(trim_trailing_questions(res)),
        None => seq!['\\', '-', ' '] + plain_link_of(url) + seq![' ', '解', '析', '失', '败'],
    }
}

fn cleaned_line_chars(url: &String, cleaned: &Option<String>) -> (r: Vec<char>)
    ensures
        r@ == cleaned_line_of(url@, cleaned.deep_view()),
{
    let mut out: Vec<char> = Vec::new();
    out.push('\\');
    out.push('-');
    out.push(' ');
    match cleaned {
        Some(res) => {
            let trimmed = trim_query_marks(res.as_str());
            let pl = plain_link(trimmed.as_str());
            let plv = chars_of(pl.as_str());
            append_chars(&mut out, &plv);
        },
        None => {
            let pl = plain_link(url.as_str());
            let plv = chars_of(pl.as_str());
            append_chars(&mut out, &plv);
            out.push(' ');
            out.push('解');
            out.push('析');
            out.push('失');
            out.push('败');
        },
    }
    proof {
        assert(out@ =~= cleaned_line_of(url@, cleaned.deep_view()));
    }
    out
}

/// The lines joined by single newlines, with no trailing newline.
pub open spec fn join_lines(lines: Seq<Seq<char>>) -> Seq<char>
    decreases lines.len(),
{
    if lines.len() == 0 {
        Seq::empty()
    } else if lines.len() == 1 {
        lines[0]
    } else {
        lines[0] + seq!['\n'] + join_lines(lines.drop_first())
    }
}

fn join_from(lines: &Vec<Vec<char>>, i: usize, out: &mut Vec<char>)
    requires
        i <= lines@.len(),
    ensures
        final(out)@ == old(out)@ + join_lines(lines.deep_view().skip(i as int)),
    decreases lines@.len() - i,
{
    let ghost dv = lines.deep_view();
    proof {
        assert(dv.len() == lines@.len());
    }
    if i >= lines.len() {
        proof {
            assert(dv.skip(i as int) =~= Seq::<Seq<char>>::empty());
            assert(old(out)@ + Seq::<char>::empty() =~= old(out)@);
        }
        return ;
    }
    let line: &Vec<char> = &lines[i];
    append_chars(out, line);
    proof {
        assert(dv.skip(i as int)[0] == dv[i as int]);
        assert(line@ == dv[i as int]);
    }
    if i + 1 < lines.len() {
        out.push('\n');
        join_from(lines, i + 1, out);
        proof {
            assert(dv.skip(i as int).drop_first() =~= dv.skip(i as int + 1));
            assert(join_lines(dv.skip(i as int))
                == dv[i as int] + seq!['\n'] + join_lines(dv.skip(i as int + 1)));
            assert(out@ =~= old(out)@ + join_lines(dv.skip(i as int)));
        }
    } else {
        proof {
            assert(dv.skip(i as int).len() == 1);
            assert(join_lines(dv.skip(i as int)) == dv[i as int]);
        }
    }
}

/// The header line of the link report.
pub open spec fn report_header() -> Seq<char> {
    seq!['*'] + "从回复文本中解析出的链接如下："@ + seq!['*']
}

/// The whole link report: the bold header, a blank line, then one line per
/// link outcome, joined by newlines.
pub open spec fn clean_report_of(outcomes: Seq<(Seq<char>, Option<Seq<char>>)>) -> Seq<char> {
    join_lines(
        seq![report_header(), Seq::<char>::empty()] + outcomes.map_values(
            |p: (Seq<char>, Option<Seq<char>>)| cleaned_line_of(p.0, p.1),
        ),
    )
}

/// Compose the report sent after cleaning the links of a replied-to text,
/// exactly as `clean_report_of` describes.
pub fn clean_report(outcomes: &Vec<CleanOutcome>) -> (r: String)
    ensures
        r@ == clean_report_of(outcomes.deep_view()),
{
    let ghost odv = outcomes.deep_view();
    let ghost mapped = odv.map_values(
        |p: (Seq<char>, Option<Seq<char>>)| cleaned_line_of(p.0, p.1),
    );
    let mut lines: Vec<Vec<char>> = Vec::new();
    let header = bold("从回复文本中解析出的链接如下：");
    let hv = chars_of(header.as_str());
    lines.push(hv);
    let empty_line: Vec<char> = Vec::new();
    lines.push(empty_line);
    proof {
        assert(lines.deep_view() =~~= seq![report_header(), Seq::<char>::empty()] + mapped.take(
            0,
        ));
    }
    let mut i: usize = 0;
    while i < outcomes.len()
        invariant
            i <= outcomes@.len(),
            odv == outcomes.deep_view(),
            mapped == odv.map_values(
                |p: (Seq<char>, Option<Seq<char>>)| cleaned_line_of(p.0, p.1),
            ),
            lines.deep_view() == seq![report_header(), Seq::<char>::empty()] + mapped.take(
                i as int,
            ),
        decreases outcomes@.len() - i,
    {
        let ghost lines0 = lines.deep_view();
        let o: &CleanOutcome = &outcomes[i];
        let line = cleaned_line_chars(&o.url, &o.cleaned);
        proof {
            assert(odv[i as int] == outcomes@[i as int].deep_view());
            assert(line@ == mapped[i as int]);
        }
        let ghost linev = line@;
        lines.push(line);
        i = i + 1;
        proof {
            assert(lines.deep_view() =~~= lines0.push(linev));
            assert(lines0.push(linev) =~~= seq![report_header(), Seq::<char>::empty()]
                + mapped.take(i as int));
        }
    }
    proof {
        assert(mapped.take(odv.len() as int) =~= mapped);
    }
    let mut out: Vec<char> = Vec::new();
    join_from(&lines, 0, &mut out);
    proof {
        assert(lines.deep_view().skip(0) =~= lines.deep_view());
    }
    chars_to_string(&out)
}

/// Compose the reply sent after cleaning a single URL: the cleaned URL with
/// trailing question marks trimmed, or the cleaner's error in a code block.
pub fn single_clean_reply(outcome: &Result<String, String>) -> (r: String)
    ensures
        outcome matches Ok(res) ==> r@ == "清理后的 URL："@ + plain_link_of(
            trim_trailing_questions(res@),
        ),
        outcome matches Err(e) ==> r@ == "清理 URL 时出现错误："@ + code_block_of(e@),
{
    match outcome {
        Ok(res) => {
            let mut out = chars_of("清理后的 URL：");
            let trimmed = trim_query_marks(res.as_str());
            let pl = plain_link(trimmed.as_str());
            let plv = chars_of(pl.as_str());
            append_chars(&mut out, &plv);
            proof {
                assert(out@ =~= "清理后的 URL："@ + plain_link_of(
                    trim_trailing_questions(res@),
                ));
            }
            chars_to_string(&out)
        },
        Err(e) => {
            let mut out = chars_of("清理 URL 时出现错误：");
            let cb = code_block(e.as_str());
            let cbv = chars_of(cb.as_str());
            append_chars(&mut out, &cbv);
            proof {
                assert(out@ =~= "清理 URL 时出现错误："@ + code_block_of(e@));
            }
            chars_to_string(&out)
        },
    }
}

} // verus!
