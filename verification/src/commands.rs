//! Argument parsing for the relay's commands.
//!
//! The replace command takes one argument string holding exactly two
//! shell-style words: the keyword to replace and its replacement.

use vstd::prelude::*;

verus! {

/// Arguments of the URL-clean command: the URL to clean.
#[derive(Debug)]
pub struct CleanUrlCommand {
    pub url: String,
}

/// Arguments of the replace command: the keyword to replace and what to
/// replace it with.
#[derive(Debug)]
pub struct ReplaceCommand {
    pub keyword: String,
    pub replacement: String,
}

/// Why a replace command's argument string was rejected.
#[derive(Clone, Copy, Debug, PartialEq, Eq, Structural)]
pub enum ReplaceParseError {
    /// The argument string is not valid shell-style quoting.
    BadQuoting,
    /// The argument string held this many words instead of two.
    WrongArgCount { found: usize },
}

/// What shell-style word splitting yields on the characters of an argument
/// string, or `None` when the quoting is invalid.
pub uninterp spec fn shell_words_of(s: Seq<char>) -> Option<Seq<Seq<char>>>;

/// Relies on shlex::split: the word list depends on the input characters
/// alone, and `None` comes exactly on input whose shell quoting is erroneous.
#[verifier::external_body]
fn shell_split(s: &str) -> (r: Option<Vec<String>>)
    ensures
        r matches Some(v) ==> shell_words_of(s@) == Some(v.deep_view()),
        r is None <==> shell_words_of(s@) is None,
{
    shlex::split(s)
}

impl ReplaceCommand {
    /// Parse the argument string of a replace command: it must split into
    /// exactly two shell-style words, the keyword and the replacement.
    pub fn parse_to_command(s: String) -> (r: Result<ReplaceCommand, ReplaceParseError>)
        ensures
            shell_words_of(s@) is None ==> (r matches Err(e) && e is BadQuoting),
            shell_words_of(s@) matches Some(ws) ==> ({
                if ws.len() == 2 {
                    &&& r matches Ok(c)
                    &&& c.keyword@ == ws[0]
                    &&& c.replacement@ == ws[1]
                } else {
                    &&& r matches Err(e)
                    &&& e matches ReplaceParseError::WrongArgCount { found }
                    &&& found == ws.len()
                }
            }),
    {
        match shell_split(s.as_str()) {
            None => Err(ReplaceParseError::BadQuoting),
            Some(parts) => {
                if parts.len() != 2 {
                    Err(ReplaceParseError::WrongArgCount { found: parts.len() })
                } else {
                    let mut parts = parts;
                    proof {
                        assert(parts.deep_view()[0] == parts@[0]@);
                        assert(parts.deep_view()[1] == parts@[1]@);
                    }
                    let replacement = parts.pop().unwrap();
                    let keyword = parts.pop().unwrap();
                    Ok(ReplaceCommand { keyword, replacement })
                }
            },
        }
    }
}

} // verus!
