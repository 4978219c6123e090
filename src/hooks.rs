//! Hook commands: a hook is one shell-style command line, split into a
//! program and its arguments before it is run.

use crate::text::views;
use vstd::prelude::*;
use vstd::string::*;

verus! {

/// What `shlex::split` makes of a command line: its words, or `None`
/// where the quoting is malformed.
pub uninterp spec fn shell_words(s: Seq<char>) -> Option<Seq<Seq<char>>>;

/// Relies on `shlex::split`: POSIX-shell word splitting, `None` on an
/// unterminated quote or escape.
#[verifier::external_body]
fn split_words(s: &str) -> (r: Option<Vec<String>>)
    ensures
        match r {
            Some(v) => shell_words(s@) == Some(views(v@)),
            None => shell_words(s@).is_none(),
        },
{
    shlex::split(s)
}

/// A hook that cannot be run.
#[derive(Debug)]
pub enum HookError {
    /// The command line could not be split into words.
    Unparsable(String),
}

/// A program and its arguments.
#[derive(Debug)]
pub struct HookCommand {
    pub program: String,
    pub args: Vec<String>,
}

/// The command a hook's words make: the first word is the program, the
/// rest its arguments. A hook of no words is skipped (`Ok(None)`); one
/// that could not be split is an error.
pub fn command_from_words(hook: &str, words: Option<Vec<String>>) -> (r: Result<Option<HookCommand>, HookError>)
    ensures
        match words {
            None => r matches Err(HookError::Unparsable(h)) && h@ == hook@,
            Some(w) => if w@.len() == 0 {
                r matches Ok(None)
            } else {
                r matches Ok(Some(c)) && c.program@ == w@[0]@ && views(c.args@) == views(w@).subrange(
                    1,
                    w@.len() as int,
                )
            },
        },
{
    match words {
        None => Err(HookError::Unparsable(String::from_str(hook))),
        Some(w) => {
            if w.len() == 0 {
                return Ok(None);
            }
            let program = String::from_str(w[0].as_str());
            let mut args: Vec<String> = Vec::new();
            let mut i: usize = 1;
            while i < w.len()
                invariant
                    1 <= i <= w@.len(),
                    views(args@) == views(w@).subrange(1, i as int),
                decreases w@.len() - i,
            {
                let ghost prev = args@;
                args.push(String::from_str(w[i].as_str()));
                assert(views(args@) =~= views(prev).push(w@[i as int]@));
                assert(views(w@).subrange(1, i + 1) =~= views(w@).subrange(1, i as int).push(w@[i as int]@));
                i = i + 1;
            }
            Ok(Some(HookCommand { program, args }))
        },
    }
}

/// Splits a hook command line into the command to run.
pub fn parse_hook(hook: &str) -> (r: Result<Option<HookCommand>, HookError>)
    ensures
        match shell_words(hook@) {
            None => r matches Err(HookError::Unparsable(h)) && h@ == hook@,
            Some(w) => if w.len() == 0 {
                r matches Ok(None)
            } else {
                r matches Ok(Some(c)) && c.program@ == w[0] && views(c.args@) == w.subrange(1, w.len() as int)
            },
        },
{
    let words = split_words(hook);
    proof {
        if words.is_some() {
            let v = words.unwrap();
            assert(views(v@).len() == v@.len());
            if v@.len() > 0 {
                assert(views(v@)[0] == v@[0]@);
            }
        }
    }
    command_from_words(hook, words)
}

} // verus!
