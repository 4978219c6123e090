//! Console messages: severity levels, the quiet and verbose switches, and
//! how a message is laid out. Printing is left to the caller.

use vstd::prelude::*;
use vstd::string::*;

verus! {

/// The severity, and so the colour, of a message.
#[derive(Clone, Copy, Debug, PartialEq, Eq)]
pub enum LogLevel {
    Error,
    Info,
    Dim,
    Warn,
    Success,
    Bold,
    Custom(&'static str),
}

/// Output settings, handed to every component that reports progress.
#[derive(Clone, Copy, Debug)]
pub struct Logger {
    pub quiet: bool,
    pub verbose: bool,
}

/// Two spaces for each indentation level.
pub open spec fn indentation(n: nat) -> Seq<char>
    decreases n,
{
    if n == 0 {
        Seq::empty()
    } else {
        indentation((n - 1) as nat) + "  "@
    }
}

/// The escape sequence that ends a coloured message.
pub const RESET: &'static str = "\x1b[0m";

/// The laid-out line for a message, without colour handling for a plain
/// message (`level` absent).
pub open spec fn layout(level: Option<LogLevel>, spaces: Seq<char>, msg: Seq<char>) -> Seq<char> {
    match level {
        None => spaces + msg,
        Some(LogLevel::Error) => "\x1b[31mError: "@ + spaces + msg + RESET@,
        Some(LogLevel::Info) => "\x1b[36m"@ + spaces + msg + RESET@,
        Some(LogLevel::Dim) => "\x1b[2m"@ + spaces + msg + RESET@,
        Some(LogLevel::Warn) => "\x1b[33m"@ + spaces + "Warning: "@ + msg + RESET@,
        Some(LogLevel::Success) => "\x1b[32m\x1b[1m"@ + spaces + msg + RESET@,
        Some(LogLevel::Bold) => "\x1b[1m"@ + spaces + msg + RESET@,
        Some(LogLevel::Custom(code)) => code@ + spaces + msg + RESET@,
    }
}

fn indent_string(n: u8) -> (r: String)
    ensures
        r@ == indentation(n as nat),
{
    let mut r = String::new();
    let mut i: u8 = 0;
    while i < n
        invariant
            i <= n,
            r@ == indentation(i as nat),
        decreases n - i,
    {
        r.append("  ");
        i = i + 1;
    }
    r
}

impl Logger {
    /// Messages shown, details hidden.
    pub fn new() -> (r: Self)
        ensures
            !r.quiet,
            !r.verbose,
    {
        Logger { quiet: false, verbose: false }
    }

    /// Sets whether messages are suppressed.
    pub fn quiet(&mut self, quiet: bool)
        ensures
            final(self).quiet == quiet,
            final(self).verbose == old(self).verbose,
    {
        self.quiet = quiet;
    }

    /// Sets whether details are shown.
    pub fn verbose(&mut self, verbose: bool)
        ensures
            final(self).verbose == verbose,
            final(self).quiet == old(self).quiet,
    {
        self.verbose = verbose;
    }

    /// The line to print for a message at `level` (none: plain) indented
    /// `indent` levels (none: not indented); nothing when quiet.
    pub fn format_message(&self, level: Option<LogLevel>, msg: &str, indent: Option<u8>) -> (r: Option<String>)
        ensures
            self.quiet ==> r is None,
            !self.quiet ==> (r matches Some(s) && s@ == layout(
                level,
                match indent {
                    Some(n) => indentation(n as nat),
                    None => Seq::empty(),
                },
                msg@,
            )),
    {
        if self.quiet {
            return None;
        }
        let spaces = match indent {
            Some(n) => indent_string(n),
            None => String::new(),
        };
        let mut out = match level {
            None => String::new(),
            Some(LogLevel::Error) => String::from_str("\x1b[31mError: "),
            Some(LogLevel::Info) => String::from_str("\x1b[36m"),
            Some(LogLevel::Dim) => String::from_str("\x1b[2m"),
            Some(LogLevel::Warn) => String::from_str("\x1b[33m"),
            Some(LogLevel::Success) => String::from_str("\x1b[32m\x1b[1m"),
            Some(LogLevel::Bold) => String::from_str("\x1b[1m"),
            Some(LogLevel::Custom(code)) => String::from_str(code),
        };
        out.append(spaces.as_str());
        if let Some(LogLevel::Warn) = level {
            out.append("Warning: ");
        }
        out.append(msg);
        if level.is_some() {
            out.append(RESET);
        }
        proof {
            reveal_strlit("");
        }
        Some(out)
    }
}

} // verus!
