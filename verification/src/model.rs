//! The values that travel between the components.

use vstd::prelude::*;
use vstd::string::*;

verus! {

/// The policy flags of one invocation. Built once, never changed.
#[derive(Clone, Copy, Debug)]
pub struct ExecConfig {
    pub dry_run: bool,
    pub auto: bool,
    pub offline: bool,
    pub yes: bool,
    pub prefer_paru: bool,
    pub no_sudo: bool,
    pub verbose: bool,
}

/// A proposed command and the reason it is proposed. The reason is for the
/// reader only.
#[derive(Debug)]
pub struct Suggestion {
    pub cmd: String,
    pub reason: &'static str,
}

/// The mathematical value of a suggestion: its two texts.
pub open spec fn sugg(cmd: Seq<char>, reason: Seq<char>) -> (Seq<char>, Seq<char>) {
    (cmd, reason)
}

impl Suggestion {
    /// Command and reason as sequences of characters.
    pub open spec fn pair(&self) -> (Seq<char>, Seq<char>) {
        (self.cmd@, self.reason@)
    }

    /// A suggestion from its two parts.
    pub fn new(cmd: String, reason: &'static str) -> (s: Suggestion)
        ensures
            s.pair() == sugg(cmd@, reason@),
    {
        Suggestion { cmd, reason }
    }
}

/// What a sequence of suggestions holds.
pub open spec fn pairs(v: Seq<Suggestion>) -> Seq<(Seq<char>, Seq<char>)> {
    v.map_values(|s: Suggestion| s.pair())
}

/// Where a package was found.
#[derive(Clone, Copy, Debug, PartialEq, Eq, Structural)]
pub enum PackageOrigin {
    Repo,
    Aur,
    Unknown,
    /// Resolution was not attempted because network use is forbidden.
    Offline,
}

/// Why a request was not carried out.
#[derive(Debug)]
pub enum AssistError {
    /// The command failed the validator or the offline policy.
    Unsafe(String),
    /// A command, or the remote model's answer, could not be used.
    CommandFailed(String),
}

/// The mathematical value of an error: its kind and its text.
pub enum Fault {
    Unsafe(Seq<char>),
    CommandFailed(Seq<char>),
}

impl AssistError {
    /// Kind and text of the error.
    pub open spec fn fault(&self) -> Fault {
        match self {
            AssistError::Unsafe(m) => Fault::Unsafe(m@),
            AssistError::CommandFailed(m) => Fault::CommandFailed(m@),
        }
    }

    /// The line shown to the user for a fault.
    pub open spec fn message_of(f: Fault) -> Seq<char> {
        match f {
            Fault::Unsafe(m) => "unsafe command blocked: "@ + m,
            Fault::CommandFailed(m) => "command failed: "@ + m,
        }
    }

    /// The line shown to the user.
    pub fn message(&self) -> (r: String)
        ensures
            r@ == Self::message_of(self.fault()),
    {
        match self {
            AssistError::Unsafe(m) => String::from_str("unsafe command blocked: ").concat(m.as_str()),
            AssistError::CommandFailed(m) => String::from_str("command failed: ").concat(
                m.as_str(),
            ),
        }
    }
}

} // verus!
