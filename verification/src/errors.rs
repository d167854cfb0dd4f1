//! Why a command fails.

use crate::text::IntError;
use coreshift_core::CoreError;
use vstd::prelude::*;

verus! {

/// Why a command fails.
pub enum CommandError {
    /// Nobody answers at the socket of the daemon.
    NotRunning,
    /// The connection was not made at once.
    InProgress,
    /// The PID file does not hold a number.
    Pid(IntError),
    /// A system call failed.
    Core(CoreError),
    /// Standard output could not be written to.
    Output(std::io::Error),
}

impl IntError {
    /// The words for the error.
    pub open spec fn words(self) -> Seq<char> {
        match self {
            IntError::Empty => "cannot parse integer from empty string"@,
            IntError::InvalidDigit => "invalid digit found in string"@,
            IntError::PosOverflow => "number too large to fit in target type"@,
            IntError::NegOverflow => "number too small to fit in target type"@,
        }
    }

    /// Says what is wrong with the number.
    pub fn message(&self) -> (r: &'static str)
        ensures
            r@ == self.words(),
    {
        match self {
            IntError::Empty => "cannot parse integer from empty string",
            IntError::InvalidDigit => "invalid digit found in string",
            IntError::PosOverflow => "number too large to fit in target type",
            IntError::NegOverflow => "number too small to fit in target type",
        }
    }
}

impl CommandError {
    /// The words for an error of the library's own.
    pub open spec fn words(self) -> Option<Seq<char>> {
        match self {
            CommandError::NotRunning => Some("daemon not running"@),
            CommandError::InProgress => Some("connection in progress"@),
            CommandError::Pid(e) => Some(e.words()),
            CommandError::Core(_) => None,
            CommandError::Output(_) => None,
        }
    }

    /// Says what went wrong; `None` for an error of the system, which speaks for
    /// itself.
    pub fn message(&self) -> (r: Option<&'static str>)
        ensures
            match r {
                Some(text) => self.words() == Some(text@),
                None => self.words() is None,
            },
    {
        match self {
            CommandError::NotRunning => Some("daemon not running"),
            CommandError::InProgress => Some("connection in progress"),
            CommandError::Pid(e) => Some(e.message()),
            CommandError::Core(_) => None,
            CommandError::Output(_) => None,
        }
    }
}

/// Every error has its words; those of the system have none of the library's own.
pub proof fn law_errors_have_their_words(n: IntError, core: CoreError, output: std::io::Error)
    ensures
        IntError::Empty.words() == "cannot parse integer from empty string"@,
        IntError::InvalidDigit.words() == "invalid digit found in string"@,
        IntError::PosOverflow.words() == "number too large to fit in target type"@,
        IntError::NegOverflow.words() == "number too small to fit in target type"@,
        CommandError::NotRunning.words() == Some("daemon not running"@),
        CommandError::InProgress.words() == Some("connection in progress"@),
        CommandError::Pid(n).words() == Some(n.words()),
        CommandError::Core(core).words() is None,
        CommandError::Output(output).words() is None,
{
}

} // verus!
