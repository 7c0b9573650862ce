//! The options of the command line.

use vstd::prelude::*;

verus! {

/// How much the program asks of its user.
#[derive(Debug, Copy, Clone, PartialEq, Eq, PartialOrd, Ord, Structural)]
pub enum Mode {
    /// Raise or fold.
    Beginner,
    /// Ratios between the actions.
    Advanced,
}

/// The options that the program was started with.
#[derive(Debug)]
pub struct Args {
    /// Beginner mode is raise/fold, advanced mode involves ratios
    pub mode: Mode,
}

impl Mode {
    /// The name of a mode on the command line.
    pub open spec fn name(self) -> Seq<char> {
        match self {
            Mode::Beginner => "beginner"@,
            Mode::Advanced => "advanced"@,
        }
    }

    /// This mode as text: its name.
    pub fn to_string(&self) -> (text: String)
        ensures
            text@ == self.name(),
    {
        match self {
            Mode::Beginner => String::from_str("beginner"),
            Mode::Advanced => String::from_str("advanced"),
        }
    }
}

impl Default for Args {
    /// The options of a start without arguments: beginner mode.
    fn default() -> (args: Self)
        ensures
            args.mode == Mode::Beginner,
    {
        Args { mode: Mode::Beginner }
    }
}

} // verus!
