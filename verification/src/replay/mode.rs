//! Whether execution is bound to the live broker or to a replay.
use vstd::prelude::*;
use vstd::string::StringExecFns;

verus! {

/// Off unless a process opts in.
#[derive(Clone, Copy, Debug, PartialEq, Eq, Hash, Structural)]
pub enum ReplayMode {
    Off,
    On,
}

impl ReplayMode {
    pub fn is_replay(self) -> (on: bool)
        ensures
            on == (self == ReplayMode::On),
    {
        match self {
            ReplayMode::On => true,
            ReplayMode::Off => false,
        }
    }

    /// The token of the mode.
    pub open spec fn token(self) -> Seq<char> {
        match self {
            ReplayMode::Off => "off"@,
            ReplayMode::On => "on"@,
        }
    }

    pub fn as_str(self) -> (s: &'static str)
        ensures
            s@ == self.token(),
    {
        match self {
            ReplayMode::Off => "off",
            ReplayMode::On => "on",
        }
    }

    /// The token as an owned text.
    pub fn to_text(self) -> (s: String)
        ensures
            s@ == self.token(),
    {
        String::from_str(self.as_str())
    }
}

impl Default for ReplayMode {
    fn default() -> (mode: ReplayMode)
        ensures
            mode == ReplayMode::Off,
    {
        ReplayMode::Off
    }
}

} // verus!
