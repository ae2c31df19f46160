//! What can go wrong in recording and replay.
use crate::base::text::{decimal, decimal_text, join};
use vstd::prelude::*;
use vstd::string::StringExecFns;

verus! {

/// An error of the recorder, the player or the control commands.
#[derive(Debug, PartialEq, Eq)]
pub enum ReplayError {
    /// A segment file could not be opened, written, flushed or read. The path is
    /// quoted.
    SegmentIo { path: String, source: String },
    /// An archived record could not be decoded.
    Decode(String),
    /// The stream beside the segments failed.
    Bus(String),
    /// A record came out of sequence.
    SequenceInvariant { session: u64, expected: u64, got: u64 },
    /// There is no record with this number.
    SeekNotFound { target: u64 },
    /// A control command was malformed.
    BadCommand(String),
    /// The recorder or player was set up wrongly.
    Config(String),
}

impl ReplayError {
    /// An error on a segment file, from its quoted path and the fault.
    pub fn segment_io(path: String, source: String) -> (e: ReplayError)
        ensures
            e == (ReplayError::SegmentIo { path, source }),
    {
        ReplayError::SegmentIo { path, source }
    }

    /// The words of an error.
    pub open spec fn words(self) -> Seq<char> {
        match self {
            ReplayError::SegmentIo { path, source } => "replay segment I/O failed at "@ + path@
                + ": "@ + source@,
            ReplayError::Decode(m) => "replay rkyv decode failed: "@ + m@,
            ReplayError::Bus(m) => "replay Redis stream error: "@ + m@,
            ReplayError::SequenceInvariant { session, expected, got } =>
                "replay sequence invariant broken: expected sequence_no = "@ + decimal(
                expected as nat,
            ) + ", got "@ + decimal(got as nat) + " (session_id = "@ + decimal(session as nat)
                + ")"@,
            ReplayError::SeekNotFound { target } =>
                "replay seek target not found: sequence_no = "@ + decimal(target as nat),
            ReplayError::BadCommand(m) => "replay command malformed: "@ + m@,
            ReplayError::Config(m) => "replay configuration error: "@ + m@,
        }
    }

    /// The error in words.
    pub fn to_text(&self) -> (s: String)
        ensures
            s@ == self.words(),
    {
        match self {
            ReplayError::SegmentIo { path, source } => join(
                join(join("replay segment I/O failed at ", path.as_str()).as_str(), ": ").as_str(),
                source.as_str(),
            ),
            ReplayError::Decode(m) => join("replay rkyv decode failed: ", m.as_str()),
            ReplayError::Bus(m) => join("replay Redis stream error: ", m.as_str()),
            ReplayError::SequenceInvariant { session, expected, got } => {
                let mut s = String::from_str(
                    "replay sequence invariant broken: expected sequence_no = ",
                );
                s.append(decimal_text(*expected).as_str());
                s.append(", got ");
                s.append(decimal_text(*got).as_str());
                s.append(" (session_id = ");
                s.append(decimal_text(*session).as_str());
                s.append(")");
                s
            },
            ReplayError::SeekNotFound { target } => join(
                "replay seek target not found: sequence_no = ",
                decimal_text(*target).as_str(),
            ),
            ReplayError::BadCommand(m) => join("replay command malformed: ", m.as_str()),
            ReplayError::Config(m) => join("replay configuration error: ", m.as_str()),
        }
    }
}

} // verus!
