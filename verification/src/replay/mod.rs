//! Recording a session and playing it back.
pub mod error;
pub mod mode;
pub mod record;
pub mod segments;
pub mod recorder;
pub mod player;
pub mod command;
pub mod canonical;
pub mod regression;
pub mod playback;
pub mod cli;
pub mod report;
pub mod session_laws;
pub mod tool_laws;
