//! The verified core of a native-messaging host: framing of the wire protocol,
//! the command dispatcher, and the decisions of every operation. Whatever touches
//! the operating system is described as an `Effect` and left to the caller.

pub mod commands;
pub mod content;
pub mod dispatch;
pub mod frame;
pub mod host;
pub mod laws;
pub mod message;
pub mod path;
pub mod process;
pub mod session;
pub mod text;
