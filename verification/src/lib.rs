//! Conversions for developers at the command line: percent-encoding and
//! decoding of text, rendering of UNIX timestamps as RFC 3339 date-times,
//! and the decisions behind installing shell tab-completion.

pub mod cli;
pub mod codec;
pub mod completion;
pub mod text;
pub mod timestamp;
