//! Core of a command-line chat agent: a conversation log with tool-call
//! pairing and role-alternation invariants, a reconstructor for streamed
//! assistant turns, a bounded buffer of timestamped process output, and the
//! pure decision logic around the shell-command executor and tool dispatch.

pub mod files;
pub mod helpers;
pub mod json;
pub mod jsonedit;
pub mod listfiles;
pub mod openaiapi;
pub mod streaming;
pub mod strutil;
pub mod todo;
pub mod tools;
