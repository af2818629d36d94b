//! Turns a short free-text request into a vetted sequence of administration
//! commands for an Arch-family system.
//!
//! The crate holds the decisions only: the rule table, the package-origin
//! classification, the clean-up of a remote model's answer, the validator
//! and the plan of what to run. Reading, sending and spawning are left to the
//! caller, who hands in plain values and gets plain values back.
//!
//! Three policies are fixed here. The leading-token allowlist is strict: no
//! program outside the list is ever let through. A prompt that no rule matches
//! is handed to the remote model rather than reported as an error. A third
//! follows from the rule that a command which brings in `yay` is always
//! dropped: an answer of which the adjustment leaves nothing fails, as one
//! without a safe command does, and an empty list is never handed on.

pub mod text;
pub mod model;
pub mod validate;
pub mod resolve;
pub mod builtin;
pub mod llm;
pub mod exec;
