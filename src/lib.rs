//! Checkpoint and revert engine for an assistant's conversation transcript,
//! the per-prompt record of version-control state, and the working directory.
pub mod text;
pub mod json;
pub mod error;
pub mod transcript;
pub mod records;
pub mod tracker;
pub mod git;
pub mod layout;
pub mod extensions;
