//! Local pull requests: their types, the rules for changing them, merge
//! sessions, branch watching, branch diffs and repository identity.
pub mod types;
pub mod error;
pub mod merge;
pub mod identity;
pub mod rules;
pub mod watcher;
pub mod diff;
