//! The AI assistant: conversation types, context budgeting, keys, skills,
//! tools and the decisions of one assistant turn.
pub mod types;
pub mod error;
pub mod context;
pub mod skills;
pub mod skill_file;
pub mod tools;
pub mod keys;
pub mod json;
pub mod git_tools;
pub mod turn;
pub mod provider;
pub mod mcp;
pub mod chat;
