//! GitBuddy: turning staged Git changes into a Conventional Commit subject.
pub mod text;
pub mod commit_message;
pub mod prompt;
pub mod config;
pub mod llm;
pub mod git;
pub mod ai;
pub mod flow;
