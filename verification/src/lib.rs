//! A library for turning operator-authored runbooks (prose interleaved with
//! fenced, language-tagged code snippets) into an ordered, navigable sequence
//! of documentation and executable steps.

pub mod block;
pub mod cli;
pub mod document;
pub mod events;
pub mod executor;
pub mod laws;
pub mod renderer;
pub mod parser;
pub mod tui;
pub mod text;

pub use block::{Block, CodeBlock};
pub use document::{Document, Section};
pub use parser::SysadminParser;
