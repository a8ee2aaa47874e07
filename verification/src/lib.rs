//! ventouse — a locality linter: it scores how far each definition sits from what it connects to
//! and names the concrete move that fixes it.
//!
//! The library holds the language-agnostic analysis `core`, the renderers, the configuration
//! reader and the frontends' language-independent plumbing, all verified.

pub mod cli;
pub mod config;
pub mod discover;
pub mod engine;
pub mod lang;
pub mod render;
pub mod text;
