//! Selection retrieval engine: decides, per foreground application, whether
//! selected text is fetched through the accessibility tree or through a
//! clipboard swap driven by a synthetic copy keystroke, remembers which
//! technique worked, and normalizes the outcomes of both paths.

pub mod cache;
pub mod engine;
pub mod swap;
pub mod tokenize;
