//! Rendering of a markdown document model into Confluence wiki markup.
//!
//! The document model ([`model`]) is a tree of blocks, list items and inline
//! spans. [`render::to_confluence`] walks it and produces wiki markup
//! (`h2. Title`, `{code}`, `[text|url]`, `{noformat}` quotes, `- ` and `1. `
//! lists); [`slug::slugify`] derives anchor names from header content.
pub mod model;
pub mod text;
pub mod render;
pub mod slug;
pub mod reverse;

pub use model::{Block, ListItem, Span};
pub use render::to_confluence;
pub use slug::slugify;
pub use text::escape;
