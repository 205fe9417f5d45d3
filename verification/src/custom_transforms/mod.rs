//! User-written transforms: their frontmatter, sandbox limits and outcomes.
pub mod frontmatter;
pub mod sandbox;
pub mod frontmatter_laws;
