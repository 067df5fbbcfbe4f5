//! Build a tree of HTML-like markup nodes in memory and serialise it to text.
//!
//! The tree is made of text runs, raw markup runs and elements whose tags and
//! attribute keys come from two closed tables. Rendering walks the tree depth
//! first and appends markup to a `String`. Nothing is escaped on the way out:
//! text and attribute values are written as they are (text loses its newline
//! characters), so callers sanitise what they put into the tree.

pub mod markup;
pub mod nesting;
pub mod node;
pub mod prelude;
pub mod render;
pub mod symbols;
pub mod text;

pub use crate::markup::Markup;
pub use crate::node::Node;
pub use crate::render::render_node;
pub use crate::render::render_nodes;
pub use crate::symbols::AttrKey;
pub use crate::symbols::ElementTag;
pub use crate::text::AsText;
