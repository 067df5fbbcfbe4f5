//! The variants of the node, tag and key types under their bare names.

pub use crate::node::Node::Element;
pub use crate::node::Node::Html;
pub use crate::node::Node::Text;
pub use crate::symbols::AttrKey::A_ALT;
pub use crate::symbols::AttrKey::A_CLASS;
pub use crate::symbols::AttrKey::A_CROSSORIGIN;
pub use crate::symbols::AttrKey::A_HREF;
pub use crate::symbols::AttrKey::A_ID;
pub use crate::symbols::AttrKey::A_INTEGRITY;
pub use crate::symbols::AttrKey::A_ONCLICK;
pub use crate::symbols::AttrKey::A_REL;
pub use crate::symbols::AttrKey::A_SRC;
pub use crate::symbols::AttrKey::A_STYLE;
pub use crate::symbols::AttrKey::A_TARGET;
pub use crate::symbols::ElementTag::E_A;
pub use crate::symbols::ElementTag::E_B;
pub use crate::symbols::ElementTag::E_BODY;
pub use crate::symbols::ElementTag::E_BR;
pub use crate::symbols::ElementTag::E_DIV;
pub use crate::symbols::ElementTag::E_H1;
pub use crate::symbols::ElementTag::E_H2;
pub use crate::symbols::ElementTag::E_H3;
pub use crate::symbols::ElementTag::E_H4;
pub use crate::symbols::ElementTag::E_H5;
pub use crate::symbols::ElementTag::E_HEAD;
pub use crate::symbols::ElementTag::E_HR;
pub use crate::symbols::ElementTag::E_HTML;
pub use crate::symbols::ElementTag::E_I;
pub use crate::symbols::ElementTag::E_IMG;
pub use crate::symbols::ElementTag::E_LINK;
pub use crate::symbols::ElementTag::E_P;
pub use crate::symbols::ElementTag::E_SCRIPT;
pub use crate::symbols::ElementTag::E_SPAN;
pub use crate::symbols::ElementTag::E_STYLE;
pub use crate::symbols::ElementTag::E_SVG;
pub use crate::symbols::ElementTag::E_TEMPLATE;
pub use crate::symbols::ElementTag::E_USE;
