//! The tree as a mathematical value, and the markup text it renders to.
//!
//! Nothing is escaped. Text and attribute values reach the output as they
//! are, except that text loses its newline characters.

use vstd::prelude::*;
use crate::symbols::AttrKey;
use crate::symbols::ElementTag;

verus! {

/// A tree of markup, as a mathematical value: what a `Node` stands for,
/// whatever type stores its text.
pub enum Markup {
    /// A run of character data.
    Text(Seq<char>),
    /// A run of markup that is taken as it is.
    Html(Seq<char>),
    /// An element: its tag, its attributes in order, its children in order.
    Element(ElementTag, Seq<(AttrKey, Seq<char>)>, Seq<Markup>),
}

/// `text` with every newline character deleted. Nothing takes their place.
pub open spec fn without_newlines(text: Seq<char>) -> Seq<char> {
    text.filter(|c: char| c != '\n')
}

/// One attribute as it stands inside an opening tag: a space, the key, and,
/// unless the value is empty, `="`, the value and `"`.
pub open spec fn attr_rendered(key: AttrKey, value: Seq<char>) -> Seq<char> {
    if value.len() == 0 {
        seq![' '] + key.spelling()
    } else {
        seq![' '] + key.spelling() + seq!['=', '"'] + value + seq!['"']
    }
}

/// The attributes of an opening tag, one after the other in their order.
pub open spec fn attrs_rendered(attrs: Seq<(AttrKey, Seq<char>)>) -> Seq<char>
    decreases attrs.len(),
{
    if attrs.len() == 0 {
        Seq::empty()
    } else {
        attrs_rendered(attrs.drop_last()) + attr_rendered(attrs.last().0, attrs.last().1)
    }
}

/// The renderings of `nodes`, back to back with nothing between them.
pub open spec fn rendered_all(nodes: Seq<Markup>) -> Seq<char>
    decreases nodes,
{
    if nodes.len() == 0 {
        Seq::empty()
    } else {
        rendered_all(nodes.drop_last()) + nodes.last().rendered()
    }
}

/// Every tree of `nodes` is well formed.
pub open spec fn all_well_formed(nodes: Seq<Markup>) -> bool {
    forall|i: int| 0 <= i < nodes.len() ==> (#[trigger] nodes[i]).well_formed()
}

impl Markup {
    /// No void element anywhere in the tree carries an attribute or a child.
    pub open spec fn well_formed(self) -> bool
        decreases self,
    {
        match self {
            Markup::Text(_) => true,
            Markup::Html(_) => true,
            Markup::Element(tag, attrs, children) => if tag.is_void() {
                attrs.len() == 0 && children.len() == 0
            } else {
                forall|i: int| 0 <= i < children.len() ==> (#[trigger] children[i]).well_formed()
            },
        }
    }

    /// The markup text that the tree renders to.
    ///
    /// Text is written without its newlines and raw markup as it is. A void
    /// element is its opening tag alone. Any other element is its opening tag
    /// with the attributes, then its children, then its closing tag.
    pub open spec fn rendered(self) -> Seq<char>
        decreases self,
    {
        match self {
            Markup::Text(text) => without_newlines(text),
            Markup::Html(markup) => markup,
            Markup::Element(tag, attrs, children) => if tag.is_void() {
                seq!['<'] + tag.spelling() + seq!['>']
            } else {
                seq!['<'] + tag.spelling() + attrs_rendered(attrs) + seq!['>'] + rendered_all(
                    children,
                ) + seq!['<', '/'] + tag.spelling() + seq!['>']
            },
        }
    }
}

/// An element is well formed exactly when, with a void tag, it has neither
/// attributes nor children, and when, with any other tag, its children are
/// well formed.
pub proof fn lemma_element_well_formed(
    tag: ElementTag,
    attrs: Seq<(AttrKey, Seq<char>)>,
    children: Seq<Markup>,
)
    ensures
        Markup::Element(tag, attrs, children).well_formed() <==> if tag.is_void() {
            attrs.len() == 0 && children.len() == 0
        } else {
            all_well_formed(children)
        },
        Markup::Element(tag, attrs, children).well_formed() ==> all_well_formed(children),
{
    let element = Markup::Element(tag, attrs, children);
    assert(element->1 == attrs && element->2 == children);
}

/// An element with a void tag is well formed exactly when it has neither
/// attributes nor children, and then it renders as `<`, the tag's spelling
/// and `>`: no attribute, no closing tag.
pub proof fn lemma_void_element(
    tag: ElementTag,
    attrs: Seq<(AttrKey, Seq<char>)>,
    children: Seq<Markup>,
)
    requires
        tag.is_void(),
    ensures
        Markup::Element(tag, attrs, children).well_formed() <==> attrs.len() == 0
            && children.len() == 0,
        Markup::Element(tag, attrs, children).well_formed() ==> Markup::Element(
            tag,
            attrs,
            children,
        ).rendered() == seq!['<'] + tag.spelling() + seq!['>'],
{
}

/// One more attribute at the end of the list adds, behind the others, a
/// space and the key, and nothing more where the value is empty; else `="`,
/// the value as it is, and `"`.
pub proof fn lemma_attribute_rendering(
    attrs: Seq<(AttrKey, Seq<char>)>,
    key: AttrKey,
    value: Seq<char>,
)
    ensures
        value.len() == 0 ==> attrs_rendered(attrs.push((key, value))) == attrs_rendered(attrs)
            + seq![' '] + key.spelling(),
        value.len() > 0 ==> attrs_rendered(attrs.push((key, value))) == attrs_rendered(attrs)
            + seq![' '] + key.spelling() + seq!['=', '"'] + value + seq!['"'],
{
    let all = attrs.push((key, value));
    assert(all.drop_last() == attrs);
}

/// Rendering a sequence of trees made of two parts gives the rendering of
/// the first part followed by that of the second.
pub proof fn lemma_rendered_all_concat(first: Seq<Markup>, second: Seq<Markup>)
    ensures
        rendered_all(first + second) == rendered_all(first) + rendered_all(second),
    decreases second.len(),
{
    if second.len() > 0 {
        lemma_rendered_all_concat(first, second.drop_last());
        assert((first + second).drop_last() == first + second.drop_last());
    }
}

} // verus!
