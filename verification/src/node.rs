//! The node tree, and the mathematical value that a tree stands for.

use vstd::prelude::*;
use crate::markup::Markup;
use crate::symbols::AttrKey;
use crate::symbols::ElementTag;
use crate::text::clone_keeps_text;
use crate::text::AsText;

verus! {

/// A node of the tree.
#[derive(Debug)]
pub enum Node<S> {
    /// Plain character data. Newlines are dropped when it is rendered.
    Text(S),
    /// Markup that the caller vouches for. It is rendered unchanged.
    Html(S),
    /// An element with its attributes and children, both in rendering order.
    /// Keys may repeat. An attribute with an empty value is a bare name.
    Element(ElementTag, Vec<(AttrKey, S)>, Vec<Node<S>>),
}

/// The attribute list that a vector of attributes stands for.
pub open spec fn attrs_view<S: AsText>(attrs: Seq<(AttrKey, S)>) -> Seq<(AttrKey, Seq<char>)> {
    Seq::new(attrs.len(), |i: int| (attrs[i].0, attrs[i].1.text()))
}

/// The trees that a sequence of nodes stands for, in the same order.
pub open spec fn views<S: AsText>(nodes: Seq<Node<S>>) -> Seq<Markup>
    decreases nodes,
{
    if nodes.len() == 0 {
        Seq::empty()
    } else {
        views(nodes.drop_last()).push(nodes.last()@)
    }
}

impl<S: AsText> View for Node<S> {
    type V = Markup;

    open spec fn view(&self) -> Markup
        decreases self,
    {
        match self {
            Node::Text(s) => Markup::Text(s.text()),
            Node::Html(s) => Markup::Html(s.text()),
            Node::Element(tag, attrs, children) => Markup::Element(
                *tag,
                attrs_view(attrs@),
                views(children@),
            ),
        }
    }
}

impl<S: AsText + Clone> Clone for Node<S> {
    /// A copy of the whole tree. It stands for the same markup wherever
    /// copying the text keeps the text.
    fn clone(&self) -> (copy: Self)
        ensures
            clone_keeps_text::<S>() ==> copy@ == self@,
        decreases self,
    {
        match self {
            Node::Text(text) => {
                let text_copy = text.clone();
                assert(cloned(*text, text_copy));
                Node::Text(text_copy)
            },
            Node::Html(markup) => {
                let markup_copy = markup.clone();
                assert(cloned(*markup, markup_copy));
                Node::Html(markup_copy)
            },
            Node::Element(tag, attrs, children) => {
                let mut attrs_copy: Vec<(AttrKey, S)> = Vec::new();
                let mut i: usize = 0;
                while i < attrs.len()
                    invariant
                        i <= attrs.len(),
                        attrs_copy.len() == i,
                        forall|j: int|
                            0 <= j < i ==> (#[trigger] attrs_copy@[j]).0 == attrs@[j].0 && cloned(
                                attrs@[j].1,
                                attrs_copy@[j].1,
                            ),
                    decreases attrs.len() - i,
                {
                    attrs_copy.push((attrs[i].0, attrs[i].1.clone()));
                    i += 1;
                }
                let mut children_copy: Vec<Node<S>> = Vec::new();
                let mut i: usize = 0;
                while i < children.len()
                    invariant
                        i <= children.len(),
                        *self == Node::Element(*tag, *attrs, *children),
                        children_copy.len() == i,
                        forall|j: int|
                            0 <= j < i && clone_keeps_text::<S>() ==> (#[trigger] children_copy@[j])@
                                == children@[j]@,
                    decreases children.len() - i,
                {
                    proof {
                        assert(decreases_to!(*self => self->2));
                    }
                    children_copy.push(children[i].clone());
                    i += 1;
                }
                proof {
                    if clone_keeps_text::<S>() {
                        lemma_views_index(children@);
                        lemma_views_index(children_copy@);
                        assert(views(children_copy@) =~= views(children@));
                        assert(attrs_view(attrs_copy@) =~= attrs_view(attrs@));
                    }
                }
                Node::Element(*tag, attrs_copy, children_copy)
            },
        }
    }
}

/// `views` keeps the length and maps each node to its own view.
pub proof fn lemma_views_index<S: AsText>(nodes: Seq<Node<S>>)
    ensures
        views(nodes).len() == nodes.len(),
        forall|i: int| 0 <= i < nodes.len() ==> (#[trigger] views(nodes)[i]) == nodes[i]@,
    decreases nodes.len(),
{
    if nodes.len() > 0 {
        lemma_views_index(nodes.drop_last());
        assert(views(nodes) == views(nodes.drop_last()).push(nodes.last()@));
    }
}

} // verus!
