//! The functions that render a tree.

use vstd::prelude::*;
use crate::markup::all_well_formed;
use crate::markup::attr_rendered;
use crate::markup::attrs_rendered;
use crate::markup::lemma_element_well_formed;
use crate::markup::rendered_all;
use crate::markup::without_newlines;
use crate::nesting::all_self_contained;
use crate::nesting::lemma_all_rendered_is_well_nested;
use crate::nesting::lemma_rendering_is_well_nested;
use crate::nesting::lemma_well_nested_concat;
use crate::nesting::well_nested;
use crate::node::attrs_view;
use crate::node::lemma_views_index;
use crate::node::views;
use crate::node::Node;
use crate::symbols::AttrKey;
use crate::text::AsText;

verus! {

/// `String::push` of the standard library, which vstd leaves without a
/// specification. Taken on trust from its documentation: it appends the one
/// character to the end of the string and changes nothing else.
pub assume_specification[ String::push ](s: &mut String, c: char)
    ensures
        final(s)@ == old(s)@.push(c),
;

/// Appends `text` to `out`, leaving out its newline characters.
fn push_without_newlines(out: &mut String, text: &str)
    ensures
        final(out)@ == old(out)@ + without_newlines(text@),
{
    let chars = text.chars();
    proof {
        broadcast use vstd::string::axiom_spec_iter;
    }
    for c in it: chars
        invariant
            it.seq() == text@,
            out@ == old(out)@ + without_newlines(text@.take(it.index())),
    {
        proof {
            let seen = text@.take(it.index());
            assert(text@.take(it.index() + 1) == seen.push(c));
            seen.lemma_filter_push(c, |c: char| c != '\n');
        }
        if c != '\n' {
            out.push(c);
        }
    }
    assert(text@.take(text@.len() as int) == text@);
}

/// Appends the attributes of an opening tag to `out`.
fn render_attrs<S: AsText>(attrs: &Vec<(AttrKey, S)>, out: &mut String)
    ensures
        final(out)@ == old(out)@ + attrs_rendered(attrs_view(attrs@)),
{
    let mut i: usize = 0;
    while i < attrs.len()
        invariant
            i <= attrs.len(),
            out@ == old(out)@ + attrs_rendered(attrs_view(attrs@).take(i as int)),
        decreases attrs.len() - i,
    {
        let key = &attrs[i].0;
        let value = attrs[i].1.as_text();
        proof {
            let all = attrs_view(attrs@);
            assert(all.take(i + 1).drop_last() == all.take(i as int));
            assert(attrs_rendered(all.take(i + 1)) == attrs_rendered(all.take(i as int))
                + attr_rendered(*key, value@));
        }
        out.push(' ');
        out.append(key.as_str());
        if !value.is_empty() {
            out.push('=');
            out.push('"');
            out.append(value);
            out.push('"');
        }
        i += 1;
    }
    assert(attrs_view(attrs@).take(i as int) == attrs_view(attrs@));
}

/// Whether every tree of `nodes` is well formed.
fn are_well_formed<S: AsText>(nodes: &Vec<Node<S>>) -> (ok: bool)
    ensures
        ok == all_well_formed(views(nodes@)),
    decreases nodes,
{
    proof {
        lemma_views_index(nodes@);
    }
    let mut i: usize = 0;
    while i < nodes.len()
        invariant
            i <= nodes.len(),
            views(nodes@).len() == nodes@.len(),
            forall|j: int| 0 <= j < nodes@.len() ==> (#[trigger] views(nodes@)[j]) == nodes@[j]@,
            all_well_formed(views(nodes@).take(i as int)),
        decreases nodes.len() - i,
    {
        if !nodes[i].is_well_formed() {
            assert(!views(nodes@)[i as int].well_formed());
            return false;
        }
        i += 1;
    }
    assert(views(nodes@).take(i as int) == views(nodes@));
    true
}

/// Appends the renderings of `nodes` to `out`, one after the other.
fn render_all<S: AsText>(nodes: &Vec<Node<S>>, out: &mut String)
    requires
        all_well_formed(views(nodes@)),
    ensures
        final(out)@ == old(out)@ + rendered_all(views(nodes@)),
    decreases nodes,
{
    proof {
        lemma_views_index(nodes@);
    }
    let mut i: usize = 0;
    while i < nodes.len()
        invariant
            i <= nodes.len(),
            views(nodes@).len() == nodes@.len(),
            forall|j: int| 0 <= j < nodes@.len() ==> (#[trigger] views(nodes@)[j]) == nodes@[j]@,
            all_well_formed(views(nodes@)),
            out@ == old(out)@ + rendered_all(views(nodes@).take(i as int)),
        decreases nodes.len() - i,
    {
        proof {
            let trees = views(nodes@);
            assert(trees.take(i + 1).drop_last() == trees.take(i as int));
            assert(trees[i as int].well_formed());
        }
        nodes[i].render(out);
        i += 1;
    }
    assert(views(nodes@).take(i as int) == views(nodes@));
}

impl<S: AsText> Node<S> {
    /// Whether the tree is well formed, that is, whether `render` accepts it.
    pub fn is_well_formed(&self) -> (ok: bool)
        ensures
            ok == self@.well_formed(),
        decreases self,
    {
        match self {
            Node::Text(_) => true,
            Node::Html(_) => true,
            Node::Element(tag, attrs, children) => {
                proof {
                    lemma_element_well_formed(*tag, attrs_view(attrs@), views(children@));
                    lemma_views_index(children@);
                }
                if tag.has_content() {
                    are_well_formed(children)
                } else {
                    attrs.len() == 0 && children.len() == 0
                }
            },
        }
    }

    /// Appends the rendering of the tree to `out`.
    ///
    /// The tree must be well formed: a void element with attributes or
    /// children is a mistake of the caller, and `is_well_formed` finds it.
    /// Where the tree is self-contained, a well-nested `out` stays well
    /// nested.
    pub fn render(&self, out: &mut String)
        requires
            self@.well_formed(),
        ensures
            final(out)@ == old(out)@ + self@.rendered(),
            self@.self_contained() && well_nested(old(out)@) ==> well_nested(final(out)@),
        decreases self,
    {
        match self {
            Node::Text(text) => {
                push_without_newlines(out, text.as_text());
            },
            Node::Html(markup) => {
                out.append(markup.as_text());
            },
            Node::Element(tag, attrs, children) => {
                proof {
                    lemma_element_well_formed(*tag, attrs_view(attrs@), views(children@));
                }
                out.push('<');
                out.append(tag.as_str());
                if tag.has_content() {
                    render_attrs(attrs, out);
                    out.push('>');
                    render_all(children, out);
                    out.push('<');
                    out.push('/');
                    out.append(tag.as_str());
                }
                out.push('>');
            },
        }
        proof {
            assert(out@ == old(out)@ + self@.rendered());
            if self@.self_contained() && well_nested(old(out)@) {
                lemma_rendering_is_well_nested(self@);
                lemma_well_nested_concat(old(out)@, self@.rendered());
            }
        }
    }
}

/// Renders one tree into a fresh string. The string is well nested where
/// the tree is self-contained.
pub fn render_node<S: AsText>(node: Node<S>) -> (out: String)
    requires
        node@.well_formed(),
    ensures
        out@ == node@.rendered(),
        node@.self_contained() ==> well_nested(out@),
{
    let mut out = String::new();
    node.render(&mut out);
    out
}

/// Renders the trees one after the other into a fresh string, with nothing
/// between them. The string is well nested where the trees are
/// self-contained.
pub fn render_nodes<S: AsText>(nodes: Vec<Node<S>>) -> (out: String)
    requires
        all_well_formed(views(nodes@)),
    ensures
        out@ == rendered_all(views(nodes@)),
        all_self_contained(views(nodes@)) ==> well_nested(out@),
{
    proof {
        if all_self_contained(views(nodes@)) {
            lemma_all_rendered_is_well_nested(views(nodes@));
        }
    }
    let mut out = String::new();
    render_all(&nodes, &mut out);
    out
}

/// Rendering two trees together gives what rendering the first gives,
/// followed by what rendering the second gives, with nothing between.
pub proof fn lemma_render_nodes_of_two<S: AsText>(first: Node<S>, second: Node<S>)
    ensures
        rendered_all(views(seq![first, second])) == first@.rendered() + second@.rendered(),
{
    let both = seq![first, second];
    lemma_views_index(both);
    let trees = views(both);
    assert(rendered_all(trees.drop_last()) == rendered_all(trees.drop_last().drop_last())
        + trees.drop_last().last().rendered());
}

} // verus!
