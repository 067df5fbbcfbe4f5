//! Reading markup text back, to say when its tags are properly nested.
//!
//! A reader walks the text one character at a time and keeps the names of the
//! elements that are open. An opening tag adds its name, unless the name is
//! that of a void tag; a closing tag must name the innermost open element and
//! removes it. Text is well nested when the reader gets through it and ends
//! outside every tag with no element left open.

use vstd::prelude::*;
use crate::markup::all_well_formed;
use crate::markup::attr_rendered;
use crate::markup::attrs_rendered;
use crate::markup::lemma_element_well_formed;
use crate::markup::Markup;
use crate::markup::rendered_all;
use crate::markup::without_newlines;
use crate::symbols::AttrKey;
use crate::symbols::ElementTag;
use crate::symbols::is_name_char;

verus! {

/// Where the reader stands in the text.
#[verifier::ext_equal]
pub enum Place {
    /// Outside every tag.
    Content,
    /// In an opening tag, within its name; the part of the name read so far.
    OpenName(Seq<char>),
    /// In an opening tag with this name, past the name.
    OpenRest(Seq<char>),
    /// In a closing tag, within its name; the part of the name read so far.
    CloseName(Seq<char>),
}

/// The reader's state between two characters.
#[verifier::ext_equal]
pub struct Reader {
    /// The names of the open elements, the outermost first.
    pub open: Seq<Seq<char>>,
    /// Where the reader stands.
    pub place: Place,
}

/// The reader outside every tag, with these elements open.
pub open spec fn in_content(open: Seq<Seq<char>>) -> Reader {
    Reader { open, place: Place::Content }
}

/// The reader in an opening tag, within its name.
pub open spec fn in_open_name(open: Seq<Seq<char>>, so_far: Seq<char>) -> Reader {
    Reader { open, place: Place::OpenName(so_far) }
}

/// The reader in an opening tag, past its name.
pub open spec fn in_open_rest(open: Seq<Seq<char>>, name: Seq<char>) -> Reader {
    Reader { open, place: Place::OpenRest(name) }
}

/// The reader in a closing tag, within its name.
pub open spec fn in_close_name(open: Seq<Seq<char>>, so_far: Seq<char>) -> Reader {
    Reader { open, place: Place::CloseName(so_far) }
}

/// Whether `name` is the spelling of a void tag.
pub open spec fn is_void_name(name: Seq<char>) -> bool {
    exists|tag: ElementTag| tag.is_void() && #[trigger] tag.spelling() == name
}

/// The reader just behind the opening tag of `name`: the element is open
/// from here on, unless its tag is void.
pub open spec fn after_opening(open: Seq<Seq<char>>, name: Seq<char>) -> Reader {
    in_content(
        if is_void_name(name) {
            open
        } else {
            open.push(name)
        },
    )
}

/// One character further, or `None` where the text is malformed: a `<`
/// inside a tag, a tag without a name, a `/` behind the name of an opening
/// tag, or a closing tag that does not name the innermost open element.
pub open spec fn step(reader: Reader, c: char) -> Option<Reader> {
    let open = reader.open;
    match reader.place {
        Place::Content => if c == '<' {
            Some(in_open_name(open, Seq::empty()))
        } else {
            Some(reader)
        },
        Place::OpenName(name) => if c == '<' {
            None
        } else if c == '/' {
            if name.len() == 0 {
                Some(in_close_name(open, Seq::empty()))
            } else {
                None
            }
        } else if c == ' ' {
            if name.len() == 0 {
                None
            } else {
                Some(in_open_rest(open, name))
            }
        } else if c == '>' {
            if name.len() == 0 {
                None
            } else {
                Some(after_opening(open, name))
            }
        } else {
            Some(in_open_name(open, name.push(c)))
        },
        Place::OpenRest(name) => if c == '<' {
            None
        } else if c == '>' {
            Some(after_opening(open, name))
        } else {
            Some(reader)
        },
        Place::CloseName(name) => if c == '<' {
            None
        } else if c == '>' {
            if open.len() > 0 && open.last() == name {
                Some(in_content(open.drop_last()))
            } else {
                None
            }
        } else {
            Some(in_close_name(open, name.push(c)))
        },
    }
}

/// The reader after all of `text`, from `start`.
pub open spec fn read(start: Option<Reader>, text: Seq<char>) -> Option<Reader>
    decreases text.len(),
{
    if text.len() == 0 {
        start
    } else {
        match read(start, text.drop_last()) {
            Some(reader) => step(reader, text.last()),
            None => None,
        }
    }
}

/// Every opening tag in `text` is matched by exactly one closing tag of the
/// same name at the same depth, but for void tags, which have none; and no
/// closing tag stands without its opening tag.
pub open spec fn well_nested(text: Seq<char>) -> bool {
    read(Some(in_content(Seq::empty())), text) == Some(in_content(Seq::empty()))
}

/// Reading one more character is one more step.
pub proof fn lemma_read_push(start: Option<Reader>, text: Seq<char>, c: char)
    ensures
        read(start, text.push(c)) == match read(start, text) {
            Some(reader) => step(reader, c),
            None => None,
        },
{
    assert(text.push(c).drop_last() == text);
}

/// Reading two texts in a row is reading the second from where the first
/// has led.
pub proof fn lemma_read_concat(start: Option<Reader>, a: Seq<char>, b: Seq<char>)
    ensures
        read(start, a + b) == read(read(start, a), b),
    decreases b.len(),
{
    if b.len() > 0 {
        lemma_read_concat(start, a, b.drop_last());
        assert((a + b).drop_last() == a + b.drop_last());
    }
}

/// No character of `text` is `c`.
pub open spec fn free_of(text: Seq<char>, c: char) -> bool {
    forall|i: int| 0 <= i < text.len() ==> (#[trigger] text[i]) != c
}

/// The same reader with the elements of `base` open around those it has.
pub open spec fn under(base: Seq<Seq<char>>, reader: Reader) -> Reader {
    Reader { open: base + reader.open, place: reader.place }
}

/// A step that succeeds does so whatever elements are open further out.
proof fn lemma_step_under(base: Seq<Seq<char>>, reader: Reader, c: char)
    requires
        step(reader, c) is Some,
    ensures
        step(under(base, reader), c) == Some(under(base, step(reader, c)->0)),
{
}

/// Text that reads through does so whatever elements are open further out.
pub proof fn lemma_read_under(base: Seq<Seq<char>>, start: Reader, text: Seq<char>)
    requires
        read(Some(start), text) is Some,
    ensures
        read(Some(under(base, start)), text) == Some(under(base, read(Some(start), text)->0)),
    decreases text.len(),
{
    if text.len() > 0 {
        lemma_read_under(base, start, text.drop_last());
        lemma_step_under(base, read(Some(start), text.drop_last())->0, text.last());
    }
}

/// Well-nested text leaves the reader as it found it, whatever is open.
pub proof fn lemma_well_nested_reads_through(text: Seq<char>, open: Seq<Seq<char>>)
    requires
        well_nested(text),
    ensures
        read(Some(in_content(open)), text) == Some(in_content(open)),
{
    let none_open = in_content(Seq::empty());
    lemma_read_under(open, none_open, text);
}

/// Two well-nested texts in a row are well nested.
pub proof fn lemma_well_nested_concat(first: Seq<char>, second: Seq<char>)
    requires
        well_nested(first),
        well_nested(second),
    ensures
        well_nested(first + second),
{
    lemma_read_concat(Some(in_content(Seq::empty())), first, second);
}

/// Text without `<` holds no tag, so it is well nested.
pub proof fn lemma_text_without_tags_is_well_nested(text: Seq<char>)
    requires
        free_of(text, '<'),
    ensures
        well_nested(text),
    decreases text.len(),
{
    if text.len() > 0 {
        lemma_text_without_tags_is_well_nested(text.drop_last());
    }
}

/// Inside the name of an opening tag, name characters are added to the name.
proof fn lemma_read_open_name(open: Seq<Seq<char>>, so_far: Seq<char>, more: Seq<char>)
    requires
        forall|i: int| 0 <= i < more.len() ==> is_name_char(#[trigger] more[i]),
    ensures
        read(Some(in_open_name(open, so_far)), more) == Some(in_open_name(open, so_far + more)),
    decreases more.len(),
{
    if more.len() > 0 {
        lemma_read_open_name(open, so_far, more.drop_last());
    }
}

/// Inside the name of a closing tag, name characters are added to the name.
proof fn lemma_read_close_name(open: Seq<Seq<char>>, so_far: Seq<char>, more: Seq<char>)
    requires
        forall|i: int| 0 <= i < more.len() ==> is_name_char(#[trigger] more[i]),
    ensures
        read(Some(in_close_name(open, so_far)), more) == Some(
            in_close_name(open, so_far + more),
        ),
    decreases more.len(),
{
    if more.len() > 0 {
        lemma_read_close_name(open, so_far, more.drop_last());
    }
}

/// Behind the name of an opening tag, text without `<` that is empty or
/// starts with a space leaves the reader in the tag or just behind it.
proof fn lemma_read_behind_name(open: Seq<Seq<char>>, name: Seq<char>, text: Seq<char>)
    requires
        name.len() > 0,
        free_of(text, '<'),
        text.len() > 0 ==> text[0] == ' ',
    ensures
        ({
            let end = read(Some(in_open_name(open, name)), text);
            ||| text.len() == 0 && end == Some(in_open_name(open, name))
            ||| end == Some(in_open_rest(open, name))
            ||| end == Some(after_opening(open, name))
        }),
    decreases text.len(),
{
    if text.len() > 0 {
        lemma_read_behind_name(open, name, text.drop_last());
    }
}

/// The attributes of an opening tag hold no `<` where no value does, and
/// start with a space where there are any.
proof fn lemma_attrs_rendered_shape(attrs: Seq<(AttrKey, Seq<char>)>)
    requires
        forall|i: int| 0 <= i < attrs.len() ==> free_of((#[trigger] attrs[i]).1, '<'),
    ensures
        free_of(attrs_rendered(attrs), '<'),
        attrs_rendered(attrs).len() > 0 ==> attrs_rendered(attrs)[0] == ' ',
    decreases attrs.len(),
{
    if attrs.len() > 0 {
        let (key, value) = attrs.last();
        lemma_attrs_rendered_shape(attrs.drop_last());
        key.lemma_spelling_is_name();
        assert(free_of(attr_rendered(key, value), '<'));
    }
}

impl Markup {
    /// The tree brings no unbalanced markup of its own: every text run, as
    /// it is rendered, and every raw markup run is well nested by itself,
    /// and no attribute value holds a `<`.
    pub open spec fn self_contained(self) -> bool
        decreases self,
    {
        match self {
            Markup::Text(text) => well_nested(without_newlines(text)),
            Markup::Html(markup) => well_nested(markup),
            Markup::Element(_, attrs, children) => {
                &&& forall|i: int| 0 <= i < attrs.len() ==> free_of((#[trigger] attrs[i]).1, '<')
                &&& forall|i: int|
                    0 <= i < children.len() ==> (#[trigger] children[i]).self_contained()
            },
        }
    }
}

/// Every tree of `nodes` is self-contained.
pub open spec fn all_self_contained(nodes: Seq<Markup>) -> bool {
    forall|i: int| 0 <= i < nodes.len() ==> (#[trigger] nodes[i]).self_contained()
}

/// The children of a self-contained element are self-contained.
pub proof fn lemma_children_self_contained(
    tag: ElementTag,
    attrs: Seq<(AttrKey, Seq<char>)>,
    children: Seq<Markup>,
)
    requires
        Markup::Element(tag, attrs, children).self_contained(),
    ensures
        all_self_contained(children),
        forall|i: int| 0 <= i < attrs.len() ==> free_of((#[trigger] attrs[i]).1, '<'),
{
    let element = Markup::Element(tag, attrs, children);
    assert(element->1 == attrs && element->2 == children);
}

impl Markup {
    /// No text run, raw markup run or attribute value of the tree holds a
    /// `<`: whatever the tree holds has been escaped, or never held markup.
    pub open spec fn without_tags(self) -> bool
        decreases self,
    {
        match self {
            Markup::Text(text) => free_of(text, '<'),
            Markup::Html(markup) => free_of(markup, '<'),
            Markup::Element(_, attrs, children) => {
                &&& forall|i: int| 0 <= i < attrs.len() ==> free_of((#[trigger] attrs[i]).1, '<')
                &&& forall|i: int|
                    0 <= i < children.len() ==> (#[trigger] children[i]).without_tags()
            },
        }
    }
}

/// A tree that holds no `<` of its own is self-contained.
pub proof fn lemma_tree_without_tags_is_self_contained(tree: Markup)
    requires
        tree.without_tags(),
    ensures
        tree.self_contained(),
    decreases tree,
{
    match tree {
        Markup::Text(text) => {
            let rendered = without_newlines(text);
            assert forall|i: int| 0 <= i < rendered.len() implies (#[trigger] rendered[i])
                != '<' by {
                text.lemma_filter_contains_rev(|c: char| c != '\n', rendered[i]);
            }
            lemma_text_without_tags_is_well_nested(rendered);
        },
        Markup::Html(markup) => {
            lemma_text_without_tags_is_well_nested(markup);
        },
        Markup::Element(tag, attrs, children) => {
            assert(tree->1 == attrs && tree->2 == children);
            assert forall|i: int| 0 <= i < children.len() implies (
            #[trigger] children[i]).self_contained() by {
                lemma_tree_without_tags_is_self_contained(children[i]);
            }
        },
    }
}

/// The reader gets through the rendering of a well-formed, self-contained
/// tree and comes out as it went in, whatever elements are open around it.
pub proof fn lemma_rendering_reads_through(tree: Markup, open: Seq<Seq<char>>)
    requires
        tree.well_formed(),
        tree.self_contained(),
    ensures
        read(Some(in_content(open)), tree.rendered()) == Some(in_content(open)),
    decreases tree,
{
    match tree {
        Markup::Text(text) => {
            lemma_well_nested_reads_through(without_newlines(text), open);
        },
        Markup::Html(markup) => {
            lemma_well_nested_reads_through(markup, open);
        },
        Markup::Element(tag, attrs, children) => {
            let start = Some(in_content(open));
            let name = tag.spelling();
            let no_name = Seq::<char>::empty();
            tag.lemma_spelling_is_name();

            let lt = seq!['<'];
            assert(read(start, lt) == Some(in_open_name(open, no_name))) by {
                lemma_read_push(start, Seq::empty(), '<');
            }
            let lt_name = lt + name;
            assert(read(start, lt_name) == Some(in_open_name(open, name))) by {
                lemma_read_concat(start, lt, name);
                lemma_read_open_name(open, no_name, name);
            }
            if tag.is_void() {
                lemma_read_push(start, lt_name, '>');
            } else {
                assert(!is_void_name(name)) by {
                    if is_void_name(name) {
                        let void = choose|void: ElementTag|
                            void.is_void() && #[trigger] void.spelling() == name;
                        void.lemma_spelling_is_unique(tag);
                    }
                }
                lemma_element_well_formed(tag, attrs, children);
                lemma_children_self_contained(tag, attrs, children);
                let inner = open.push(name);

                let opening = lt_name + attrs_rendered(attrs) + seq!['>'];
                assert(read(start, opening) == Some(in_content(inner))) by {
                    lemma_attrs_rendered_shape(attrs);
                    lemma_read_concat(start, lt_name, attrs_rendered(attrs));
                    lemma_read_behind_name(open, name, attrs_rendered(attrs));
                    lemma_read_push(start, lt_name + attrs_rendered(attrs), '>');
                    assert((lt_name + attrs_rendered(attrs)).push('>') == opening);
                }
                let body = opening + rendered_all(children);
                assert(read(start, body) == Some(in_content(inner))) by {
                    lemma_all_rendered_reads_through(children, inner);
                    lemma_read_concat(start, opening, rendered_all(children));
                }
                let body_lt = body + seq!['<', '/'];
                assert(read(start, body_lt) == Some(in_close_name(inner, no_name))) by {
                    lemma_read_push(start, body, '<');
                    lemma_read_push(start, body.push('<'), '/');
                    assert(body.push('<').push('/') == body_lt);
                }
                let body_name = body_lt + name;
                assert(read(start, body_name) == Some(in_close_name(inner, name))) by {
                    lemma_read_concat(start, body_lt, name);
                    lemma_read_close_name(inner, no_name, name);
                }
                lemma_read_push(start, body_name, '>');
                assert(body_name.push('>') == tree.rendered());
            }
        },
    }
}

/// The reader gets through the renderings of well-formed, self-contained
/// trees, one after the other, and comes out as it went in.
pub proof fn lemma_all_rendered_reads_through(nodes: Seq<Markup>, open: Seq<Seq<char>>)
    requires
        all_well_formed(nodes),
        all_self_contained(nodes),
    ensures
        read(Some(in_content(open)), rendered_all(nodes)) == Some(in_content(open)),
    decreases nodes,
{
    if nodes.len() > 0 {
        let front = nodes.drop_last();
        assert forall|i: int| 0 <= i < front.len() implies (#[trigger] front[i]).well_formed()
            && front[i].self_contained() by {
            assert(front[i] == nodes[i]);
        }
        lemma_all_rendered_reads_through(front, open);
        lemma_rendering_reads_through(nodes.last(), open);
        lemma_read_concat(Some(in_content(open)), rendered_all(front), nodes.last().rendered());
    }
}

/// The renderings of well-formed, self-contained trees, one after the
/// other, are well nested.
pub proof fn lemma_all_rendered_is_well_nested(nodes: Seq<Markup>)
    requires
        all_well_formed(nodes),
        all_self_contained(nodes),
    ensures
        well_nested(rendered_all(nodes)),
{
    lemma_all_rendered_reads_through(nodes, Seq::empty());
}

/// The rendering of a well-formed tree is well nested: every opening tag
/// is matched by one closing tag of its name at its depth, void tags have
/// none. This asks that the tree is self-contained, since text, raw markup
/// and attribute values reach the output unescaped.
pub proof fn lemma_rendering_is_well_nested(tree: Markup)
    requires
        tree.well_formed(),
        tree.self_contained(),
    ensures
        well_nested(tree.rendered()),
{
    lemma_rendering_reads_through(tree, Seq::empty());
}

} // verus!
