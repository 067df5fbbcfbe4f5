use std::borrow::Cow;
use std::rc::Rc;
use std::sync::Arc;

use lighthtml::prelude::{Element, Html, Text, A_CLASS, A_ID, E_BR, E_DIV};
use lighthtml::{render_node, AsText, Node};

fn sample<S: AsText>(make: fn(&str) -> S) -> Node<S> {
    Element(
        E_DIV,
        vec![(A_CLASS, make("x")), (A_ID, make(""))],
        vec![Text(make("h\ni")), Html(make("<i>\n</i>")), Element(E_BR, vec![], vec![])],
    )
}

const SAMPLE_RENDERED: &str = "<div class=\"x\" id>hi<i>\n</i><br></div>";

#[test]
fn text_is_lent_out_unchanged() {
    assert_eq!("a\nb".as_text(), "a\nb");
    assert_eq!(String::from("a\nb").as_text(), "a\nb");
    assert_eq!(Cow::Borrowed("a\nb").as_text(), "a\nb");
    assert_eq!(Cow::<str>::Owned(String::from("a\nb")).as_text(), "a\nb");
    assert_eq!(Box::<str>::from("a\nb").as_text(), "a\nb");
    assert_eq!(Rc::<str>::from("a\nb").as_text(), "a\nb");
    assert_eq!(Arc::<str>::from("a\nb").as_text(), "a\nb");
}

#[test]
fn tree_of_owned_strings_renders() {
    assert_eq!(render_node(sample::<String>(|s| String::from(s))), SAMPLE_RENDERED);
}

#[test]
fn tree_of_borrowed_or_owned_strings_renders() {
    assert_eq!(
        render_node(sample::<Cow<'static, str>>(|s| Cow::Owned(String::from(s)))),
        SAMPLE_RENDERED
    );
    let tree: Node<Cow<str>> = Element(
        E_DIV,
        vec![(A_CLASS, Cow::Borrowed("x")), (A_ID, Cow::Owned(String::new()))],
        vec![Text(Cow::Borrowed("h\ni")), Html(Cow::Owned(String::from("<i>\n</i>"))), Element(E_BR, vec![], vec![])],
    );
    assert_eq!(render_node(tree), SAMPLE_RENDERED);
}

#[test]
fn tree_of_boxed_strings_renders() {
    assert_eq!(render_node(sample::<Box<str>>(|s| Box::from(s))), SAMPLE_RENDERED);
}

#[test]
fn tree_of_shared_strings_renders() {
    assert_eq!(render_node(sample::<Rc<str>>(|s| Rc::from(s))), SAMPLE_RENDERED);
    assert_eq!(render_node(sample::<Arc<str>>(|s| Arc::from(s))), SAMPLE_RENDERED);
}

#[test]
fn copy_of_a_tree_of_shared_strings_renders_alike() {
    let tree = sample::<Rc<str>>(|s| Rc::from(s));
    let copy = tree.clone();
    assert_eq!(render_node(copy), SAMPLE_RENDERED);
    assert_eq!(render_node(tree), SAMPLE_RENDERED);
}
