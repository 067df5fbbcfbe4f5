use lighthtml::prelude::{
    Element, Html, Text, A_ALT, A_CLASS, A_HREF, A_ID, A_SRC, A_STYLE, E_A, E_B, E_BODY, E_BR,
    E_DIV, E_H1, E_HR, E_HTML, E_IMG, E_P, E_SPAN, E_USE,
};
use lighthtml::{render_node, render_nodes, Node};

#[test]
fn div_with_attributes_text_and_line_break() {
    let tree: Node<&str> = Element(
        E_DIV,
        vec![(A_CLASS, "x"), (A_ID, "")],
        vec![Text("hi"), Element(E_BR, vec![], vec![])],
    );
    assert!(tree.is_well_formed());
    assert_eq!(render_node(tree), "<div class=\"x\" id>hi<br></div>");
}

#[test]
fn anchor_with_link_text() {
    let tree: Node<&str> = Element(E_A, vec![(A_HREF, "http://e")], vec![Text("link")]);
    assert!(tree.is_well_formed());
    assert_eq!(render_node(tree), "<a href=\"http://e\">link</a>");
}

#[test]
fn text_loses_its_newline() {
    assert_eq!(render_node(Text("a\nb")), "ab");
}

#[test]
fn text_loses_every_newline_and_nothing_else() {
    assert_eq!(render_node(Text("\n\na\n\nb \n c\n")), "ab  c");
    assert_eq!(render_node(Text("\n\n\n")), "");
    assert_eq!(render_node(Text("")), "");
    assert_eq!(render_node(Text("a\r\nb\tc")), "a\rb\tc");
}

#[test]
fn text_keeps_characters_of_any_width() {
    assert_eq!(render_node(Text("gr\u{fc}\u{df}e\n\u{4e16}\u{754c}\n\u{1f600}!")), "gr\u{fc}\u{df}e\u{4e16}\u{754c}\u{1f600}!");
}

#[test]
fn text_is_not_escaped() {
    assert_eq!(render_node(Text("a < b && c > \"d\"")), "a < b && c > \"d\"");
}

#[test]
fn raw_markup_is_rendered_unchanged() {
    assert_eq!(render_node(Html("<i>a</i>\n<b>b</b>\n")), "<i>a</i>\n<b>b</b>\n");
    assert_eq!(render_node(Html("")), "");
}

#[test]
fn raw_markup_keeps_the_newline_that_text_loses() {
    assert_eq!(render_node(Html("a\nb")), "a\nb");
    assert_eq!(render_node(Text("a\nb")), "ab");
}

#[test]
fn element_without_attributes_or_children() {
    let tree: Node<&str> = Element(E_P, vec![], vec![]);
    assert_eq!(render_node(tree), "<p></p>");
}

#[test]
fn reserved_word_tag_renders_its_plain_spelling() {
    let tree: Node<&str> = Element(E_USE, vec![(A_HREF, "#icon")], vec![]);
    assert_eq!(render_node(tree), "<use href=\"#icon\"></use>");
    let bare: Node<&str> = Element(E_USE, vec![], vec![Text("x")]);
    assert_eq!(render_node(bare), "<use>x</use>");
}

#[test]
fn void_elements_render_as_the_opening_tag_alone() {
    let br: Node<&str> = Element(E_BR, vec![], vec![]);
    let hr: Node<&str> = Element(E_HR, vec![], vec![]);
    assert!(br.is_well_formed());
    assert!(hr.is_well_formed());
    assert_eq!(render_node(br), "<br>");
    assert_eq!(render_node(hr), "<hr>");
}

#[test]
fn void_element_with_attributes_or_children_is_not_well_formed() {
    let with_attr: Node<&str> = Element(E_BR, vec![(A_CLASS, "x")], vec![]);
    let with_child: Node<&str> = Element(E_HR, vec![], vec![Text("x")]);
    let with_both: Node<&str> = Element(E_BR, vec![(A_ID, "")], vec![Element(E_BR, vec![], vec![])]);
    assert!(!with_attr.is_well_formed());
    assert!(!with_child.is_well_formed());
    assert!(!with_both.is_well_formed());
}

#[test]
fn misused_void_element_deep_in_the_tree_is_found() {
    let bad: Node<&str> = Element(E_HR, vec![(A_STYLE, "x")], vec![]);
    let tree: Node<&str> = Element(
        E_DIV,
        vec![],
        vec![Text("a"), Element(E_P, vec![], vec![Element(E_SPAN, vec![], vec![bad])]), Text("b")],
    );
    assert!(!tree.is_well_formed());
    let good: Node<&str> = Element(
        E_DIV,
        vec![],
        vec![
            Text("a"),
            Element(E_P, vec![], vec![Element(E_SPAN, vec![], vec![Element(E_HR, vec![], vec![])])]),
            Text("b"),
        ],
    );
    assert!(good.is_well_formed());
    assert_eq!(render_node(good), "<div>a<p><span><hr></span></p>b</div>");
}

#[test]
fn text_and_raw_markup_are_always_well_formed() {
    assert!(Text("<br x>").is_well_formed());
    assert!(Html("</br>").is_well_formed());
}

#[test]
fn attribute_with_empty_value_is_a_bare_name() {
    let tree: Node<&str> = Element(E_DIV, vec![(A_ID, "")], vec![]);
    assert_eq!(render_node(tree), "<div id></div>");
}

#[test]
fn attribute_with_a_value_is_name_equals_quoted_value() {
    let tree: Node<&str> = Element(E_IMG, vec![(A_SRC, "a.png")], vec![]);
    assert_eq!(render_node(tree), "<img src=\"a.png\"></img>");
}

#[test]
fn attribute_value_is_not_escaped() {
    let tree: Node<&str> = Element(E_IMG, vec![(A_ALT, "a \"b\" <c> & d\ne")], vec![]);
    assert_eq!(render_node(tree), "<img alt=\"a \"b\" <c> & d\ne\"></img>");
}

#[test]
fn attributes_keep_their_order_and_may_repeat() {
    let tree: Node<&str> = Element(
        E_SPAN,
        vec![(A_CLASS, "a"), (A_ID, "i"), (A_CLASS, ""), (A_CLASS, "b")],
        vec![],
    );
    assert_eq!(render_node(tree), "<span class=\"a\" id=\"i\" class class=\"b\"></span>");
}

#[test]
fn children_follow_each_other_without_separator() {
    let tree: Node<&str> = Element(
        E_P,
        vec![],
        vec![Text("a"), Element(E_B, vec![], vec![Text("b")]), Html("<i>c</i>"), Text("d")],
    );
    assert_eq!(render_node(tree), "<p>a<b>b</b><i>c</i>d</p>");
}

#[test]
fn nested_elements_close_in_reverse_order() {
    let tree: Node<&str> = Element(
        E_HTML,
        vec![],
        vec![Element(
            E_BODY,
            vec![(A_CLASS, "c")],
            vec![
                Element(E_H1, vec![], vec![Text("t")]),
                Element(E_DIV, vec![], vec![Element(E_P, vec![], vec![Text("x"), Element(E_BR, vec![], vec![]), Text("y")])]),
            ],
        )],
    );
    assert_eq!(
        render_node(tree),
        "<html><body class=\"c\"><h1>t</h1><div><p>x<br>y</p></div></body></html>"
    );
}

#[test]
fn render_appends_to_what_the_buffer_holds() {
    let tree: Node<&str> = Element(E_B, vec![], vec![Text("x")]);
    let mut out = String::from("before:");
    tree.render(&mut out);
    assert_eq!(out, "before:<b>x</b>");
}

#[test]
fn a_tree_can_be_rendered_again() {
    let tree: Node<&str> = Element(E_A, vec![(A_HREF, "u")], vec![Text("v\n")]);
    let mut out = String::new();
    tree.render(&mut out);
    tree.render(&mut out);
    assert_eq!(out, "<a href=\"u\">v</a><a href=\"u\">v</a>");
}

#[test]
fn owned_strings_render_like_borrowed_ones() {
    let tree: Node<String> = Element(
        E_DIV,
        vec![(A_CLASS, String::from("x")), (A_ID, String::new())],
        vec![Text(String::from("h\ni")), Html(String::from("<hr>\n")), Element(E_BR, vec![], vec![])],
    );
    assert!(tree.is_well_formed());
    assert_eq!(render_node(tree), "<div class=\"x\" id>hi<hr>\n<br></div>");
}

#[test]
fn render_nodes_of_two_is_one_rendering_after_the_other() {
    let a = || -> Node<&str> { Element(E_A, vec![(A_HREF, "u")], vec![Text("v")]) };
    let b = || -> Node<&str> { Element(E_DIV, vec![], vec![Element(E_BR, vec![], vec![]), Text("w\n")]) };
    let together = render_nodes(vec![a(), b()]);
    assert_eq!(together, format!("{}{}", render_node(a()), render_node(b())));
    assert_eq!(together, "<a href=\"u\">v</a><div><br>w</div>");
}

#[test]
fn render_nodes_of_none_is_empty() {
    let none: Vec<Node<&str>> = vec![];
    assert_eq!(render_nodes(none), "");
}

#[test]
fn render_nodes_of_one_is_render_node() {
    assert_eq!(render_nodes(vec![Text("a\nb")]), "ab");
}

#[test]
fn render_nodes_keeps_the_order() {
    let nodes: Vec<Node<&str>> = vec![Text("1"), Html("2"), Element(E_HR, vec![], vec![]), Text("3")];
    assert_eq!(render_nodes(nodes), "12<hr>3");
}

#[test]
fn a_copy_renders_like_the_tree_it_was_made_from() {
    let tree: Node<String> = Element(
        E_DIV,
        vec![(A_CLASS, String::from("x")), (A_ID, String::new())],
        vec![Text(String::from("hi")), Element(E_BR, vec![], vec![]), Html(String::from("<i>\n</i>"))],
    );
    let copy = tree.clone();
    assert_eq!(copy.is_well_formed(), tree.is_well_formed());
    let mut first = String::new();
    tree.render(&mut first);
    assert_eq!(render_node(copy), first);
    assert_eq!(first, "<div class=\"x\" id>hi<br><i>\n</i></div>");
}

#[test]
fn a_node_can_be_shown_for_debugging() {
    let tree: Node<&str> = Element(E_BR, vec![], vec![]);
    assert_eq!(format!("{:?}", tree), "Element(E_BR, [], [])");
}
