use lighthtml::prelude::{
    Element, Html, Text, A_ALT, A_CLASS, A_HREF, A_ID, E_A, E_B, E_BODY, E_BR, E_DIV, E_H1, E_HR,
    E_HTML, E_I, E_IMG, E_P, E_SPAN, E_USE,
};
use lighthtml::{render_node, render_nodes, Node};

/// The names of the elements left open at the end of `markup`, or `None`
/// where a closing tag does not name the innermost open element or a tag
/// is cut short.
fn left_open(markup: &str) -> Option<Vec<String>> {
    let mut open: Vec<String> = Vec::new();
    let mut rest = markup;
    loop {
        let Some(start) = rest.find('<') else {
            return Some(open);
        };
        let tag_and_rest = &rest[start + 1..];
        let end = tag_and_rest.find('>')?;
        let inside = &tag_and_rest[..end];
        if inside.contains('<') {
            return None;
        }
        rest = &tag_and_rest[end + 1..];
        if let Some(name) = inside.strip_prefix('/') {
            if open.pop().as_deref() != Some(name) {
                return None;
            }
        } else {
            let name = inside.split(' ').next().unwrap_or("");
            if name.is_empty() || name.contains('/') {
                return None;
            }
            if name != "br" && name != "hr" {
                open.push(String::from(name));
            }
        }
    }
}

fn is_well_nested(markup: &str) -> bool {
    left_open(markup) == Some(Vec::new())
}

fn page() -> Node<&'static str> {
    Element(
        E_HTML,
        vec![],
        vec![Element(
            E_BODY,
            vec![(A_CLASS, "c d"), (A_ID, "")],
            vec![
                Element(E_H1, vec![], vec![Text("t\n"), Element(E_BR, vec![], vec![])]),
                Element(E_HR, vec![], vec![]),
                Element(
                    E_DIV,
                    vec![(A_ID, "a>b")],
                    vec![
                        Element(E_P, vec![], vec![Text("x"), Element(E_USE, vec![(A_HREF, "#u")], vec![]), Text("y")]),
                        Element(E_IMG, vec![(A_ALT, "")], vec![]),
                        Html("<i>raw <b>markup</b></i>\n"),
                        Element(E_SPAN, vec![], vec![Element(E_A, vec![(A_HREF, "u")], vec![Element(E_B, vec![], vec![Element(E_I, vec![], vec![])])])]),
                    ],
                ),
            ],
        )],
    )
}

#[test]
fn the_test_reader_tells_nested_from_tangled() {
    assert!(is_well_nested(""));
    assert!(is_well_nested("plain > text"));
    assert!(is_well_nested("<a></a>"));
    assert!(is_well_nested("<a><b>x</b><br></a><hr>"));
    assert!(!is_well_nested("<a>"));
    assert!(!is_well_nested("</a>"));
    assert!(!is_well_nested("<a></b>"));
    assert!(!is_well_nested("<a><b></a></b>"));
    assert!(!is_well_nested("<a></a></a>"));
    assert!(!is_well_nested("<br></br>"));
    assert!(!is_well_nested("<a"));
}

#[test]
fn rendering_of_a_page_is_well_nested() {
    let page = page();
    assert!(page.is_well_formed());
    let markup = render_node(page);
    assert_eq!(
        markup,
        "<html><body class=\"c d\" id><h1>t<br></h1><hr><div id=\"a>b\"><p>x<use href=\"#u\"></use>y</p>\
         <img alt></img><i>raw <b>markup</b></i>\n<span><a href=\"u\"><b><i></i></b></a></span></div></body></html>"
    );
    assert!(is_well_nested(&markup));
}

#[test]
fn every_opening_tag_of_the_page_has_one_closing_tag() {
    let markup = render_node(page());
    for name in ["html", "body", "h1", "div", "p", "use", "img", "i", "b", "span", "a"] {
        let opened = markup.matches(&format!("<{}>", name)).count()
            + markup.matches(&format!("<{} ", name)).count();
        let closed = markup.matches(&format!("</{}>", name)).count();
        assert!(opened > 0);
        assert_eq!(opened, closed);
    }
    for name in ["br", "hr"] {
        assert_eq!(markup.matches(&format!("<{}>", name)).count(), 1);
        assert_eq!(markup.matches(&format!("</{}>", name)).count(), 0);
    }
}

#[test]
fn renderings_in_a_row_are_well_nested() {
    let markup = render_nodes(vec![page(), Text("between"), page(), Element(E_BR, vec![], vec![])]);
    assert!(is_well_nested(&markup));
}

#[test]
fn unescaped_text_can_break_the_nesting() {
    let tree: Node<&str> = Element(E_P, vec![], vec![Text("<div>")]);
    assert!(tree.is_well_formed());
    let markup = render_node(tree);
    assert_eq!(markup, "<p><div></p>");
    assert!(!is_well_nested(&markup));
}

#[test]
fn unescaped_attribute_value_can_break_the_nesting() {
    let tree: Node<&str> = Element(E_P, vec![(A_ID, "<b")], vec![]);
    let markup = render_node(tree);
    assert_eq!(markup, "<p id=\"<b\"></p>");
    assert!(!is_well_nested(&markup));
}
