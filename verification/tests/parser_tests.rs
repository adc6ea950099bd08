use recrust_ast::Delimiter;
use recrust_ast::ExprNode;
use recrust_ast::Node;
use recrust_ast::PartialExpr;
use recrust_ast::RSXAttribute;
use recrust_ast::RSXElement;
use recrust_ast::TokenTree;

fn ident(s: &str) -> TokenTree {
    TokenTree::Ident { name: s.to_string(), pos: 0 }
}

fn punct(c: char) -> TokenTree {
    TokenTree::Punct { ch: c, joint: false, pos: 0 }
}

fn litstr(s: &str) -> TokenTree {
    TokenTree::LitStr { value: s.to_string(), pos: 0 }
}

fn braces(tokens: Vec<TokenTree>) -> TokenTree {
    TokenTree::Group { delim: Delimiter::Brace, pos: 0, tokens }
}

fn parse_node(tokens: Vec<TokenTree>) -> Node {
    let (node, _) = Node::parse(&tokens, 0).expect("failed to parse Node");
    node
}

fn expect_element(node: Node) -> RSXElement {
    match node {
        Node::Element(el) => el,
        other => panic!("expected Element, got {:?}", other),
    }
}

fn expect_tag(el: &RSXElement, expected: &str) {
    assert_eq!(el.tag, expected);
}

fn expect_props_len(el: &RSXElement, expected: usize) {
    assert_eq!(el.attributes.0.len(), expected);
}

fn prop<'a>(el: &'a RSXElement, name: &str) -> &'a ExprNode {
    for attr in el.attributes.0.iter() {
        if let RSXAttribute::Normal { name: n, value, .. } = attr {
            if n == name {
                return value;
            }
        }
    }
    panic!("missing prop `{name}`");
}

fn expect_prop_str(el: &RSXElement, name: &str, expected: &str) {
    let value = prop(el, name);
    assert_eq!(value.0.len(), 1);
    match &value.0[0] {
        PartialExpr::Normal(run) => {
            assert_eq!(run.len(), 1);
            match &run[0] {
                TokenTree::LitStr { value: s, .. } => assert_eq!(s, expected),
                other => panic!("expected prop `{name}` to be a string literal, got {:?}", other),
            }
        }
        other => panic!("expected prop `{name}` to be a literal run, got {:?}", other),
    }
}

fn children(el: &RSXElement) -> Vec<&Node> {
    let value = prop(el, "children");
    let mut out = Vec::new();
    for seg in value.0.iter() {
        match seg {
            PartialExpr::RSX(node) => out.push(node.as_ref()),
            other => panic!("expected `children` to hold only nodes, got {:?}", other),
        }
    }
    out
}

fn expect_children_len(children: &Vec<&Node>, expected: usize) {
    assert_eq!(children.len(), expected);
}

fn expect_text(node: &Node, expected: &str) {
    match node {
        Node::Text { value, .. } => assert_eq!(value, expected),
        other => panic!("expected Text node, got {:?}", other),
    }
}

fn expect_child_element<'a>(node: &'a Node, expected_tag: &str) -> &'a RSXElement {
    match node {
        Node::Element(el) => {
            assert_eq!(el.tag, expected_tag);
            el
        }
        other => panic!("expected Element child `{expected_tag}`, got {:?}", other),
    }
}

#[test]
fn self_closing_tag() {
    // <div />
    let tokens = vec![punct('<'), ident("div"), punct('/'), punct('>')];

    let el = expect_element(parse_node(tokens));
    expect_tag(&el, "div");
    expect_props_len(&el, 0);
}

#[test]
fn parser_tests_empty_tag() {
    // <div></div>
    let tokens = vec![
        punct('<'),
        ident("div"),
        punct('>'),
        punct('<'),
        punct('/'),
        ident("div"),
        punct('>'),
    ];

    let el = expect_element(parse_node(tokens));
    expect_tag(&el, "div");
    expect_props_len(&el, 0);
}

#[test]
fn attributes() {
    // <div id={"main"} class={"container"} />
    let tokens = vec![
        punct('<'),
        ident("div"),
        ident("id"),
        punct('='),
        braces(vec![litstr("main")]),
        ident("class"),
        punct('='),
        braces(vec![litstr("container")]),
        punct('/'),
        punct('>'),
    ];

    let el = expect_element(parse_node(tokens));
    expect_tag(&el, "div");
    expect_props_len(&el, 2);

    expect_prop_str(&el, "id", "main");
    expect_prop_str(&el, "class", "container");
}

#[test]
fn text_child() {
    // <span>"Hello"</span>
    let tokens = vec![
        punct('<'),
        ident("span"),
        punct('>'),
        litstr("Hello"),
        punct('<'),
        punct('/'),
        ident("span"),
        punct('>'),
    ];

    let el = expect_element(parse_node(tokens));
    expect_tag(&el, "span");
    expect_props_len(&el, 1);

    let children = children(&el);
    expect_children_len(&children, 1);
    expect_text(children[0], "Hello");
}

#[test]
fn nested_elements() {
    // <div> <header /> <footer></footer> </div>
    let tokens = vec![
        punct('<'),
        ident("div"),
        punct('>'),
        punct('<'),
        ident("header"),
        punct('/'),
        punct('>'),
        punct('<'),
        ident("footer"),
        punct('>'),
        punct('<'),
        punct('/'),
        ident("footer"),
        punct('>'),
        punct('<'),
        punct('/'),
        ident("div"),
        punct('>'),
    ];

    let el = expect_element(parse_node(tokens));
    expect_tag(&el, "div");
    expect_props_len(&el, 1);

    let children = children(&el);
    expect_children_len(&children, 2);
    expect_child_element(children[0], "header");
    expect_child_element(children[1], "footer");
}

#[test]
fn mixed_children() {
    // <div> "Title: " <span>"Value"</span> </div>
    let tokens = vec![
        punct('<'),
        ident("div"),
        punct('>'),
        litstr("Title: "),
        punct('<'),
        ident("span"),
        punct('>'),
        litstr("Value"),
        punct('<'),
        punct('/'),
        ident("span"),
        punct('>'),
        punct('<'),
        punct('/'),
        ident("div"),
        punct('>'),
    ];

    let el = expect_element(parse_node(tokens));
    expect_tag(&el, "div");
    expect_props_len(&el, 1);

    let children = children(&el);
    expect_children_len(&children, 2);
    expect_text(children[0], "Title: ");
    expect_child_element(children[1], "span");
}
