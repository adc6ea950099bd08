use recrust_ast::Delimiter;
use recrust_ast::ExprNode;
use recrust_ast::Node;
use recrust_ast::PartialExpr;
use recrust_ast::RSXAttribute;
use recrust_ast::RSXElement;
use recrust_ast::TokenTree;

fn ident(s: &str) -> TokenTree {
    TokenTree::Ident { name: s.to_string(), pos: 0 }
}

fn punct(c: char) -> TokenTree {
    TokenTree::Punct { ch: c, joint: false, pos: 0 }
}

fn litstr(s: &str) -> TokenTree {
    TokenTree::LitStr { value: s.to_string(), pos: 0 }
}

fn braces(tokens: Vec<TokenTree>) -> TokenTree {
    TokenTree::Group { delim: Delimiter::Brace, pos: 0, tokens }
}

fn parse_element(tokens: Vec<TokenTree>) -> RSXElement {
    let (node, _) = Node::parse(&tokens, 0).expect("failed to parse Node");
    match node {
        Node::Element(el) => el,
        other => panic!("expected Element, got {:?}", other),
    }
}

fn prop<'a>(el: &'a RSXElement, name: &str) -> &'a ExprNode {
    for attr in el.attributes.0.iter() {
        if let RSXAttribute::Normal { name: n, value, .. } = attr {
            if n == name {
                return value;
            }
        }
    }
    panic!("missing prop `{name}`");
}

/// Whether an identifier with this name occurs anywhere in the tokens,
/// at any group depth.
fn contains_ident(tokens: &[TokenTree], name: &str) -> bool {
    for t in tokens {
        match t {
            TokenTree::Ident { name: n, .. } if n == name => return true,
            TokenTree::Group { tokens: inner, .. } => {
                if contains_ident(inner, name) {
                    return true;
                }
            }
            _ => {}
        }
    }
    false
}

#[test]
fn html_empty_tag() {
    // <div></div>
    let tokens = vec![
        punct('<'),
        ident("div"),
        punct('>'),
        punct('<'),
        punct('/'),
        ident("div"),
        punct('>'),
    ];
    let el = parse_element(tokens);

    assert_eq!(el.tag, "div");
    assert_eq!(el.attributes.0.len(), 0);
}

#[test]
fn empty_self_closing_tag() {
    // <div />
    let tokens = vec![punct('<'), ident("div"), punct('/'), punct('>')];
    let el = parse_element(tokens);

    assert_eq!(el.tag, "div");
    assert_eq!(el.attributes.0.len(), 0);
}

#[test]
fn tag_with_children_and_attributes() {
    // <div id={"main"}><span /></div>
    let tokens = vec![
        punct('<'),
        ident("div"),
        ident("id"),
        punct('='),
        braces(vec![litstr("main")]),
        punct('>'),
        punct('<'),
        ident("span"),
        punct('/'),
        punct('>'),
        punct('<'),
        punct('/'),
        ident("div"),
        punct('>'),
    ];
    let el = parse_element(tokens);

    assert_eq!(el.tag, "div");
    assert!(el
        .attributes
        .0
        .iter()
        .any(|attr| matches!(attr, RSXAttribute::Normal { name, .. } if name == "id")));
    assert!(el
        .attributes
        .0
        .iter()
        .any(|attr| matches!(attr, RSXAttribute::Normal { name, .. } if name == "children")));

    // the prop value holds the contents of `{ ... }`
    let id_value = prop(&el, "id");
    assert_eq!(id_value.0, vec![PartialExpr::Normal(vec![litstr("main")])]);

    // children are stored as a synthetic `children` prop
    let PartialExpr::RSX(span_node) = &prop(&el, "children").0[0] else {
        panic!("expected span node, got {:?}", prop(&el, "children"));
    };

    let Node::Element(span) = span_node.as_ref() else {
        panic!("expected span element, got {:?}", span_node);
    };
    assert!(span.tag == "span");
    assert_eq!(span.attributes.0.len(), 0);
}

#[test]
fn spread_attributes() {
    // <div {..attrs} />
    let tokens = vec![
        punct('<'),
        ident("div"),
        braces(vec![punct('.'), punct('.'), ident("attrs")]),
        punct('/'),
        punct('>'),
    ];
    let el = parse_element(tokens);

    assert_eq!(el.tag, "div");
    assert_eq!(el.attributes.0.len(), 1);
    assert!(matches!(
        &el.attributes.0[0],
        RSXAttribute::Spread { ident, .. } if ident == "attrs"
    ));

    // the emission extends __attrs with the spread source
    let emitted = el.to_token_vec();
    assert!(contains_ident(&emitted, "__attrs"));
    assert!(contains_ident(&emitted, "extend"));
    assert!(contains_ident(&emitted, "attrs"));
}

#[test]
fn mix_normal_and_spread_attributes() {
    // <div id={"main"} {..extra} />
    let tokens = vec![
        punct('<'),
        ident("div"),
        ident("id"),
        punct('='),
        braces(vec![litstr("main")]),
        braces(vec![punct('.'), punct('.'), ident("extra")]),
        punct('/'),
        punct('>'),
    ];
    let el = parse_element(tokens);

    assert_eq!(el.tag, "div");
    assert_eq!(el.attributes.0.len(), 2);

    // First: Normal id attribute
    assert!(matches!(
        &el.attributes.0[0],
        RSXAttribute::Normal { name, .. } if name == "id"
    ));

    // Second: Spread
    assert!(matches!(
        &el.attributes.0[1],
        RSXAttribute::Spread { ident, .. } if ident == "extra"
    ));
}
