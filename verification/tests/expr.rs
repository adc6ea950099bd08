use recrust_ast::Delimiter;
use recrust_ast::ExprNode;
use recrust_ast::Node;
use recrust_ast::PartialExpr;
use recrust_ast::RSXAttribute;
use recrust_ast::RSXElement;
use recrust_ast::TokenTree;

fn ident(s: &str) -> TokenTree {
    TokenTree::Ident { name: s.to_string(), pos: 0 }
}

fn punct(c: char) -> TokenTree {
    TokenTree::Punct { ch: c, joint: false, pos: 0 }
}

fn lit(s: &str) -> TokenTree {
    TokenTree::Literal { repr: s.to_string(), pos: 0 }
}

fn braces(tokens: Vec<TokenTree>) -> TokenTree {
    TokenTree::Group { delim: Delimiter::Brace, pos: 0, tokens }
}

fn brackets(tokens: Vec<TokenTree>) -> TokenTree {
    TokenTree::Group { delim: Delimiter::Bracket, pos: 0, tokens }
}

fn parse_element(tokens: Vec<TokenTree>) -> RSXElement {
    let (node, _) = Node::parse(&tokens, 0).expect("failed to parse Node");
    match node {
        Node::Element(el) => el,
        other => panic!("expected Element, got {:?}", other),
    }
}

fn prop_tokens<'a>(el: &'a RSXElement, name: &str) -> &'a ExprNode {
    for attr in el.attributes.0.iter() {
        if let RSXAttribute::Normal { name: n, value, .. } = attr {
            if n == name {
                return value;
            }
        }
    }
    panic!("missing prop `{name}`");
}

/// How often an identifier with this name occurs in the tokens, at any
/// group depth.
fn count_ident(tokens: &[TokenTree], name: &str) -> usize {
    let mut count = 0;
    for t in tokens {
        match t {
            TokenTree::Ident { name: n, .. } if n == name => count += 1,
            TokenTree::Group { tokens: inner, .. } => count += count_ident(inner, name),
            _ => {}
        }
    }
    count
}

#[test]
fn plain_rust_tokens() {
    // <div value={1 + 2 * 3} />
    let el = parse_element(vec![
        punct('<'),
        ident("div"),
        ident("value"),
        punct('='),
        braces(vec![lit("1"), punct('+'), lit("2"), punct('*'), lit("3")]),
        punct('/'),
        punct('>'),
    ]);

    assert_eq!(
        prop_tokens(&el, "value").0,
        vec![PartialExpr::Normal(vec![
            lit("1"),
            punct('+'),
            lit("2"),
            punct('*'),
            lit("3"),
        ])]
    );
}

#[test]
fn direct_rsx() {
    // <div slot={<span />} />
    let el = parse_element(vec![
        punct('<'),
        ident("div"),
        ident("slot"),
        punct('='),
        braces(vec![punct('<'), ident("span"), punct('/'), punct('>')]),
        punct('/'),
        punct('>'),
    ]);

    let slot = prop_tokens(&el, "slot");
    assert_eq!(slot.0.len(), 1);

    let PartialExpr::RSX(node) = &slot.0[0] else {
        panic!("expected RSX node, got {:?}", slot);
    };

    match node.as_ref() {
        Node::Element(span) => assert_eq!(span.tag, "span"),
        other => panic!("expected `Node::Element(<span/>)`, got {:?}", other),
    }
}

#[test]
fn nested_groups() {
    // <div items={{ vec![<Item />, <Item />] }} />
    let el = parse_element(vec![
        punct('<'),
        ident("div"),
        ident("items"),
        punct('='),
        braces(vec![braces(vec![
            ident("vec"),
            punct('!'),
            brackets(vec![
                punct('<'),
                ident("Item"),
                punct('/'),
                punct('>'),
                punct(','),
                punct('<'),
                ident("Item"),
                punct('/'),
                punct('>'),
            ]),
        ])]),
        punct('/'),
        punct('>'),
    ]);

    // It should rewrite the nested markup inside the `{}` and `[]` groups.
    let items = prop_tokens(&el, "items").to_token_vec();
    assert_eq!(count_ident(&items, "vec"), 1);
    assert_eq!(count_ident(&items, "create_element"), 2);
    assert_eq!(count_ident(&items, "Item"), 2);
}

#[test]
fn simple_braced() {
    // <div>{count}</div>
    let el = parse_element(vec![
        punct('<'),
        ident("div"),
        punct('>'),
        braces(vec![ident("count")]),
        punct('<'),
        punct('/'),
        ident("div"),
        punct('>'),
    ]);

    let children = prop_tokens(&el, "children");
    assert_eq!(children.0.len(), 1);

    let PartialExpr::RSX(node) = &children.0[0] else {
        panic!("expected child node, got {:?}", children);
    };

    match node.as_ref() {
        Node::RawExpr { body, .. } => {
            assert_eq!(body.0, vec![PartialExpr::Normal(vec![ident("count")])]);
        }
        other => panic!("expected `Node::RawExpr`, got {:?}", other),
    }
}
