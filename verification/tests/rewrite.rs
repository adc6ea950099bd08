use recrust_ast::next_token;
use recrust_ast::rewrite_stream;
use recrust_ast::Delimiter;
use recrust_ast::Node;
use recrust_ast::ParseError;
use recrust_ast::RSXAttribute;
use recrust_ast::RSXComponent;
use recrust_ast::TokenTree;

fn ident(s: &str) -> TokenTree {
    TokenTree::Ident { name: s.to_string(), pos: 0 }
}

fn ident_at(s: &str, pos: u32) -> TokenTree {
    TokenTree::Ident { name: s.to_string(), pos }
}

fn punct(c: char) -> TokenTree {
    TokenTree::Punct { ch: c, joint: false, pos: 0 }
}

fn lit(s: &str) -> TokenTree {
    TokenTree::Literal { repr: s.to_string(), pos: 0 }
}

fn litstr(s: &str) -> TokenTree {
    TokenTree::LitStr { value: s.to_string(), pos: 0 }
}

fn group(delim: Delimiter, tokens: Vec<TokenTree>) -> TokenTree {
    TokenTree::Group { delim, pos: 0, tokens }
}

fn braces(tokens: Vec<TokenTree>) -> TokenTree {
    group(Delimiter::Brace, tokens)
}

fn clone_all(tokens: &[TokenTree]) -> Vec<TokenTree> {
    tokens.iter().map(|t| t.clone_tree()).collect()
}

#[test]
fn round_trip_plain_tokens() {
    // 1 + 2 * 3 passes through token-for-token, groups included
    let input = vec![
        lit("1"),
        punct('+'),
        lit("2"),
        punct('*'),
        lit("3"),
        group(Delimiter::Parenthesis, vec![ident("f"), punct(','), litstr("x")]),
    ];
    let out = rewrite_stream(&clone_all(&input)).expect("markup-free input must rewrite");
    assert_eq!(out, input);
}

#[test]
fn less_than_falls_back() {
    // a < b is not an element attempt: the speculative parse fails and the
    // `<` stays an ordinary token
    let input = vec![ident("a"), punct('<'), ident("b")];
    let out = rewrite_stream(&clone_all(&input)).expect("comparison must rewrite");
    assert_eq!(out, input);
}

#[test]
fn less_than_before_block_falls_back() {
    // if a < b { c } keeps its shape
    let input = vec![
        ident("if"),
        ident("a"),
        punct('<'),
        ident("b"),
        braces(vec![ident("c")]),
    ];
    let out = rewrite_stream(&clone_all(&input)).expect("comparison must rewrite");
    assert_eq!(out, input);
}

#[test]
fn tag_case_dispatch() {
    // <div/> is an Element; <Item/> is a Component
    let lower = vec![punct('<'), ident("div"), punct('/'), punct('>')];
    let (node, used) = Node::parse(&lower, 0).expect("element must parse");
    assert_eq!(used, 4);
    assert!(matches!(node, Node::Element(_)));

    let upper = vec![punct('<'), ident("Item"), punct('/'), punct('>')];
    let (node, used) = Node::parse(&upper, 0).expect("component must parse");
    assert_eq!(used, 4);
    match node {
        Node::Component(RSXComponent::SelfClosing { tag, attributes, .. }) => {
            assert_eq!(tag, "Item");
            assert_eq!(attributes.0.len(), 0);
        }
        other => panic!("expected self-closing component, got {:?}", other),
    }
}

#[test]
fn mismatched_close_fails() {
    // <div></span> fails, names the expected tag, and points at the
    // closing identifier
    let tokens = vec![
        punct('<'),
        ident("div"),
        punct('>'),
        punct('<'),
        punct('/'),
        ident_at("span", 7),
        punct('>'),
    ];
    match Node::parse(&tokens, 0) {
        Err(ParseError::MismatchedClosingTag { expected, pos }) => {
            assert_eq!(expected, "div");
            assert_eq!(pos, 7);
        }
        other => panic!("expected MismatchedClosingTag, got {:?}", other),
    }
}

#[test]
fn attribute_order_preserved() {
    // <div id={1} {..extra} class={2} /> yields
    // [Normal(id), Spread(extra), Normal(class)]
    let tokens = vec![
        punct('<'),
        ident("div"),
        ident("id"),
        punct('='),
        braces(vec![lit("1")]),
        braces(vec![punct('.'), punct('.'), ident("extra")]),
        ident("class"),
        punct('='),
        braces(vec![lit("2")]),
        punct('/'),
        punct('>'),
    ];
    let (node, _) = Node::parse(&tokens, 0).expect("element must parse");
    let Node::Element(el) = node else {
        panic!("expected Element");
    };
    assert_eq!(el.attributes.0.len(), 3);
    assert!(matches!(&el.attributes.0[0], RSXAttribute::Normal { name, .. } if name == "id"));
    assert!(matches!(&el.attributes.0[1], RSXAttribute::Spread { ident, .. } if ident == "extra"));
    assert!(matches!(&el.attributes.0[2], RSXAttribute::Normal { name, .. } if name == "class"));
}

#[test]
fn rewrite_idempotent_on_rewritten_output() {
    // once every markup construct is rewritten, rewriting again is a no-op
    let input = vec![
        ident("let"),
        ident("x"),
        punct('='),
        punct('<'),
        ident("div"),
        punct('/'),
        punct('>'),
        punct(';'),
    ];
    let once = rewrite_stream(&input).expect("markup must rewrite");
    let twice = rewrite_stream(&once).expect("rewritten output must rewrite");
    assert_eq!(twice, once);
}

#[test]
fn rewrite_idempotent_on_fallback_output() {
    // output whose literal runs still hold `<` is also left unchanged
    let input = vec![ident("a"), punct('<'), ident("b"), punct('*'), lit("2")];
    let once = rewrite_stream(&input).expect("comparison must rewrite");
    let twice = rewrite_stream(&once).expect("rewritten output must rewrite");
    assert_eq!(twice, once);
}

#[test]
fn emit_element_exact() {
    // <div id={1}/> emits exactly
    // create_element(div, { let mut __attrs = Vec::new();
    //                       __attrs.push(("id", 1)); __attrs })
    let tokens = vec![
        punct('<'),
        ident_at("div", 3),
        ident_at("id", 5),
        punct('='),
        braces(vec![lit("1")]),
        punct('/'),
        punct('>'),
    ];
    let (node, _) = Node::parse(&tokens, 0).expect("element must parse");
    let out = node.to_token_vec();

    let expected = vec![
        ident("create_element"),
        group(
            Delimiter::Parenthesis,
            vec![
                ident_at("div", 3),
                punct(','),
                braces(vec![
                    ident("let"),
                    ident("mut"),
                    ident("__attrs"),
                    punct('='),
                    ident("Vec"),
                    TokenTree::Punct { ch: ':', joint: true, pos: 0 },
                    punct(':'),
                    ident("new"),
                    group(Delimiter::Parenthesis, vec![]),
                    punct(';'),
                    ident("__attrs"),
                    punct('.'),
                    ident("push"),
                    group(
                        Delimiter::Parenthesis,
                        vec![group(
                            Delimiter::Parenthesis,
                            vec![
                                TokenTree::LitStr { value: "id".to_string(), pos: 5 },
                                punct(','),
                                lit("1"),
                            ],
                        )],
                    ),
                    punct(';'),
                    ident("__attrs"),
                ]),
            ],
        ),
    ];
    assert_eq!(out, expected);
}

#[test]
fn text_node_emits_its_literal() {
    // a text child is emitted as the string literal itself
    let tokens = vec![litstr("Hello")];
    let (node, _) = Node::parse(&tokens, 0).expect("text must parse");
    assert!(matches!(&node, Node::Text { value, .. } if value == "Hello"));
    assert_eq!(node.to_token_vec(), vec![litstr("Hello")]);
}

#[test]
fn unrecognized_node_error() {
    let tokens = vec![punct('@')];
    assert!(matches!(
        Node::parse(&tokens, 0),
        Err(ParseError::UnrecognizedNode { .. })
    ));
}

#[test]
fn unexpected_end_of_children_error() {
    // <div> without a closing tag
    let tokens = vec![punct('<'), ident("div"), punct('>')];
    assert!(matches!(
        Node::parse(&tokens, 0),
        Err(ParseError::UnexpectedEndOfChildren { .. })
    ));
}

#[test]
fn expected_spread_identifier_error() {
    // <div {..} /> has a spread without an identifier
    let tokens = vec![
        punct('<'),
        ident("div"),
        braces(vec![punct('.'), punct('.')]),
        punct('/'),
        punct('>'),
    ];
    assert!(matches!(
        Node::parse(&tokens, 0),
        Err(ParseError::ExpectedSpreadIdentifier { .. })
    ));
}

#[test]
fn malformed_attribute_error() {
    // <div id 1 /> is missing the `=`
    let tokens = vec![
        punct('<'),
        ident("div"),
        ident("id"),
        lit("1"),
        punct('/'),
        punct('>'),
    ];
    assert!(matches!(
        Node::parse(&tokens, 0),
        Err(ParseError::MalformedAttribute { .. })
    ));
}

#[test]
fn unexpected_end_error() {
    let tokens: Vec<TokenTree> = Vec::new();
    assert!(matches!(
        next_token(&tokens, 0),
        Err(ParseError::UnexpectedEnd { .. })
    ));
}

#[test]
fn stream_rewrites_single_element_exact() {
    // <div/> as the whole stream becomes exactly
    // create_element(div, { let mut __attrs = Vec::new(); __attrs })
    let input = vec![punct('<'), ident_at("div", 9), punct('/'), punct('>')];
    let out = rewrite_stream(&input).expect("markup must rewrite");
    let expected = vec![
        ident("create_element"),
        group(
            Delimiter::Parenthesis,
            vec![
                ident_at("div", 9),
                punct(','),
                braces(vec![
                    ident("let"),
                    ident("mut"),
                    ident("__attrs"),
                    punct('='),
                    ident("Vec"),
                    TokenTree::Punct { ch: ':', joint: true, pos: 0 },
                    punct(':'),
                    ident("new"),
                    group(Delimiter::Parenthesis, vec![]),
                    punct(';'),
                    ident("__attrs"),
                ]),
            ],
        ),
    ];
    assert_eq!(out, expected);
}

#[test]
fn component_emits_constructor_call() {
    // <Item x={1}/> emits create_element(Item, {...}) just like an element
    let tokens = vec![
        punct('<'),
        ident("Item"),
        ident("x"),
        punct('='),
        braces(vec![lit("1")]),
        punct('/'),
        punct('>'),
    ];
    let (node, _) = Node::parse(&tokens, 0).expect("component must parse");
    assert!(matches!(&node, Node::Component(_)));
    let out = node.to_token_vec();
    assert!(matches!(&out[0], TokenTree::Ident { name, .. } if name == "create_element"));
    match &out[1] {
        TokenTree::Group { tokens, .. } => {
            assert!(matches!(&tokens[0], TokenTree::Ident { name, .. } if name == "Item"));
        }
        other => panic!("expected argument group, got {:?}", other),
    }
}

#[test]
fn component_pair_with_child() {
    // <Main><Item/></Main>: the matched pair keeps its opening tag as the
    // closing tag and gains exactly one synthetic children attribute
    let tokens = vec![
        punct('<'),
        ident("Main"),
        punct('>'),
        punct('<'),
        ident("Item"),
        punct('/'),
        punct('>'),
        punct('<'),
        punct('/'),
        ident("Main"),
        punct('>'),
    ];
    let (node, used) = Node::parse(&tokens, 0).expect("component pair must parse");
    assert_eq!(used, 11);
    match node {
        Node::Component(RSXComponent::Normal { opening_tag, closing_tag, attributes, .. }) => {
            assert_eq!(opening_tag, "Main");
            assert_eq!(closing_tag, "Main");
            assert_eq!(attributes.0.len(), 1);
            assert!(matches!(
                &attributes.0[0],
                RSXAttribute::Normal { name, .. } if name == "children"
            ));
        }
        other => panic!("expected matched component pair, got {:?}", other),
    }
}

#[test]
fn value_document_parse_round_trips() {
    // a markup-free region parses into a document that emits itself
    let input = vec![
        ident("x"),
        punct('='),
        lit("1"),
        group(Delimiter::Invisible, vec![ident("hidden")]),
    ];
    let doc = recrust_ast::ExprNode::parse(&input).expect("markup-free region must parse");
    assert_eq!(doc.to_token_vec(), input);
}

#[test]
fn nested_group_keeps_delimiter_and_position() {
    // markup inside brackets is rewritten in place, and the brackets keep
    // their position handle
    let input = vec![TokenTree::Group {
        delim: Delimiter::Bracket,
        pos: 11,
        tokens: vec![punct('<'), ident("div"), punct('/'), punct('>')],
    }];
    let out = rewrite_stream(&input).expect("markup must rewrite");
    assert_eq!(out.len(), 1);
    match &out[0] {
        TokenTree::Group { delim, pos, tokens } => {
            assert_eq!(*delim, Delimiter::Bracket);
            assert_eq!(*pos, 11);
            assert!(matches!(&tokens[0], TokenTree::Ident { name, .. } if name == "create_element"));
        }
        other => panic!("expected a bracket group, got {:?}", other),
    }
}
