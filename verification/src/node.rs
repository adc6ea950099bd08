//! A markup node: the classified result of parsing one construct at a node
//! position.  A `<`-led construct is an element or a component according to
//! the first character of its tag; a brace block is a raw expression whose
//! body is recursively rewritten; a string literal is a text node.

use vstd::prelude::*;
use vstd::string::StrSliceExecFns;

use crate::attributes::SpecAttr;
use crate::component::comp_view;
use crate::component::RSXComponent;
use crate::component::SpecComponent;
use crate::cursor::at_brace_group;
use crate::cursor::at_ident;
use crate::cursor::at_punct;
use crate::cursor::peek_ident;
use crate::cursor::position_at;
use crate::element::elem_view;
use crate::element::RSXElement;
use crate::element::SpecElement;
use crate::emit::push_tok;
use crate::emit::spec_node_tokens;
use crate::error::ParseError;
use crate::raw_expr::doc_view;
use crate::raw_expr::ExprNode;
use crate::raw_expr::SpecSeg;
use crate::tag::empty_pair_shape;
use crate::tag::mismatch_shape;
use crate::tag::one_child_shape;
use crate::tag::self_close_shape;
use crate::tokens::spec_pos;
use crate::tokens::toks_harmless_lt;
use crate::tokens::toks_view;
use crate::tokens::Delimiter;
use crate::tokens::SpecToken;
use crate::tokens::TokenTree;

verus! {

/// One markup node.
#[derive(Debug, PartialEq)]
pub enum Node {
    /// `<tag ...>` with a lowercase-first tag.
    Element(RSXElement),
    /// `<Tag ...>` with a tag that does not start lowercase.
    Component(RSXComponent),
    /// A string literal child; `value` is its decoded text.
    Text { value: String, pos: u32 },
    /// A `{ ... }` block at node position; its body is a rewritten value
    /// sub-document, re-emitted inside the original braces.
    RawExpr { body: ExprNode, pos: u32 },
}

/// The mathematical image of a node.
pub enum SpecNode {
    Element(SpecElement),
    Component(SpecComponent),
    Text { value: Seq<char>, pos: u32 },
    RawExpr { body: Seq<SpecSeg>, pos: u32 },
}

/// The image of a node.
pub open spec fn node_view(n: Node) -> SpecNode
    decreases n,
{
    match n {
        Node::Element(e) => SpecNode::Element(elem_view(e)),
        Node::Component(c) => SpecNode::Component(comp_view(c)),
        Node::Text { value, pos } => SpecNode::Text { value: value@, pos },
        Node::RawExpr { body, pos } => SpecNode::RawExpr { body: doc_view(body), pos },
    }
}

impl View for Node {
    type V = SpecNode;

    open spec fn view(&self) -> SpecNode {
        node_view(*self)
    }
}

/// A tag classifies as an element exactly when its first character is a
/// lowercase ASCII letter.  An empty tag has no such character and therefore
/// classifies as a component.
pub open spec fn is_element_tag(tag: Seq<char>) -> bool {
    tag.len() > 0 && 'a' <= tag[0] && tag[0] <= 'z'
}

/// A well-formed attribute: its value document, if any, is well-formed.
pub open spec fn wf_attr(a: SpecAttr) -> bool
    decreases a, 0int,
{
    match a {
        SpecAttr::Normal { value, .. } => wf_doc(value),
        SpecAttr::Spread { .. } => true,
    }
}

/// A well-formed attribute list: every entry is well-formed.
pub open spec fn wf_attrs(s: Seq<SpecAttr>) -> bool
    decreases s, 1int,
{
    forall|i: int| 0 <= i < s.len() ==> wf_attr(#[trigger] s[i])
}

/// A well-formed node: elements carry lowercase-first tags, components do
/// not, a matched component pair closes with its own opening tag, and every
/// nested document is well-formed in turn.
pub open spec fn wf_node(n: SpecNode) -> bool
    decreases n, 2int,
{
    match n {
        SpecNode::Element(e) => is_element_tag(e.tag) && wf_attrs(e.attributes),
        SpecNode::Component(c) => {
            &&& !is_element_tag(c.tag())
            &&& wf_attrs(c.attributes())
            &&& (c matches SpecComponent::Normal { opening_tag, closing_tag, .. }
                ==> closing_tag == opening_tag)
        },
        SpecNode::Text { .. } => true,
        SpecNode::RawExpr { body, .. } => wf_doc(body),
    }
}

/// A well-formed segment: an embedded node or nested document is
/// well-formed; a literal run always is.
pub open spec fn wf_seg(s: SpecSeg) -> bool
    decreases s, 3int,
{
    match s {
        SpecSeg::Normal(_) => true,
        SpecSeg::RSX(n) => wf_node(n),
        SpecSeg::Group { inner, .. } => wf_doc(inner),
    }
}

/// A well-formed value sub-document: every segment is well-formed.
pub open spec fn wf_doc(d: Seq<SpecSeg>) -> bool
    decreases d, 4int,
{
    forall|i: int| 0 <= i < d.len() ==> wf_seg(#[trigger] d[i])
}

/// The node that a self-closing, attribute-less construct `<T/>` parses to:
/// an element when the tag starts with a lowercase ASCII letter, else a
/// self-closing component, either way with an empty attribute list.
pub open spec fn self_close_node(v: Seq<SpecToken>, i: int) -> SpecNode {
    if is_element_tag(v[i + 1]->Ident_name) {
        SpecNode::Element(
            SpecElement {
                tag: v[i + 1]->Ident_name,
                tag_pos: v[i + 1]->Ident_pos,
                attributes: Seq::empty(),
            },
        )
    } else {
        SpecNode::Component(
            SpecComponent::SelfClosing {
                tag: v[i + 1]->Ident_name,
                tag_pos: v[i + 1]->Ident_pos,
                attributes: Seq::empty(),
            },
        )
    }
}

/// The node that an attribute-less, child-less matched pair `<T></T>`
/// parses to: no synthetic `children` attribute is added for an empty child
/// list, so the attribute list is empty.
pub open spec fn empty_pair_node(v: Seq<SpecToken>, i: int) -> SpecNode {
    if is_element_tag(v[i + 1]->Ident_name) {
        SpecNode::Element(
            SpecElement {
                tag: v[i + 1]->Ident_name,
                tag_pos: v[i + 1]->Ident_pos,
                attributes: Seq::empty(),
            },
        )
    } else {
        SpecNode::Component(
            SpecComponent::Normal {
                opening_tag: v[i + 1]->Ident_name,
                tag_pos: v[i + 1]->Ident_pos,
                attributes: Seq::empty(),
                closing_tag: v[i + 1]->Ident_name,
            },
        )
    }
}

/// The node that a matched pair holding exactly one self-closing,
/// attribute-less child parses to: the child list is non-empty, so a
/// synthetic `children` attribute is appended, holding the parsed child as
/// the sole embedded segment of its value document.
pub open spec fn one_child_node(v: Seq<SpecToken>, i: int) -> SpecNode {
    let name = v[i + 1]->Ident_name;
    let name_pos = v[i + 1]->Ident_pos;
    let attrs = seq![
        SpecAttr::Normal {
            name: "children"@,
            name_pos: 0,
            value: seq![SpecSeg::RSX(self_close_node(v, i + 3))],
        },
    ];
    if is_element_tag(name) {
        SpecNode::Element(SpecElement { tag: name, tag_pos: name_pos, attributes: attrs })
    } else {
        SpecNode::Component(
            SpecComponent::Normal {
                opening_tag: name,
                tag_pos: name_pos,
                attributes: attrs,
                closing_tag: name,
            },
        )
    }
}

/// Appending a well-formed segment keeps a document well-formed.
pub proof fn lemma_wf_doc_push(d: Seq<SpecSeg>, s: SpecSeg)
    requires
        wf_doc(d),
        wf_seg(s),
    ensures
        wf_doc(d.push(s)),
{
    assert forall|i: int| 0 <= i < d.push(s).len() implies wf_seg(#[trigger] d.push(s)[i]) by {
        if i < d.len() {
            assert(d.push(s)[i] == d[i]);
        } else {
            assert(d.push(s)[i] == s);
        }
    }
}

/// Appending a well-formed attribute keeps a list well-formed.
pub proof fn lemma_wf_attrs_push(s: Seq<SpecAttr>, a: SpecAttr)
    requires
        wf_attrs(s),
        wf_attr(a),
    ensures
        wf_attrs(s.push(a)),
{
    assert forall|i: int| 0 <= i < s.push(a).len() implies wf_attr(#[trigger] s.push(a)[i]) by {
        if i < s.len() {
            assert(s.push(a)[i] == s[i]);
        } else {
            assert(s.push(a)[i] == a);
        }
    }
}

/// Whether a tag identifier classifies as an element, per
/// [`is_element_tag`]: non-empty and starting with a lowercase ASCII letter.
pub fn tag_is_element(name: &String) -> (r: bool)
    ensures
        r == is_element_tag(name@),
{
    let s = name.as_str();
    if s.is_empty() {
        false
    } else {
        let c = s.get_char(0);
        'a' <= c && c <= 'z'
    }
}

impl Node {
    /// Classify and parse the construct at `i`: a `<`-led construct is an
    /// element or a component by its tag's first character, a brace group is
    /// a raw expression with a recursively rewritten body, a string literal
    /// is a text node, and anything else is `UnrecognizedNode`.
    pub fn parse(toks: &Vec<TokenTree>, i: usize) -> (r: Result<(Node, usize), ParseError>)
        ensures
            r matches Ok((nd, j)) ==> i < j <= toks@.len(),
            r matches Ok((nd, j)) ==> wf_node(nd@),
            r matches Ok((nd, j)) ==> crate::grammar::node_sourced(
                toks_view(toks@),
                i as int,
                j as int,
                nd@,
            ),
            r matches Ok((nd, j)) ==> (at_punct(toks_view(toks@), i as int, '<') ==> at_ident(
                toks_view(toks@),
                i as int + 1,
            )),
            r matches Ok((nd, j)) ==> ((at_punct(toks_view(toks@), i as int, '<') && at_ident(
                toks_view(toks@),
                i as int + 1,
            ) && is_element_tag(toks_view(toks@)[i as int + 1]->Ident_name)) ==> (nd@ matches
                SpecNode::Element(e) && e.tag == toks_view(toks@)[i as int + 1]->Ident_name)),
            r matches Ok((nd, j)) ==> ((at_punct(toks_view(toks@), i as int, '<') && at_ident(
                toks_view(toks@),
                i as int + 1,
            ) && !is_element_tag(toks_view(toks@)[i as int + 1]->Ident_name)) ==> (nd@ matches
                SpecNode::Component(c) && c.tag() == toks_view(toks@)[i as int + 1]->Ident_name)),
            r matches Ok((nd, j)) ==> (nd@ matches SpecNode::Element(e)
                ==> crate::tag::tag_parse_general(
                toks_view(toks@),
                i as int,
                j as int,
                e.tag,
                e.attributes,
            )),
            r matches Ok((nd, j)) ==> (nd@ matches SpecNode::Component(c)
                ==> crate::tag::tag_parse_general(
                toks_view(toks@),
                i as int,
                j as int,
                c.tag(),
                c.attributes(),
            )),
            forall|ja: int|
                #[trigger] crate::tag::self_closing_plain(toks_view(toks@), i as int, ja) ==> (
                r matches Ok((nd, j)) && j == ja + 2),
            forall|ja: int|
                #[trigger] crate::tag::opens_then_ends(toks_view(toks@), i as int, ja) ==> (
                r matches Err(ParseError::UnexpectedEndOfChildren { .. })),
            forall|ja: int|
                #[trigger] crate::tag::mismatch_pair_plain(toks_view(toks@), i as int, ja) ==> (
                r matches Err(ParseError::MismatchedClosingTag { expected, pos }) && expected@
                    == toks_view(toks@)[i as int + 1]->Ident_name && pos == spec_pos(
                    toks_view(toks@)[ja + 3],
                )),
            self_close_shape(toks_view(toks@), i as int) ==> (r matches Ok((nd, j)) && j == i + 4
                && nd@ == self_close_node(toks_view(toks@), i as int)),
            empty_pair_shape(toks_view(toks@), i as int) ==> (r matches Ok((nd, j)) && j == i + 7
                && nd@ == empty_pair_node(toks_view(toks@), i as int)),
            one_child_shape(toks_view(toks@), i as int) ==> (r matches Ok((nd, j)) && j == i + 11
                && nd@ == one_child_node(toks_view(toks@), i as int)),
            mismatch_shape(toks_view(toks@), i as int) ==> (r matches Err(
                ParseError::MismatchedClosingTag { expected, pos },
            ) && expected@ == toks_view(toks@)[i as int + 1]->Ident_name && pos == spec_pos(
                toks_view(toks@)[i as int + 5],
            )),
            (at_brace_group(toks_view(toks@), i as int) && toks_harmless_lt(
                toks_view(toks@)[i as int]->Group_tokens,
            )) ==> r matches Ok(p),
            r matches Ok((nd, j)) ==> (at_brace_group(toks_view(toks@), i as int) ==> (j == i + 1
                && (nd@ matches SpecNode::RawExpr { .. }) && nd@->RawExpr_pos == spec_pos(
                toks_view(toks@)[i as int],
            ) && (toks_harmless_lt(toks_view(toks@)[i as int]->Group_tokens)
                ==> crate::emit::spec_doc_tokens(nd@->RawExpr_body) == toks_view(
                toks@,
            )[i as int]->Group_tokens))),
            (i < toks@.len() && toks_view(toks@)[i as int] matches SpecToken::LitStr { .. }) ==> (
            r matches Ok((nd, j)) && j == i + 1 && nd@ == SpecNode::Text {
                value: toks_view(toks@)[i as int]->LitStr_value,
                pos: toks_view(toks@)[i as int]->LitStr_pos,
            }),
            (i >= toks@.len() || (!(toks_view(toks@)[i as int] matches SpecToken::Punct {
                ch: '<',
                ..
            }) && !at_brace_group(toks_view(toks@), i as int) && !(toks_view(toks@)[i as int]
                matches SpecToken::LitStr { .. }))) ==> (r matches Err(
                ParseError::UnrecognizedNode { .. },
            )),
            (at_punct(toks_view(toks@), i as int, '<') && !at_ident(toks_view(toks@), i as int + 1))
                ==> (r matches Err(ParseError::UnrecognizedNode { .. })),
            (at_punct(toks_view(toks@), i as int, '<') && at_ident(toks_view(toks@), i as int + 1)
                && i + 2 >= toks@.len()) ==> (r matches Err(ParseError::MalformedAttribute { .. })),
        decreases crate::tokens::suffix_size(toks@, i as int), 4int,
    {
        broadcast use crate::tokens::group_token_views;

        let n = toks.len();
        if i >= n {
            return Err(ParseError::UnrecognizedNode { pos: 0 });
        }
        match &toks[i] {
            TokenTree::Punct { ch, .. } => {
                if *ch != '<' {
                    return Err(ParseError::UnrecognizedNode { pos: position_at(toks, i) });
                }
                if !peek_ident(toks, i + 1) {
                    return Err(ParseError::UnrecognizedNode { pos: position_at(toks, i + 1) });
                }
                let is_el = match &toks[i + 1] {
                    TokenTree::Ident { name, .. } => tag_is_element(name),
                    _ => vstd::pervasive::unreached(),
                };
                if is_el {
                    match RSXElement::parse(toks, i) {
                        Ok((el, j)) => {
                            proof {
                                let v = toks_view(toks@);
                                let nd = node_view(Node::Element(el));
                                let c = choose|c: crate::grammar::NodeCover|
                                    (c matches crate::grammar::NodeCover::Markup { .. })
                                        && crate::grammar::markup_covered(
                                        v,
                                        i as int,
                                        el.tag@,
                                        el.tag_pos,
                                        el@.attributes,
                                        c,
                                    ) && j as int == i as int + crate::grammar::node_ext(c);
                                assert(crate::grammar::node_covered(v, i as int, nd, c));
                                assert(crate::grammar::node_sourced(v, i as int, j as int, nd));
                            }
                            Ok((Node::Element(el), j))
                        },
                        Err(e) => Err(e),
                    }
                } else {
                    match RSXComponent::parse(toks, i) {
                        Ok((c, j)) => {
                            proof {
                                let v = toks_view(toks@);
                                let nd = node_view(Node::Component(c));
                                let sc = c matches RSXComponent::SelfClosing { .. };
                                let nc = choose|nc: crate::grammar::NodeCover|
                                    (nc matches crate::grammar::NodeCover::Markup { .. })
                                        && nc->Markup_self_closing == sc
                                        && crate::grammar::markup_covered(
                                        v,
                                        i as int,
                                        c@.tag(),
                                        c@.tag_pos(),
                                        c@.attributes(),
                                        nc,
                                    ) && j as int == i as int + crate::grammar::node_ext(nc);
                                assert(crate::grammar::node_covered(v, i as int, nd, nc));
                                assert(crate::grammar::node_sourced(v, i as int, j as int, nd));
                            }
                            Ok((Node::Component(c), j))
                        },
                        Err(e) => Err(e),
                    }
                }
            },
            TokenTree::Group { delim: Delimiter::Brace, pos, tokens: inner } => {
                proof {
                    crate::tokens::lemma_group_interior_size(toks@, i as int);
                }
                match crate::raw_expr::rewrite_rsx(inner) {
                    Ok(body) => {
                        let nd = Node::RawExpr { body, pos: *pos };
                        proof {
                            let v = toks_view(toks@);
                            let iv = v[i as int]->Group_tokens;
                            let ics = choose|cs: Seq<crate::grammar::SegCover>|
                                crate::grammar::doc_covered(iv, 0, nd@->RawExpr_body, cs)
                                    && iv.len() as int == 0 + crate::grammar::docs_ext(cs);
                            assert(crate::grammar::node_covered(
                                v,
                                i as int,
                                nd@,
                                crate::grammar::NodeCover::Raw { inner: ics },
                            ));
                            assert(crate::grammar::node_sourced(v, i as int, i as int + 1, nd@));
                        }
                        Ok((nd, i + 1))
                    },
                    Err(e) => Err(e),
                }
            },
            TokenTree::LitStr { value, pos } => {
                let nd = Node::Text { value: value.clone(), pos: *pos };
                proof {
                    let v = toks_view(toks@);
                    assert(v[i as int] == SpecToken::LitStr { value: value@, pos: *pos });
                    assert(crate::grammar::node_covered(
                        v,
                        i as int,
                        nd@,
                        crate::grammar::NodeCover::Lit,
                    ));
                    assert(crate::grammar::node_sourced(v, i as int, i as int + 1, nd@));
                }
                Ok((nd, i + 1))
            },
            _ => Err(ParseError::UnrecognizedNode { pos: position_at(toks, i) }),
        }
    }

    /// Append this node's emission, per [`spec_node_tokens`]: a constructor
    /// call for an element or component, the literal itself for a text node,
    /// the rewritten body in its original braces for a raw expression.
    pub fn to_tokens(&self, out: &mut Vec<TokenTree>)
        ensures
            toks_view(final(out)@) =~= toks_view(old(out)@) + spec_node_tokens(self@),
        decreases *self, 0int,
    {
        match self {
            Node::Element(e) => {
                e.to_tokens(out);
            },
            Node::Component(c) => {
                c.to_tokens(out);
            },
            Node::Text { value, pos } => {
                push_tok(out, TokenTree::LitStr { value: value.clone(), pos: *pos });
            },
            Node::RawExpr { body, pos } => {
                let mut g: Vec<TokenTree> = Vec::new();
                body.to_tokens(&mut g);
                push_tok(
                    out,
                    TokenTree::Group { delim: Delimiter::Brace, pos: *pos, tokens: g },
                );
            },
        }
    }

    /// This node's emission as a fresh token sequence.
    pub fn to_token_vec(&self) -> (r: Vec<TokenTree>)
        ensures
            toks_view(r@) =~= spec_node_tokens(self@),
    {
        let mut out: Vec<TokenTree> = Vec::new();
        self.to_tokens(&mut out);
        out
    }
}

/// Rewrite a whole token stream: parse it as a value sub-document, then
/// emit it, so that every markup construct becomes its constructor call and
/// every other token passes through unchanged and in order.
///
/// The round-trip guarantee: a stream with no `<` at any depth comes back
/// token-for-token identical.
pub fn rewrite_stream(toks: &Vec<TokenTree>) -> (r: Result<Vec<TokenTree>, ParseError>)
    ensures
        crate::tokens::toks_harmless_lt(toks_view(toks@)) ==> (r matches Ok(out) && toks_view(
            out@,
        ) =~= toks_view(toks@)),
        (toks@.len() == 4 && self_close_shape(toks_view(toks@), 0)) ==> (r matches Ok(out)
            && toks_view(out@) =~= spec_node_tokens(self_close_node(toks_view(toks@), 0))),
        r matches Ok(out) ==> (exists|d: Seq<SpecSeg>|
            #![auto]
            {
                &&& crate::grammar::doc_sourced(toks_view(toks@), 0, toks@.len() as int, d)
                &&& wf_doc(d)
                &&& crate::raw_expr::doc_tidy(d)
                &&& toks_view(out@) =~= crate::emit::spec_doc_tokens(d)
            }),
        r matches Err(e) ==> !crate::error::spec_recoverable(e),
{
    match crate::raw_expr::rewrite_rsx(toks) {
        Ok(d) => {
            proof {
                if toks@.len() == 4 && self_close_shape(toks_view(toks@), 0) {
                    let n = self_close_node(toks_view(toks@), 0);
                    assert(doc_view(d) =~= seq![crate::raw_expr::SpecSeg::RSX(n)]);
                    assert(seq![crate::raw_expr::SpecSeg::RSX(n)].drop_first().len() == 0);
                    assert(crate::emit::spec_doc_tokens(doc_view(d)) =~= crate::emit::spec_seg_tokens(
                        crate::raw_expr::SpecSeg::RSX(n),
                    ) + crate::emit::spec_doc_tokens(seq![crate::raw_expr::SpecSeg::RSX(n)].drop_first()));
                    assert(crate::emit::spec_doc_tokens(doc_view(d)) =~= spec_node_tokens(n));
                }
            }
            Ok(d.to_token_vec())
        },
        Err(e) => Err(e),
    }
}

} // verus!
