//! The source relation of the parser: which tokens each parse result
//! consumed.
//!
//! A *cover* is the witness of one parse: for every piece of the result it
//! records how many tokens that piece spans, so every boundary of the
//! derivation is determined.  The `*_covered` checkers walk result and cover
//! together over the token sequence; the public `*_sourced` relations
//! existentially close over the cover.
//!
//! `doc_sourced(v, i, j, d)` then says the segments of `d`, in order, cover
//! exactly the region `i..j` of `v`: a literal run is the very tokens of its
//! sub-region (and holds no group token), a nested group covers one group
//! token whose interior the inner document covers in turn, and an embedded
//! node covers the region its construct was parsed from — opening tag,
//! attribute region with each value document covering its brace interior,
//! then either `/>` or the parsed children followed by a closing tag equal
//! to the opening one.  Every parser ensures this relation for its result,
//! so a successful parse loses, duplicates, reorders and fabricates
//! nothing: in particular the synthetic `children` entry holds exactly the
//! nodes parsed from the region between the opening and closing tags.

use vstd::prelude::*;

use crate::attributes::normal_attr_shape;
use crate::attributes::spread_attr_of;
use crate::attributes::spread_shape;
use crate::attributes::SpecAttr;
use crate::component::SpecComponent;
use crate::cursor::at_punct;
use crate::node::is_element_tag;
use crate::node::SpecNode;
use crate::raw_expr::SpecSeg;
use crate::tokens::Delimiter;
use crate::tokens::SpecToken;

verus! {

/// The cover of one segment: a literal run's token count, an embedded
/// node's cover, or a nested group's interior covers.
pub enum SegCover {
    Run { ext: int },
    Node { c: NodeCover },
    Group { inner: Seq<SegCover> },
}

/// The cover of one node.  A markup cover records the construct's form and
/// the covers of its attribute values and children.
pub enum NodeCover {
    Lit,
    Raw { inner: Seq<SegCover> },
    Markup { self_closing: bool, attrs: Seq<AttrCover>, kids: Seq<NodeCover> },
}

/// The cover of one attribute: a spread spans one token, a normal attribute
/// three, with the value document's covers for its brace interior.
pub enum AttrCover {
    Spread,
    Normal { inner: Seq<SegCover> },
}

/// How many tokens one attribute spans.
pub open spec fn attr_ext(c: AttrCover) -> int {
    match c {
        AttrCover::Spread => 1,
        AttrCover::Normal { .. } => 3,
    }
}

/// How many tokens an attribute region spans.
pub open spec fn attrs_ext(cs: Seq<AttrCover>) -> int
    decreases cs,
{
    if cs.len() == 0 {
        0
    } else {
        attr_ext(cs[0]) + attrs_ext(cs.drop_first())
    }
}

/// How many tokens one node spans.
pub open spec fn node_ext(c: NodeCover) -> int
    decreases c,
{
    match c {
        NodeCover::Lit => 1,
        NodeCover::Raw { .. } => 1,
        NodeCover::Markup { self_closing, attrs, kids } => 2 + attrs_ext(attrs) + (
        if self_closing {
            2
        } else {
            1 + kids_ext(kids) + 4
        }),
    }
}

/// How many tokens a children region spans.
pub open spec fn kids_ext(cs: Seq<NodeCover>) -> int
    decreases cs,
{
    if cs.len() == 0 {
        0
    } else {
        node_ext(cs[0]) + kids_ext(cs.drop_first())
    }
}

/// How many tokens one segment spans.
pub open spec fn seg_ext(c: SegCover) -> int
    decreases c,
{
    match c {
        SegCover::Run { ext } => ext,
        SegCover::Node { c } => node_ext(c),
        SegCover::Group { .. } => 1,
    }
}

/// How many tokens a document spans.
pub open spec fn docs_ext(cs: Seq<SegCover>) -> int
    decreases cs,
{
    if cs.len() == 0 {
        0
    } else {
        seg_ext(cs[0]) + docs_ext(cs.drop_first())
    }
}

/// One attribute, parsed from position `i` with cover `c`.
pub open spec fn attr_covered(v: Seq<SpecToken>, i: int, a: SpecAttr, c: AttrCover) -> bool
    decreases v, c, 0int,
{
    match (a, c) {
        (SpecAttr::Spread { .. }, AttrCover::Spread) => spread_shape(v, i) && a == spread_attr_of(
            v,
            i,
        ),
        (SpecAttr::Normal { name, name_pos, value }, AttrCover::Normal { inner }) => {
            &&& normal_attr_shape(v, i)
            &&& name == v[i]->Ident_name
            &&& name_pos == v[i]->Ident_pos
            &&& docs_ext(inner) == v[i + 2]->Group_tokens.len()
            &&& doc_covered(v[i + 2]->Group_tokens, 0, value, inner)
        },
        _ => false,
    }
}

/// The attribute region from `i`, parsed in order to `attrs`.
pub open spec fn attrs_covered(
    v: Seq<SpecToken>,
    i: int,
    attrs: Seq<SpecAttr>,
    cs: Seq<AttrCover>,
) -> bool
    decreases v, cs, 0int,
{
    &&& attrs.len() == cs.len()
    &&& (attrs.len() == 0 || (attr_covered(v, i, attrs[0], cs[0]) && attrs_covered(
        v,
        i + attr_ext(cs[0]),
        attrs.drop_first(),
        cs.drop_first(),
    )))
}

/// The markup construct at `i`: `<` and the tag identifier, the attribute
/// region, then either `/>` (self-closing, no children) or `>`, the parsed
/// children, and `< / tag >` with the closing identifier equal to the
/// opening tag.  A non-empty child list appears as exactly one synthetic
/// `children` entry appended after the source attributes, holding exactly
/// the parsed children.
pub open spec fn markup_covered(
    v: Seq<SpecToken>,
    i: int,
    tag: Seq<char>,
    tag_pos: u32,
    attrs: Seq<SpecAttr>,
    c: NodeCover,
) -> bool
    decreases v, c, 0int,
{
    match c {
        NodeCover::Markup { self_closing, attrs: ac, kids: kc } => {
            let ja = i + 2 + attrs_ext(ac);
            &&& 0 <= i
            &&& at_punct(v, i, '<')
            &&& i + 1 < v.len() && v[i + 1] == SpecToken::Ident { name: tag, pos: tag_pos }
            &&& if self_closing {
                &&& kc.len() == 0
                &&& attrs_covered(v, i + 2, attrs, ac)
                &&& at_punct(v, ja, '/')
                &&& at_punct(v, ja + 1, '>')
            } else {
                let ce = ja + 1 + kids_ext(kc);
                &&& at_punct(v, ja, '>')
                &&& at_punct(v, ce, '<')
                &&& at_punct(v, ce + 1, '/')
                &&& ce + 2 < v.len() && (v[ce + 2] matches SpecToken::Ident { .. })
                &&& v[ce + 2]->Ident_name == tag
                &&& at_punct(v, ce + 3, '>')
                &&& if kc.len() == 0 {
                    attrs_covered(v, i + 2, attrs, ac)
                } else {
                    &&& attrs.len() == ac.len() + 1
                    &&& attrs_covered(v, i + 2, attrs.drop_last(), ac)
                    &&& (attrs.last() matches SpecAttr::Normal { .. })
                    &&& attrs.last()->Normal_name == "children"@
                    &&& attrs.last()->Normal_name_pos == 0
                    &&& children_covered(v, ja + 1, attrs.last()->Normal_value, kc)
                }
            }
        },
        _ => false,
    }
}

/// The node at `i`: a string literal, a brace block whose body covers the
/// interior, or a markup construct (an element's tag classifies
/// lowercase-first, a component's does not, a component's variant matches
/// its terminator, and a matched component records its own opening tag as
/// the closing tag).
pub open spec fn node_covered(v: Seq<SpecToken>, i: int, nd: SpecNode, c: NodeCover) -> bool
    decreases v, c, 1int,
{
    match (nd, c) {
        (SpecNode::Text { value, pos }, NodeCover::Lit) => {
            &&& 0 <= i < v.len()
            &&& v[i] == SpecToken::LitStr { value, pos }
        },
        (SpecNode::RawExpr { body, pos }, NodeCover::Raw { inner }) => {
            &&& 0 <= i < v.len()
            &&& (v[i] matches SpecToken::Group { delim: Delimiter::Brace, .. })
            &&& pos == v[i]->Group_pos
            &&& docs_ext(inner) == v[i]->Group_tokens.len()
            &&& doc_covered(v[i]->Group_tokens, 0, body, inner)
        },
        (SpecNode::Element(e), NodeCover::Markup { .. }) => {
            &&& is_element_tag(e.tag)
            &&& markup_covered(v, i, e.tag, e.tag_pos, e.attributes, c)
        },
        (SpecNode::Component(cm), NodeCover::Markup { self_closing, .. }) => {
            &&& !is_element_tag(cm.tag())
            &&& markup_covered(v, i, cm.tag(), cm.tag_pos(), cm.attributes(), c)
            &&& ((cm matches SpecComponent::SelfClosing { .. }) <==> self_closing)
            &&& ((cm matches SpecComponent::Normal { .. }) ==> cm->Normal_closing_tag == cm.tag())
        },
        _ => false,
    }
}

/// The children region from `i`: consecutive embedded nodes, in order.
pub open spec fn children_covered(
    v: Seq<SpecToken>,
    i: int,
    kids: Seq<SpecSeg>,
    cs: Seq<NodeCover>,
) -> bool
    decreases v, cs, 0int,
{
    &&& kids.len() == cs.len()
    &&& (kids.len() == 0 || (match kids[0] {
        SpecSeg::RSX(nd) => node_covered(v, i, nd, cs[0]) && children_covered(
            v,
            i + node_ext(cs[0]),
            kids.drop_first(),
            cs.drop_first(),
        ),
        _ => false,
    }))
}

/// One segment, parsed from position `i` with cover `c`.
pub open spec fn seg_covered(v: Seq<SpecToken>, i: int, s: SpecSeg, c: SegCover) -> bool
    decreases v, c, 2int,
{
    match (s, c) {
        (SpecSeg::Normal(run), SegCover::Run { ext }) => {
            &&& 0 <= i && ext > 0 && i + ext <= v.len()
            &&& ext == run.len()
            &&& run == v.subrange(i, i + ext)
            &&& (forall|p: int|
                i <= p < i + ext ==> !(#[trigger] v[p] matches SpecToken::Group { .. }))
        },
        (SpecSeg::RSX(nd), SegCover::Node { c: nc }) => node_covered(v, i, nd, nc),
        (SpecSeg::Group { delimiter, pos, inner }, SegCover::Group { inner: ic }) => {
            &&& 0 <= i < v.len()
            &&& (v[i] matches SpecToken::Group { .. })
            &&& delimiter == v[i]->Group_delim
            &&& pos == v[i]->Group_pos
            &&& docs_ext(ic) == v[i]->Group_tokens.len()
            &&& doc_covered(v[i]->Group_tokens, 0, inner, ic)
        },
        _ => false,
    }
}

/// The value sub-document from `i`: its segments, in order.
pub open spec fn doc_covered(v: Seq<SpecToken>, i: int, d: Seq<SpecSeg>, cs: Seq<SegCover>) -> bool
    decreases v, cs, 3int,
{
    &&& d.len() == cs.len()
    &&& (d.len() == 0 || (seg_covered(v, i, d[0], cs[0]) && doc_covered(
        v,
        i + seg_ext(cs[0]),
        d.drop_first(),
        cs.drop_first(),
    )))
}

/// One attribute parses exactly from the region `i..j`.
pub open spec fn attr_sourced(v: Seq<SpecToken>, i: int, j: int, a: SpecAttr) -> bool {
    exists|c: AttrCover| #![auto] attr_covered(v, i, a, c) && j == i + attr_ext(c)
}

/// The attribute region `i..j` parses exactly to `attrs`, in encounter
/// order.
pub open spec fn attrs_sourced(v: Seq<SpecToken>, i: int, j: int, attrs: Seq<SpecAttr>) -> bool {
    exists|cs: Seq<AttrCover>| #![auto] attrs_covered(v, i, attrs, cs) && j == i + attrs_ext(cs)
}

/// The markup construct covering `i..j` with the given tag, attribute list
/// and form.
pub open spec fn markup_sourced(
    v: Seq<SpecToken>,
    i: int,
    j: int,
    tag: Seq<char>,
    tag_pos: u32,
    attrs: Seq<SpecAttr>,
    self_closing: bool,
) -> bool {
    exists|c: NodeCover|
        #![auto]
        {
            &&& (c matches NodeCover::Markup { .. })
            &&& c->Markup_self_closing == self_closing
            &&& markup_covered(v, i, tag, tag_pos, attrs, c)
            &&& j == i + node_ext(c)
        }
}

/// The node `nd` parses exactly from the region `i..j`.
pub open spec fn node_sourced(v: Seq<SpecToken>, i: int, j: int, nd: SpecNode) -> bool {
    exists|c: NodeCover| #![auto] node_covered(v, i, nd, c) && j == i + node_ext(c)
}

/// The children region `i..j` parses exactly to `kids`, in order.
pub open spec fn children_sourced(v: Seq<SpecToken>, i: int, j: int, kids: Seq<SpecSeg>) -> bool {
    exists|cs: Seq<NodeCover>| #![auto] children_covered(v, i, kids, cs) && j == i + kids_ext(cs)
}

/// The value sub-document `d` parses exactly from the region `i..j`,
/// segment by segment, in order.
pub open spec fn doc_sourced(v: Seq<SpecToken>, i: int, j: int, d: Seq<SpecSeg>) -> bool {
    exists|cs: Seq<SegCover>| #![auto] doc_covered(v, i, d, cs) && j == i + docs_ext(cs)
}

/// Extending a covered document with one more covered segment.
pub proof fn lemma_doc_covered_snoc(
    v: Seq<SpecToken>,
    i: int,
    d: Seq<SpecSeg>,
    cs: Seq<SegCover>,
    s: SpecSeg,
    c: SegCover,
)
    requires
        doc_covered(v, i, d, cs),
        seg_covered(v, i + docs_ext(cs), s, c),
    ensures
        doc_covered(v, i, d.push(s), cs.push(c)),
        docs_ext(cs.push(c)) == docs_ext(cs) + seg_ext(c),
    decreases d.len(),
{
    if d.len() == 0 {
        assert(d.push(s)[0] == s);
        assert(cs.push(c)[0] == c);
        assert(d.push(s).drop_first() =~= Seq::<SpecSeg>::empty());
        assert(cs.push(c).drop_first() =~= Seq::<SegCover>::empty());
        assert(docs_ext(cs) == 0);
        assert(docs_ext(cs.push(c).drop_first()) == 0);
        assert(doc_covered(v, i + seg_ext(c), d.push(s).drop_first(), cs.push(c).drop_first()));
        assert(seg_covered(v, i, d.push(s)[0], cs.push(c)[0]));
    } else {
        lemma_doc_covered_snoc(v, i + seg_ext(cs[0]), d.drop_first(), cs.drop_first(), s, c);
        assert(d.push(s)[0] == d[0]);
        assert(cs.push(c)[0] == cs[0]);
        assert(d.push(s).drop_first() =~= d.drop_first().push(s));
        assert(cs.push(c).drop_first() =~= cs.drop_first().push(c));
        assert(doc_covered(
            v,
            i + seg_ext(cs.push(c)[0]),
            d.push(s).drop_first(),
            cs.push(c).drop_first(),
        ));
        assert(seg_covered(v, i, d.push(s)[0], cs.push(c)[0]));
    }
}

/// Extending a covered attribute region with one more covered attribute.
pub proof fn lemma_attrs_covered_snoc(
    v: Seq<SpecToken>,
    i: int,
    attrs: Seq<SpecAttr>,
    cs: Seq<AttrCover>,
    a: SpecAttr,
    c: AttrCover,
)
    requires
        attrs_covered(v, i, attrs, cs),
        attr_covered(v, i + attrs_ext(cs), a, c),
    ensures
        attrs_covered(v, i, attrs.push(a), cs.push(c)),
        attrs_ext(cs.push(c)) == attrs_ext(cs) + attr_ext(c),
    decreases attrs.len(),
{
    if attrs.len() == 0 {
        assert(attrs.push(a)[0] == a);
        assert(cs.push(c)[0] == c);
        assert(attrs.push(a).drop_first() =~= Seq::<SpecAttr>::empty());
        assert(cs.push(c).drop_first() =~= Seq::<AttrCover>::empty());
        assert(attrs_ext(cs) == 0);
        assert(attrs_ext(cs.push(c).drop_first()) == 0);
        assert(attrs_covered(
            v,
            i + attr_ext(c),
            attrs.push(a).drop_first(),
            cs.push(c).drop_first(),
        ));
        assert(attr_covered(v, i, attrs.push(a)[0], cs.push(c)[0]));
    } else {
        lemma_attrs_covered_snoc(
            v,
            i + attr_ext(cs[0]),
            attrs.drop_first(),
            cs.drop_first(),
            a,
            c,
        );
        assert(attrs.push(a)[0] == attrs[0]);
        assert(cs.push(c)[0] == cs[0]);
        assert(attrs.push(a).drop_first() =~= attrs.drop_first().push(a));
        assert(cs.push(c).drop_first() =~= cs.drop_first().push(c));
        assert(attrs_covered(
            v,
            i + attr_ext(cs.push(c)[0]),
            attrs.push(a).drop_first(),
            cs.push(c).drop_first(),
        ));
        assert(attr_covered(v, i, attrs.push(a)[0], cs.push(c)[0]));
    }
}

/// Extending a covered children region with one more covered child.
pub proof fn lemma_children_covered_snoc(
    v: Seq<SpecToken>,
    i: int,
    kids: Seq<SpecSeg>,
    cs: Seq<NodeCover>,
    nd: SpecNode,
    c: NodeCover,
)
    requires
        children_covered(v, i, kids, cs),
        node_covered(v, i + kids_ext(cs), nd, c),
    ensures
        children_covered(v, i, kids.push(SpecSeg::RSX(nd)), cs.push(c)),
        kids_ext(cs.push(c)) == kids_ext(cs) + node_ext(c),
    decreases kids.len(),
{
    let knew = kids.push(SpecSeg::RSX(nd));
    if kids.len() == 0 {
        assert(knew[0] == SpecSeg::RSX(nd));
        assert(cs.push(c)[0] == c);
        assert(knew.drop_first() =~= Seq::<SpecSeg>::empty());
        assert(cs.push(c).drop_first() =~= Seq::<NodeCover>::empty());
        assert(kids_ext(cs) == 0);
        assert(kids_ext(cs.push(c).drop_first()) == 0);
        assert(children_covered(v, i + node_ext(c), knew.drop_first(), cs.push(c).drop_first()));
        assert(node_covered(v, i, nd, cs.push(c)[0]));
    } else {
        lemma_children_covered_snoc(
            v,
            i + node_ext(cs[0]),
            kids.drop_first(),
            cs.drop_first(),
            nd,
            c,
        );
        assert(knew[0] == kids[0]);
        assert(cs.push(c)[0] == cs[0]);
        assert(knew.drop_first() =~= kids.drop_first().push(SpecSeg::RSX(nd)));
        assert(cs.push(c).drop_first() =~= cs.drop_first().push(c));
        assert(children_covered(
            v,
            i + node_ext(cs.push(c)[0]),
            knew.drop_first(),
            cs.push(c).drop_first(),
        ));
    }
}

} // verus!
