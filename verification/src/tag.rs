//! The shared parse of one `<tag ...>` construct: opening tag, attribute
//! list, then either `/>` or `>` followed by children and a matching
//! `</tag>`.  Elements and components have the same surface shape; they
//! differ only in how the caller classifies and packages the result.

use vstd::prelude::*;

use crate::attributes::attr_list_forms;
use crate::attributes::attr_list_shape;
use crate::attributes::attr_values_plain;
use crate::attributes::attrs_exit;
use crate::attributes::attrs_match_forms;
use crate::attributes::RSXAttributes;
use crate::attributes::SpecAttr;
use crate::cursor::at_ident;
use crate::cursor::at_punct;
use crate::cursor::peek_ident;
use crate::cursor::peek_punct;
use crate::cursor::position_at;
use crate::error::ParseError;
use crate::node::Node;
use crate::raw_expr::ExprNode;
use crate::raw_expr::PartialExpr;
use crate::raw_expr::SpecSeg;
use crate::tokens::spec_pos;
use crate::tokens::toks_view;
use crate::tokens::SpecToken;
use crate::tokens::TokenTree;

verus! {

/// The raw result of parsing one markup construct, before it is packaged
/// as an element or a component.
pub(crate) struct TagParse {
    pub tag: String,
    pub tag_pos: u32,
    pub attributes: RSXAttributes,
    pub self_closing: bool,
}

/// The four tokens of a self-closing construct without attributes:
/// `< tag / >`.
pub open spec fn self_close_shape(s: Seq<SpecToken>, i: int) -> bool {
    &&& at_punct(s, i, '<')
    &&& at_ident(s, i + 1)
    &&& at_punct(s, i + 2, '/')
    &&& at_punct(s, i + 3, '>')
}

/// The seven tokens of an attribute-less, child-less matched pair:
/// `< tag > < / tag >`.
pub open spec fn empty_pair_shape(s: Seq<SpecToken>, i: int) -> bool {
    &&& at_punct(s, i, '<')
    &&& at_ident(s, i + 1)
    &&& at_punct(s, i + 2, '>')
    &&& at_punct(s, i + 3, '<')
    &&& at_punct(s, i + 4, '/')
    &&& at_ident(s, i + 5)
    &&& at_punct(s, i + 6, '>')
    &&& s[i + 5]->Ident_name == s[i + 1]->Ident_name
}

/// Eleven tokens: a matched pair holding exactly one self-closing,
/// attribute-less child: `< tag > < child / > < / tag >`.
pub open spec fn one_child_shape(s: Seq<SpecToken>, i: int) -> bool {
    &&& at_punct(s, i, '<')
    &&& at_ident(s, i + 1)
    &&& at_punct(s, i + 2, '>')
    &&& self_close_shape(s, i + 3)
    &&& at_punct(s, i + 7, '<')
    &&& at_punct(s, i + 8, '/')
    &&& at_ident(s, i + 9)
    &&& at_punct(s, i + 10, '>')
    &&& s[i + 9]->Ident_name == s[i + 1]->Ident_name
}

/// The seven tokens of an attribute-less, child-less pair whose closing tag
/// differs from its opening tag: `< tag > < / other >`.
pub open spec fn mismatch_shape(s: Seq<SpecToken>, i: int) -> bool {
    &&& at_punct(s, i, '<')
    &&& at_ident(s, i + 1)
    &&& at_punct(s, i + 2, '>')
    &&& at_punct(s, i + 3, '<')
    &&& at_punct(s, i + 4, '/')
    &&& at_ident(s, i + 5)
    &&& at_punct(s, i + 6, '>')
    &&& s[i + 5]->Ident_name != s[i + 1]->Ident_name
}

/// What any successful markup parse guarantees, for every input: the region
/// between the tag and its terminator is a well-shaped attribute list; the
/// returned attributes are exactly that list (kinds, names, positions and
/// encounter order; values pinned whenever their interiors are markup-free),
/// with at most one synthetic `children` entry appended at the very end,
/// present only for a matched pair with at least one child and holding only
/// embedded nodes; a self-closing construct consumes exactly through `/>`;
/// a matched pair ends with `< / tag >` whose identifier equals the opening
/// tag, so no mismatched pair ever parses.
pub open spec fn tag_parse_general(
    v: Seq<SpecToken>,
    i: int,
    j: int,
    tag: Seq<char>,
    attrs: Seq<SpecAttr>,
) -> bool {
    exists|ja: int|
        {
            &&& #[trigger] attr_list_shape(v, i + 2, ja)
            &&& ((
            {
                &&& at_punct(v, ja, '/')
                &&& at_punct(v, ja + 1, '>')
                &&& j == ja + 2
                &&& attrs_match_forms(attrs, attr_list_forms(v, i + 2, ja))
            }) || (
            {
                &&& at_punct(v, ja, '>')
                &&& ja + 1 <= j - 4
                &&& at_punct(v, j - 4, '<')
                &&& at_punct(v, j - 3, '/')
                &&& at_ident(v, j - 2)
                &&& v[j - 2]->Ident_name == tag
                &&& at_punct(v, j - 1, '>')
                &&& (attrs_match_forms(attrs, attr_list_forms(v, i + 2, ja)) || (
                {
                    &&& attrs.len() == attr_list_forms(v, i + 2, ja).len() + 1
                    &&& attrs_match_forms(
                        attrs.take(attrs.len() - 1),
                        attr_list_forms(v, i + 2, ja),
                    )
                    &&& attrs.last() matches SpecAttr::Normal { .. }
                    &&& attrs.last()->Normal_name == "children"@
                    &&& attrs.last()->Normal_name_pos == 0
                    &&& attrs.last()->Normal_value.len() > 0
                    &&& forall|q: int|
                        0 <= q < attrs.last()->Normal_value.len() ==> (#[trigger] attrs.last()->Normal_value[q]
                            matches SpecSeg::RSX(..))
                }))
            }))
        }
}

/// A complete self-closing construct whose attribute values are all
/// markup-free: `< tag attrs... / >` with a well-shaped attribute region.
pub open spec fn self_closing_plain(v: Seq<SpecToken>, i: int, ja: int) -> bool {
    &&& at_punct(v, i, '<')
    &&& at_ident(v, i + 1)
    &&& attr_list_shape(v, i + 2, ja)
    &&& attr_values_plain(v, i + 2, ja)
    &&& at_punct(v, ja, '/')
    &&& at_punct(v, ja + 1, '>')
}

/// A complete, child-less matched pair with markup-free attribute values
/// whose closing identifier differs from its opening tag:
/// `< tag attrs... > < / other >`.
pub open spec fn mismatch_pair_plain(v: Seq<SpecToken>, i: int, ja: int) -> bool {
    &&& at_punct(v, i, '<')
    &&& at_ident(v, i + 1)
    &&& attr_list_shape(v, i + 2, ja)
    &&& attr_values_plain(v, i + 2, ja)
    &&& at_punct(v, ja, '>')
    &&& at_punct(v, ja + 1, '<')
    &&& at_punct(v, ja + 2, '/')
    &&& at_ident(v, ja + 3)
    &&& at_punct(v, ja + 4, '>')
    &&& v[ja + 3]->Ident_name != v[i + 1]->Ident_name
}

/// A complete opening tag, with markup-free attribute values, whose `>` is
/// the last token of the region: children can never be closed.
pub open spec fn opens_then_ends(v: Seq<SpecToken>, i: int, ja: int) -> bool {
    &&& at_punct(v, i, '<')
    &&& at_ident(v, i + 1)
    &&& attr_list_shape(v, i + 2, ja)
    &&& attr_values_plain(v, i + 2, ja)
    &&& at_punct(v, ja, '>')
    &&& ja + 1 == v.len()
}

/// Parse one markup construct at `i`.
///
/// On success the construct started with `<` and an identifier, the
/// returned tag is that identifier, and [`tag_parse_general`] pins the
/// attribute list against its source region.  A well-shaped self-closing
/// construct with markup-free attribute values always parses; a child-less
/// matched pair whose closing identifier differs from its opening one
/// always fails with `MismatchedClosingTag`, naming the opening tag at the
/// closing identifier's position; an opening tag whose `>` ends the region
/// always fails with `UnexpectedEndOfChildren`.
#[verifier::loop_isolation(false)]
pub(crate) fn parse_tag(toks: &Vec<TokenTree>, i: usize) -> (r: Result<
    (TagParse, usize),
    ParseError,
>)
    ensures
        r matches Ok((tp, j)) ==> i < j <= toks@.len(),
        r matches Ok((tp, j)) ==> crate::node::wf_attrs(tp.attributes@),
        r matches Ok((tp, j)) ==> (at_punct(toks_view(toks@), i as int, '<') && at_ident(
            toks_view(toks@),
            i as int + 1,
        ) && tp.tag@ == toks_view(toks@)[i as int + 1]->Ident_name && tp.tag_pos == toks_view(
            toks@,
        )[i as int + 1]->Ident_pos),
        r matches Ok((tp, j)) ==> tag_parse_general(
            toks_view(toks@),
            i as int,
            j as int,
            tp.tag@,
            tp.attributes@,
        ),
        r matches Ok((tp, j)) ==> crate::grammar::markup_sourced(
            toks_view(toks@),
            i as int,
            j as int,
            tp.tag@,
            tp.tag_pos,
            tp.attributes@,
            tp.self_closing,
        ),
        forall|ja: int|
            #[trigger] self_closing_plain(toks_view(toks@), i as int, ja) ==> (r matches Ok(
                (tp, j),
            ) && j == ja + 2 && tp.self_closing && attrs_match_forms(
                tp.attributes@,
                attr_list_forms(toks_view(toks@), i as int + 2, ja),
            )),
        forall|ja: int|
            #[trigger] opens_then_ends(toks_view(toks@), i as int, ja) ==> (r matches Err(
                ParseError::UnexpectedEndOfChildren { .. },
            )),
        forall|ja: int|
            #[trigger] mismatch_pair_plain(toks_view(toks@), i as int, ja) ==> (r matches Err(
                ParseError::MismatchedClosingTag { expected, pos },
            ) && expected@ == toks_view(toks@)[i as int + 1]->Ident_name && pos == spec_pos(
                toks_view(toks@)[ja + 3],
            )),
        self_close_shape(toks_view(toks@), i as int) ==> (r matches Ok((tp, j)) && j == i + 4
            && tp.self_closing && tp.attributes@ =~= Seq::<SpecAttr>::empty()),
        empty_pair_shape(toks_view(toks@), i as int) ==> (r matches Ok((tp, j)) && j == i + 7
            && !tp.self_closing && tp.attributes@ =~= Seq::<SpecAttr>::empty()),
        one_child_shape(toks_view(toks@), i as int) ==> (r matches Ok((tp, j)) && j == i + 11
            && !tp.self_closing && tp.attributes@ =~= seq![
            SpecAttr::Normal {
                name: "children"@,
                name_pos: 0,
                value: seq![
                    crate::raw_expr::SpecSeg::RSX(
                        crate::node::self_close_node(toks_view(toks@), i as int + 3),
                    ),
                ],
            },
        ]),
        mismatch_shape(toks_view(toks@), i as int) ==> (r matches Err(
            ParseError::MismatchedClosingTag { expected, pos },
        ) && expected@ == toks_view(toks@)[i as int + 1]->Ident_name && pos == spec_pos(
            toks_view(toks@)[i as int + 5],
        )),
        !at_punct(toks_view(toks@), i as int, '<') ==> (r matches Err(
            ParseError::UnrecognizedNode { .. },
        )),
        (at_punct(toks_view(toks@), i as int, '<') && !at_ident(toks_view(toks@), i as int + 1))
            ==> (r matches Err(ParseError::UnrecognizedNode { .. })),
        (at_punct(toks_view(toks@), i as int, '<') && at_ident(toks_view(toks@), i as int + 1) && i
            + 2 >= toks@.len()) ==> (r matches Err(ParseError::MalformedAttribute { .. })),
    decreases crate::tokens::suffix_size(toks@, i as int), 2int,
{
    broadcast use crate::tokens::group_token_views;

    let n = toks.len();
    if !peek_punct(toks, i, '<') {
        return Err(ParseError::UnrecognizedNode { pos: position_at(toks, i) });
    }
    if !peek_ident(toks, i + 1) {
        return Err(ParseError::UnrecognizedNode { pos: position_at(toks, i + 1) });
    }
    let (tag, tag_pos): (String, u32) = match &toks[i + 1] {
        TokenTree::Ident { name, pos } => (name.clone(), *pos),
        _ => vstd::pervasive::unreached(),
    };
    proof {
        crate::tokens::lemma_suffix_size_step(toks@, i as int);
        crate::tokens::lemma_suffix_size_step(toks@, i + 1);
        crate::tokens::lemma_tree_size_pos(toks@[i as int]);
        crate::tokens::lemma_tree_size_pos(toks@[i + 1]);
    }
    let (attributes, j) = match RSXAttributes::parse(toks, i + 2) {
        Ok(p) => p,
        Err(e) => {
            proof {
                // a well-shaped, plain attribute region cannot fail to parse
                assert forall|ja: int|
                    (#[trigger] attr_list_shape(toks_view(toks@), i as int + 2, ja)
                        && attr_values_plain(toks_view(toks@), i as int + 2, ja)) implies false by {}
            }
            return Err(e);
        },
    };
    proof {
        // the attribute region's stop position is unique
        assert forall|ja: int|
            (#[trigger] attr_list_shape(toks_view(toks@), i as int + 2, ja) && attr_values_plain(
                toks_view(toks@),
                i as int + 2,
                ja,
            )) implies ja == j as int by {}
        assert forall|ja: int|
            #[trigger] mismatch_pair_plain(toks_view(toks@), i as int, ja) implies ja
            == j as int by {}
    }
    if peek_punct(toks, j, '/') && peek_punct(toks, j + 1, '>') {
        proof {
            let v = toks_view(toks@);
            assert(attr_list_shape(v, i as int + 2, j as int));
            assert(tag_parse_general(v, i as int, j as int + 2, tag@, attributes@));
            assert(v[i as int + 1] == SpecToken::Ident { name: tag@, pos: tag_pos });
            let acov = choose|cs: Seq<crate::grammar::AttrCover>|
                crate::grammar::attrs_covered(v, i as int + 2, attributes@, cs) && j as int == i
                    as int + 2 + crate::grammar::attrs_ext(cs);
            let c = crate::grammar::NodeCover::Markup {
                self_closing: true,
                attrs: acov,
                kids: Seq::empty(),
            };
            assert(crate::grammar::markup_covered(v, i as int, tag@, tag_pos, attributes@, c));
            assert(crate::grammar::markup_sourced(
                v,
                i as int,
                j as int + 2,
                tag@,
                tag_pos,
                attributes@,
                true,
            ));
        }
        return Ok((TagParse { tag, tag_pos, attributes, self_closing: true }, j + 2));
    }
    if !peek_punct(toks, j, '>') {
        // The attribute loop stops only at `>` or `/>`, and the `/>` case
        // returned above.
        proof {
            assert(attrs_exit(toks_view(toks@), j as int));
            assert(false);
        }
        return Err(ParseError::UnrecognizedNode { pos: position_at(toks, j) });
    }
    let mut k = j + 1;
    let mut segs: Vec<PartialExpr> = Vec::new();
    let ghost mut kcov: Seq<crate::grammar::NodeCover> = Seq::empty();
    while !(peek_punct(toks, k, '<') && peek_punct(toks, k + 1, '/'))
        invariant
            j + 1 <= k <= n,
            crate::node::wf_doc(crate::raw_expr::segs_view(segs@)),
            (mismatch_shape(toks_view(toks@), i as int) || empty_pair_shape(
                toks_view(toks@),
                i as int,
            )) ==> (k == i + 3 && segs@.len() == 0),
            one_child_shape(toks_view(toks@), i as int) ==> ((k == i + 3 && segs@.len() == 0) || (
            k == i + 7 && crate::raw_expr::segs_view(segs@) =~= seq![
                crate::raw_expr::SpecSeg::RSX(
                    crate::node::self_close_node(toks_view(toks@), i as int + 3),
                ),
            ])),
            forall|q: int|
                0 <= q < crate::raw_expr::segs_view(segs@).len() ==> (#[trigger] crate::raw_expr::segs_view(
                    segs@,
                )[q] matches SpecSeg::RSX(..)),
            forall|ja: int|
                #[trigger] mismatch_pair_plain(toks_view(toks@), i as int, ja) ==> (k == ja + 1
                    && segs@.len() == 0),
            crate::grammar::children_covered(
                toks_view(toks@),
                j as int + 1,
                crate::raw_expr::segs_view(segs@),
                kcov,
            ),
            k as int == j + 1 + crate::grammar::kids_ext(kcov),
        decreases n - k,
    {
        if k >= n {
            return Err(ParseError::UnexpectedEndOfChildren { pos: 0 });
        }
        proof {
            crate::tokens::lemma_suffix_size_mono(toks@, i + 1, k as int);
        }
        let (child, k2) = match Node::parse(toks, k) {
            Ok(p) => p,
            Err(e) => {
                return Err(e);
            },
        };
        let seg = PartialExpr::RSX(Box::new(child));
        let ghost segs0 = crate::raw_expr::segs_view(segs@);
        proof {
            crate::raw_expr::lemma_segs_view_push(segs@, seg);
            crate::node::lemma_wf_doc_push(
                crate::raw_expr::segs_view(segs@),
                crate::raw_expr::seg_view(seg),
            );
            let v = toks_view(toks@);
            let nc = choose|c: crate::grammar::NodeCover|
                crate::grammar::node_covered(v, k as int, child@, c) && k2 as int == k
                    + crate::grammar::node_ext(c);
            crate::grammar::lemma_children_covered_snoc(
                v,
                j as int + 1,
                segs0,
                kcov,
                child@,
                nc,
            );
            kcov = kcov.push(nc);
        }
        segs.push(seg);
        proof {
            assert forall|q: int|
                0 <= q < crate::raw_expr::segs_view(segs@).len() implies (
            #[trigger] crate::raw_expr::segs_view(segs@)[q] matches SpecSeg::RSX(..)) by {
                assert(crate::raw_expr::segs_view(segs@) =~= segs0.push(
                    crate::raw_expr::seg_view(seg),
                ));
                if q < segs0.len() {
                    assert(crate::raw_expr::segs_view(segs@)[q] == segs0[q]);
                }
            }
        }
        k = k2;
    }
    let m = k + 2;
    if !peek_ident(toks, m) {
        if m >= n {
            return Err(ParseError::UnexpectedEndOfChildren { pos: 0 });
        }
        return Err(ParseError::MismatchedClosingTag { expected: tag, pos: position_at(toks, m) });
    }
    let (closing, closing_pos): (&String, u32) = match &toks[m] {
        TokenTree::Ident { name, pos } => (name, *pos),
        _ => vstd::pervasive::unreached(),
    };
    if !crate::tokens::string_eq(closing, &tag) {
        return Err(ParseError::MismatchedClosingTag { expected: tag, pos: closing_pos });
    }
    if !peek_punct(toks, m + 1, '>') {
        if m + 1 >= n {
            return Err(ParseError::UnexpectedEndOfChildren { pos: 0 });
        }
        return Err(
            ParseError::MismatchedClosingTag { expected: tag, pos: position_at(toks, m + 1) },
        );
    }
    let ghost attrs0 = attributes@;
    let ghost kids = crate::raw_expr::segs_view(segs@);
    let attributes = attributes.with_children(ExprNode(segs));
    proof {
        let v = toks_view(toks@);
        if kids.len() > 0 {
            crate::node::lemma_wf_attrs_push(
                attrs0,
                SpecAttr::Normal { name: "children"@, name_pos: 0, value: kids },
            );
            assert(attributes@ =~= attrs0.push(
                SpecAttr::Normal { name: "children"@, name_pos: 0, value: kids },
            ));
            assert(attributes@.take(attributes@.len() - 1) =~= attrs0);
            assert(attributes@.drop_last() =~= attrs0);
        }
        assert(attr_list_shape(v, i as int + 2, j as int));
        assert(tag_parse_general(v, i as int, m as int + 2, tag@, attributes@));
        assert(v[i as int + 1] == SpecToken::Ident { name: tag@, pos: tag_pos });
        let acov = choose|cs: Seq<crate::grammar::AttrCover>|
            crate::grammar::attrs_covered(v, i as int + 2, attrs0, cs) && j as int == i as int + 2
                + crate::grammar::attrs_ext(cs);
        let c = crate::grammar::NodeCover::Markup {
            self_closing: false,
            attrs: acov,
            kids: kcov,
        };
        assert(crate::grammar::markup_covered(v, i as int, tag@, tag_pos, attributes@, c));
        assert(crate::grammar::markup_sourced(
            v,
            i as int,
            m as int + 2,
            tag@,
            tag_pos,
            attributes@,
            false,
        ));
    }
    Ok((TagParse { tag, tag_pos, attributes, self_closing: false }, m + 2))
}

} // verus!
