//! An element: a markup node whose tag begins with a lowercase ASCII letter,
//! e.g. `<div class={...}>...</div>`.

use vstd::prelude::*;

use crate::attributes::attrs_view;
use crate::attributes::RSXAttributes;
use crate::attributes::SpecAttr;
use crate::cursor::at_ident;
use crate::cursor::at_punct;
use crate::emit::emit_tag_call;
use crate::emit::spec_tag_call;
use crate::error::ParseError;
use crate::tag::empty_pair_shape;
use crate::tag::one_child_shape;
use crate::tag::mismatch_shape;
use crate::tag::self_close_shape;
use crate::tokens::spec_pos;
use crate::tokens::toks_view;
use crate::tokens::TokenTree;

verus! {

/// A parsed element.  Terminal either as self-closing or as a matched
/// open/close pair; a non-empty child list is recorded as a synthetic
/// trailing `children` attribute.
#[derive(Debug, PartialEq)]
pub struct RSXElement {
    /// The tag identifier, e.g. `div`.
    pub tag: String,
    /// The source position handle of the tag identifier.
    pub tag_pos: u32,
    /// The ordered attribute list, `children` last if children exist.
    pub attributes: RSXAttributes,
}

/// The mathematical image of an element.
pub struct SpecElement {
    pub tag: Seq<char>,
    pub tag_pos: u32,
    pub attributes: Seq<SpecAttr>,
}

/// The image of an element.
pub open spec fn elem_view(e: RSXElement) -> SpecElement
    decreases e,
{
    SpecElement { tag: e.tag@, tag_pos: e.tag_pos, attributes: attrs_view(e.attributes.0@) }
}

impl View for RSXElement {
    type V = SpecElement;

    open spec fn view(&self) -> SpecElement {
        elem_view(*self)
    }
}

impl RSXElement {
    /// Parse one `<tag ...>` construct at `i` as an element.  The tag's case
    /// is not checked here: classification happens at [`crate::Node::parse`],
    /// which only delegates to this function for lowercase-first tags.
    pub fn parse(toks: &Vec<TokenTree>, i: usize) -> (r: Result<(RSXElement, usize), ParseError>)
        ensures
            r matches Ok((el, j)) ==> i < j <= toks@.len(),
            r matches Ok((el, j)) ==> crate::node::wf_attrs(el@.attributes),
            r matches Ok((el, j)) ==> (at_punct(toks_view(toks@), i as int, '<') && at_ident(
                toks_view(toks@),
                i as int + 1,
            ) && el.tag@ == toks_view(toks@)[i as int + 1]->Ident_name && el.tag_pos == toks_view(
                toks@,
            )[i as int + 1]->Ident_pos),
            r matches Ok((el, j)) ==> crate::tag::tag_parse_general(
                toks_view(toks@),
                i as int,
                j as int,
                el.tag@,
                el@.attributes,
            ),
            r matches Ok((el, j)) ==> (crate::grammar::markup_sourced(
                toks_view(toks@),
                i as int,
                j as int,
                el.tag@,
                el.tag_pos,
                el@.attributes,
                true,
            ) || crate::grammar::markup_sourced(
                toks_view(toks@),
                i as int,
                j as int,
                el.tag@,
                el.tag_pos,
                el@.attributes,
                false,
            )),
            forall|ja: int|
                #[trigger] crate::tag::self_closing_plain(toks_view(toks@), i as int, ja) ==> (
                r matches Ok((el, j)) && j == ja + 2 && crate::attributes::attrs_match_forms(
                    el@.attributes,
                    crate::attributes::attr_list_forms(toks_view(toks@), i as int + 2, ja),
                )),
            forall|ja: int|
                #[trigger] crate::tag::opens_then_ends(toks_view(toks@), i as int, ja) ==> (
                r matches Err(ParseError::UnexpectedEndOfChildren { .. })),
            forall|ja: int|
                #[trigger] crate::tag::mismatch_pair_plain(toks_view(toks@), i as int, ja) ==> (
                r matches Err(ParseError::MismatchedClosingTag { expected, pos }) && expected@
                    == toks_view(toks@)[i as int + 1]->Ident_name && pos == spec_pos(
                    toks_view(toks@)[ja + 3],
                )),
            self_close_shape(toks_view(toks@), i as int) ==> (r matches Ok((el, j)) && j == i + 4
                && el@.attributes =~= Seq::<SpecAttr>::empty()),
            empty_pair_shape(toks_view(toks@), i as int) ==> (r matches Ok((el, j)) && j == i + 7
                && el@.attributes =~= Seq::<SpecAttr>::empty()),
            one_child_shape(toks_view(toks@), i as int) ==> (r matches Ok((el, j)) && j == i + 11
                && el@.attributes =~= seq![
                SpecAttr::Normal {
                    name: "children"@,
                    name_pos: 0,
                    value: seq![
                        crate::raw_expr::SpecSeg::RSX(
                            crate::node::self_close_node(toks_view(toks@), i as int + 3),
                        ),
                    ],
                },
            ]),
            mismatch_shape(toks_view(toks@), i as int) ==> (r matches Err(
                ParseError::MismatchedClosingTag { expected, pos },
            ) && expected@ == toks_view(toks@)[i as int + 1]->Ident_name && pos == spec_pos(
                toks_view(toks@)[i as int + 5],
            )),
            !at_punct(toks_view(toks@), i as int, '<') ==> (r matches Err(
                ParseError::UnrecognizedNode { .. },
            )),
            (at_punct(toks_view(toks@), i as int, '<') && !at_ident(toks_view(toks@), i as int + 1))
                ==> (r matches Err(ParseError::UnrecognizedNode { .. })),
            (at_punct(toks_view(toks@), i as int, '<') && at_ident(toks_view(toks@), i as int + 1)
                && i + 2 >= toks@.len()) ==> (r matches Err(ParseError::MalformedAttribute { .. })),
        decreases crate::tokens::suffix_size(toks@, i as int), 3int,
    {
        match crate::tag::parse_tag(toks, i) {
            Ok((tp, j)) => Ok(
                (RSXElement { tag: tp.tag, tag_pos: tp.tag_pos, attributes: tp.attributes }, j),
            ),
            Err(e) => Err(e),
        }
    }

    /// Append this element's constructor call.
    pub fn to_tokens(&self, out: &mut Vec<TokenTree>)
        ensures
            toks_view(final(out)@) =~= toks_view(old(out)@) + spec_tag_call(
                self.tag@,
                self.tag_pos,
                self@.attributes,
            ),
        decreases *self, 0int,
    {
        emit_tag_call(&self.tag, self.tag_pos, &self.attributes, out);
    }

    /// This element's constructor call as a fresh token sequence.
    pub fn to_token_vec(&self) -> (r: Vec<TokenTree>)
        ensures
            toks_view(r@) =~= spec_tag_call(self.tag@, self.tag_pos, self@.attributes),
    {
        let mut out: Vec<TokenTree> = Vec::new();
        self.to_tokens(&mut out);
        out
    }
}

} // verus!
