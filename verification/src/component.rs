//! A component: a markup node whose tag does not begin with a lowercase
//! ASCII letter, by convention a user-defined constructor, e.g. `<Item/>`.

use vstd::prelude::*;

use crate::attributes::attrs_view;
use crate::attributes::RSXAttributes;
use crate::attributes::SpecAttr;
use crate::cursor::at_ident;
use crate::cursor::at_punct;
use crate::emit::emit_tag_call;
use crate::emit::spec_tag_call;
use crate::error::ParseError;
use crate::tag::empty_pair_shape;
use crate::tag::mismatch_shape;
use crate::tag::one_child_shape;
use crate::tag::self_close_shape;
use crate::tokens::spec_pos;
use crate::tokens::toks_view;
use crate::tokens::TokenTree;

verus! {

/// A parsed component.
#[derive(Debug, PartialEq)]
pub enum RSXComponent {
    /// A matched `<Tag ...> ... </Tag>` pair.  The closing tag always equals
    /// the opening tag; a mismatch is a parse error, not a value.
    Normal { opening_tag: String, tag_pos: u32, attributes: RSXAttributes, closing_tag: String },
    /// A self-closing `<Tag ... />`.
    SelfClosing { tag: String, tag_pos: u32, attributes: RSXAttributes },
}

/// The mathematical image of a component.
pub enum SpecComponent {
    Normal {
        opening_tag: Seq<char>,
        tag_pos: u32,
        attributes: Seq<SpecAttr>,
        closing_tag: Seq<char>,
    },
    SelfClosing { tag: Seq<char>, tag_pos: u32, attributes: Seq<SpecAttr> },
}

/// The image of a component.
pub open spec fn comp_view(c: RSXComponent) -> SpecComponent
    decreases c,
{
    match c {
        RSXComponent::Normal { opening_tag, tag_pos, attributes, closing_tag } =>
            SpecComponent::Normal {
            opening_tag: opening_tag@,
            tag_pos,
            attributes: attrs_view(attributes.0@),
            closing_tag: closing_tag@,
        },
        RSXComponent::SelfClosing { tag, tag_pos, attributes } => SpecComponent::SelfClosing {
            tag: tag@,
            tag_pos,
            attributes: attrs_view(attributes.0@),
        },
    }
}

impl View for RSXComponent {
    type V = SpecComponent;

    open spec fn view(&self) -> SpecComponent {
        comp_view(*self)
    }
}

impl RSXComponent {
    /// Parse one `<Tag ...>` construct at `i` as a component.  The tag's
    /// case is not checked here: classification happens at
    /// [`crate::Node::parse`], which only delegates to this function for
    /// tags that do not start with a lowercase ASCII letter.
    pub fn parse(toks: &Vec<TokenTree>, i: usize) -> (r: Result<(RSXComponent, usize), ParseError>)
        ensures
            r matches Ok((c, j)) ==> i < j <= toks@.len(),
            r matches Ok((c, j)) ==> crate::node::wf_attrs(c@.attributes()),
            r matches Ok((c, j)) ==> (c@ matches SpecComponent::Normal {
                opening_tag,
                closing_tag,
                ..
            } ==> closing_tag == opening_tag),
            r matches Ok((c, j)) ==> (at_punct(toks_view(toks@), i as int, '<') && at_ident(
                toks_view(toks@),
                i as int + 1,
            ) && c@.tag() == toks_view(toks@)[i as int + 1]->Ident_name && c@.tag_pos()
                == toks_view(toks@)[i as int + 1]->Ident_pos),
            r matches Ok((c, j)) ==> crate::tag::tag_parse_general(
                toks_view(toks@),
                i as int,
                j as int,
                c@.tag(),
                c@.attributes(),
            ),
            r matches Ok((c, j)) ==> ((c matches RSXComponent::SelfClosing { .. })
                ==> crate::grammar::markup_sourced(
                toks_view(toks@),
                i as int,
                j as int,
                c@.tag(),
                c@.tag_pos(),
                c@.attributes(),
                true,
            )),
            r matches Ok((c, j)) ==> ((c matches RSXComponent::Normal { .. })
                ==> crate::grammar::markup_sourced(
                toks_view(toks@),
                i as int,
                j as int,
                c@.tag(),
                c@.tag_pos(),
                c@.attributes(),
                false,
            )),
            forall|ja: int|
                #[trigger] crate::tag::self_closing_plain(toks_view(toks@), i as int, ja) ==> (
                r matches Ok((c, j)) && j == ja + 2 && (c matches RSXComponent::SelfClosing { .. })
                    && crate::attributes::attrs_match_forms(
                    c@.attributes(),
                    crate::attributes::attr_list_forms(toks_view(toks@), i as int + 2, ja),
                )),
            forall|ja: int|
                #[trigger] crate::tag::opens_then_ends(toks_view(toks@), i as int, ja) ==> (
                r matches Err(ParseError::UnexpectedEndOfChildren { .. })),
            forall|ja: int|
                #[trigger] crate::tag::mismatch_pair_plain(toks_view(toks@), i as int, ja) ==> (
                r matches Err(ParseError::MismatchedClosingTag { expected, pos }) && expected@
                    == toks_view(toks@)[i as int + 1]->Ident_name && pos == spec_pos(
                    toks_view(toks@)[ja + 3],
                )),
            self_close_shape(toks_view(toks@), i as int) ==> (r matches Ok((c, j)) && j == i + 4
                && (c matches RSXComponent::SelfClosing { .. }) && c@.attributes() =~= Seq::<
                SpecAttr,
            >::empty()),
            empty_pair_shape(toks_view(toks@), i as int) ==> (r matches Ok((c, j)) && j == i + 7
                && (c matches RSXComponent::Normal { .. }) && c@.attributes() =~= Seq::<
                SpecAttr,
            >::empty()),
            one_child_shape(toks_view(toks@), i as int) ==> (r matches Ok((c, j)) && j == i + 11
                && (c matches RSXComponent::Normal { .. }) && c@.attributes() =~= seq![
                SpecAttr::Normal {
                    name: "children"@,
                    name_pos: 0,
                    value: seq![
                        crate::raw_expr::SpecSeg::RSX(
                            crate::node::self_close_node(toks_view(toks@), i as int + 3),
                        ),
                    ],
                },
            ]),
            mismatch_shape(toks_view(toks@), i as int) ==> (r matches Err(
                ParseError::MismatchedClosingTag { expected, pos },
            ) && expected@ == toks_view(toks@)[i as int + 1]->Ident_name && pos == spec_pos(
                toks_view(toks@)[i as int + 5],
            )),
            !at_punct(toks_view(toks@), i as int, '<') ==> (r matches Err(
                ParseError::UnrecognizedNode { .. },
            )),
            (at_punct(toks_view(toks@), i as int, '<') && !at_ident(toks_view(toks@), i as int + 1))
                ==> (r matches Err(ParseError::UnrecognizedNode { .. })),
            (at_punct(toks_view(toks@), i as int, '<') && at_ident(toks_view(toks@), i as int + 1)
                && i + 2 >= toks@.len()) ==> (r matches Err(ParseError::MalformedAttribute { .. })),
        decreases crate::tokens::suffix_size(toks@, i as int), 3int,
    {
        match crate::tag::parse_tag(toks, i) {
            Ok((tp, j)) => {
                if tp.self_closing {
                    Ok(
                        (
                            RSXComponent::SelfClosing {
                                tag: tp.tag,
                                tag_pos: tp.tag_pos,
                                attributes: tp.attributes,
                            },
                            j,
                        ),
                    )
                } else {
                    let closing_tag = tp.tag.clone();
                    Ok(
                        (
                            RSXComponent::Normal {
                                opening_tag: tp.tag,
                                tag_pos: tp.tag_pos,
                                attributes: tp.attributes,
                                closing_tag,
                            },
                            j,
                        ),
                    )
                }
            },
            Err(e) => Err(e),
        }
    }

    /// Append this component's constructor call.
    pub fn to_tokens(&self, out: &mut Vec<TokenTree>)
        ensures
            toks_view(final(out)@) =~= toks_view(old(out)@) + spec_tag_call(
                self@.tag(),
                self@.tag_pos(),
                self@.attributes(),
            ),
        decreases *self, 0int,
    {
        match self {
            RSXComponent::Normal { opening_tag, tag_pos, attributes, .. } => {
                emit_tag_call(opening_tag, *tag_pos, attributes, out);
            },
            RSXComponent::SelfClosing { tag, tag_pos, attributes } => {
                emit_tag_call(tag, *tag_pos, attributes, out);
            },
        }
    }

    /// This component's constructor call as a fresh token sequence.
    pub fn to_token_vec(&self) -> (r: Vec<TokenTree>)
        ensures
            toks_view(r@) =~= spec_tag_call(self@.tag(), self@.tag_pos(), self@.attributes()),
    {
        let mut out: Vec<TokenTree> = Vec::new();
        self.to_tokens(&mut out);
        out
    }
}

impl SpecComponent {
    /// The tag of the component, whichever variant holds it.
    pub open spec fn tag(self) -> Seq<char> {
        match self {
            SpecComponent::Normal { opening_tag, .. } => opening_tag,
            SpecComponent::SelfClosing { tag, .. } => tag,
        }
    }

    /// The position handle of the opening tag identifier.
    pub open spec fn tag_pos(self) -> u32 {
        match self {
            SpecComponent::Normal { tag_pos, .. } => tag_pos,
            SpecComponent::SelfClosing { tag_pos, .. } => tag_pos,
        }
    }

    /// The attribute list of the component.
    pub open spec fn attributes(self) -> Seq<SpecAttr> {
        match self {
            SpecComponent::Normal { attributes, .. } => attributes,
            SpecComponent::SelfClosing { attributes, .. } => attributes,
        }
    }
}

} // verus!
