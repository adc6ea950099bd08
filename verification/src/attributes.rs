//! Attributes of an element or component: an ordered list of normal
//! (`name = { value }`) and spread (`{..ident}`) entries.  Order is
//! semantically required: later entries may override earlier ones when the
//! emitted constructor call is evaluated, so the list preserves encounter
//! order and never de-duplicates.

use vstd::prelude::*;

use crate::cursor::at_brace_group;
use crate::cursor::at_ident;
use crate::cursor::at_punct;
use crate::cursor::peek_punct;
use crate::cursor::position_at;
use crate::emit::push_ident;
use crate::emit::push_punct;
use crate::emit::push_tok;
use crate::emit::spec_attr_stmt;
use crate::emit::spec_attr_stmts;
use crate::error::ParseError;
use crate::raw_expr::doc_view;
use crate::raw_expr::ExprNode;
use crate::raw_expr::SpecSeg;
use crate::tokens::spec_pos;
use crate::tokens::toks_harmless_lt;
use crate::tokens::toks_view;
use crate::tokens::Delimiter;
use crate::tokens::SpecToken;
use crate::tokens::TokenTree;

verus! {

/// One attribute entry.
#[derive(Debug, PartialEq)]
pub enum RSXAttribute {
    /// `name = { value }`; the value is a recursively rewritten document.
    Normal { name: String, name_pos: u32, value: ExprNode },
    /// `{..ident}`: merge the collection named `ident` into the attributes.
    Spread { ident: String, ident_pos: u32 },
}

/// The ordered attribute list of one element or component.
#[derive(Debug, PartialEq)]
pub struct RSXAttributes(pub Vec<RSXAttribute>);

/// The mathematical image of an attribute entry.
pub enum SpecAttr {
    Normal { name: Seq<char>, name_pos: u32, value: Seq<SpecSeg> },
    Spread { ident: Seq<char>, ident_pos: u32 },
}

/// The image of one attribute.
pub open spec fn attr_view(a: RSXAttribute) -> SpecAttr
    decreases a,
{
    match a {
        RSXAttribute::Normal { name, name_pos, value } => SpecAttr::Normal {
            name: name@,
            name_pos,
            value: doc_view(value),
        },
        RSXAttribute::Spread { ident, ident_pos } => SpecAttr::Spread { ident: ident@, ident_pos },
    }
}

/// The image of an attribute sequence.
pub open spec fn attrs_view(s: Seq<RSXAttribute>) -> Seq<SpecAttr>
    decreases s,
{
    if s.len() == 0 {
        Seq::empty()
    } else {
        seq![attr_view(s[0])] + attrs_view(s.drop_first())
    }
}

impl View for RSXAttribute {
    type V = SpecAttr;

    open spec fn view(&self) -> SpecAttr {
        attr_view(*self)
    }
}

impl View for RSXAttributes {
    type V = Seq<SpecAttr>;

    open spec fn view(&self) -> Seq<SpecAttr> {
        attrs_view(self.0@)
    }
}

/// `attrs_view` keeps the length and maps each entry to its image.
pub proof fn lemma_attrs_view_index(s: Seq<RSXAttribute>)
    ensures
        attrs_view(s).len() == s.len(),
        forall|i: int| 0 <= i < s.len() ==> attrs_view(s)[i] == attr_view(#[trigger] s[i]),
    decreases s,
{
    if s.len() > 0 {
        lemma_attrs_view_index(s.drop_first());
        assert forall|i: int| 0 <= i < s.len() implies attrs_view(s)[i] == attr_view(
            #[trigger] s[i],
        ) by {
            if i > 0 {
                assert(s.drop_first()[i - 1] == s[i]);
            }
        }
    }
}

/// Ambient form of [`lemma_attrs_view_index`], length half.
pub broadcast proof fn axiom_attrs_view_len(s: Seq<RSXAttribute>)
    ensures
        (#[trigger] attrs_view(s)).len() == s.len(),
{
    lemma_attrs_view_index(s);
}

/// Ambient form of [`lemma_attrs_view_index`], index half.
pub broadcast proof fn axiom_attrs_view_at(s: Seq<RSXAttribute>, i: int)
    requires
        0 <= i < s.len(),
    ensures
        #[trigger] attrs_view(s)[i] == attr_view(s[i]),
{
    lemma_attrs_view_index(s);
}

pub broadcast group group_attr_views {
    axiom_attrs_view_len,
    axiom_attrs_view_at,
}

/// The attribute loop stops exactly at `>` or at `/>`.
pub open spec fn attrs_exit(s: Seq<SpecToken>, j: int) -> bool {
    at_punct(s, j, '>') || (at_punct(s, j, '/') && at_punct(s, j + 1, '>'))
}

/// A brace group holding exactly the spread form `..ident`.
pub open spec fn spread_shape(s: Seq<SpecToken>, i: int) -> bool {
    &&& at_brace_group(s, i)
    &&& s[i]->Group_tokens.len() == 3
    &&& s[i]->Group_tokens[0] matches SpecToken::Punct { ch: '.', .. }
    &&& s[i]->Group_tokens[1] matches SpecToken::Punct { ch: '.', .. }
    &&& s[i]->Group_tokens[2] matches SpecToken::Ident { .. }
}

/// The spread attribute a spread-shaped group denotes.
pub open spec fn spread_attr_of(s: Seq<SpecToken>, i: int) -> SpecAttr {
    SpecAttr::Spread {
        ident: s[i]->Group_tokens[2]->Ident_name,
        ident_pos: s[i]->Group_tokens[2]->Ident_pos,
    }
}

/// The normal attribute form: `ident = { ... }`.
pub open spec fn normal_attr_shape(s: Seq<SpecToken>, i: int) -> bool {
    &&& at_ident(s, i)
    &&& at_punct(s, i + 1, '=')
    &&& at_brace_group(s, i + 2)
}

/// The attribute region walks from `i` exactly to `j`: a spread consumes one
/// token, a normal attribute three, and nothing else is consumed.
pub open spec fn attr_steps(s: Seq<SpecToken>, i: int, j: int) -> bool
    decreases j - i,
{
    if j < i {
        false
    } else if i == j {
        true
    } else if spread_shape(s, i) {
        attr_steps(s, i + 1, j)
    } else if normal_attr_shape(s, i) && i + 3 <= j {
        attr_steps(s, i + 3, j)
    } else {
        false
    }
}

/// A well-shaped attribute region: attribute steps from `i` up to a stop
/// position `j` (`>` or `/>`).
pub open spec fn attr_list_shape(s: Seq<SpecToken>, i: int, j: int) -> bool {
    attr_steps(s, i, j) && attrs_exit(s, j)
}

/// The source form of one attribute entry: what the region's tokens spell,
/// before the value interior is parsed.
pub enum SpecAttrForm {
    Normal { name: Seq<char>, name_pos: u32, interior: Seq<SpecToken> },
    Spread { ident: Seq<char>, ident_pos: u32 },
}

/// The source forms of the attribute region from `i` to `j`, in encounter
/// order.
pub open spec fn attr_list_forms(s: Seq<SpecToken>, i: int, j: int) -> Seq<SpecAttrForm>
    decreases j - i,
{
    if j <= i {
        Seq::empty()
    } else if spread_shape(s, i) {
        seq![
            SpecAttrForm::Spread {
                ident: s[i]->Group_tokens[2]->Ident_name,
                ident_pos: s[i]->Group_tokens[2]->Ident_pos,
            },
        ] + attr_list_forms(s, i + 1, j)
    } else if normal_attr_shape(s, i) && i + 3 <= j {
        seq![
            SpecAttrForm::Normal {
                name: s[i]->Ident_name,
                name_pos: s[i]->Ident_pos,
                interior: s[i + 2]->Group_tokens,
            },
        ] + attr_list_forms(s, i + 3, j)
    } else {
        Seq::empty()
    }
}

/// Every normal attribute value in the region is markup-free, so each value
/// parse succeeds and is pinned by the round-trip contract.
pub open spec fn attr_values_plain(s: Seq<SpecToken>, i: int, j: int) -> bool
    decreases j - i,
{
    if j <= i {
        true
    } else if spread_shape(s, i) {
        attr_values_plain(s, i + 1, j)
    } else if normal_attr_shape(s, i) && i + 3 <= j {
        toks_harmless_lt(s[i + 2]->Group_tokens) && attr_values_plain(s, i + 3, j)
    } else {
        true
    }
}

/// A parsed attribute corresponds to its source form: same kind, name and
/// position; a normal entry whose interior is markup-free has a value that
/// emits to exactly that interior.
pub open spec fn attr_matches_form(a: SpecAttr, f: SpecAttrForm) -> bool {
    match (a, f) {
        (
            SpecAttr::Normal { name, name_pos, value },
            SpecAttrForm::Normal { name: n2, name_pos: p2, interior },
        ) => {
            &&& name == n2
            &&& name_pos == p2
            &&& (crate::tokens::toks_harmless_lt(interior) ==> crate::emit::spec_doc_tokens(value)
                == interior)
        },
        (
            SpecAttr::Spread { ident, ident_pos },
            SpecAttrForm::Spread { ident: i2, ident_pos: p2 },
        ) => ident == i2 && ident_pos == p2,
        _ => false,
    }
}

/// Pointwise correspondence of a parsed attribute list with the region's
/// source forms, in encounter order.
pub open spec fn attrs_match_forms(a: Seq<SpecAttr>, f: Seq<SpecAttrForm>) -> bool {
    a.len() == f.len() && (forall|k: int|
        0 <= k < a.len() ==> attr_matches_form(#[trigger] a[k], f[k]))
}

/// Walks compose, and the forms of a composed walk are the concatenation of
/// its parts' forms; plain values compose the same way.
pub proof fn lemma_attr_steps_extend(s: Seq<SpecToken>, i: int, j: int, j2: int)
    requires
        attr_steps(s, i, j),
        attr_steps(s, j, j2),
    ensures
        attr_steps(s, i, j2),
        attr_list_forms(s, i, j2) =~= attr_list_forms(s, i, j) + attr_list_forms(s, j, j2),
    decreases j - i,
{
    if i < j {
        if spread_shape(s, i) {
            lemma_attr_steps_extend(s, i + 1, j, j2);
            assert(attr_list_forms(s, i, j2) =~= attr_list_forms(s, i, j) + attr_list_forms(
                s,
                j,
                j2,
            ));
        } else {
            lemma_attr_steps_extend(s, i + 3, j, j2);
            assert(attr_list_forms(s, i, j2) =~= attr_list_forms(s, i, j) + attr_list_forms(
                s,
                j,
                j2,
            ));
        }
    } else {
        assert(attr_list_forms(s, i, j).len() == 0);
        assert(attr_list_forms(s, i, j2) =~= attr_list_forms(s, i, j) + attr_list_forms(s, j, j2));
    }
}

/// Attribute steps are deterministic: a walk toward a stop position passes
/// through every shorter walk's end, and the remainder stays plain.
pub proof fn lemma_attr_steps_align(s: Seq<SpecToken>, i: int, j: int, j2: int)
    requires
        attr_steps(s, i, j),
        attr_steps(s, i, j2),
        attrs_exit(s, j2),
    ensures
        j <= j2,
        attr_steps(s, j, j2),
        attr_values_plain(s, i, j2) ==> attr_values_plain(s, j, j2),
    decreases j - i,
{
    if i < j {
        if spread_shape(s, i) {
            lemma_attr_steps_align(s, i + 1, j, j2);
        } else {
            lemma_attr_steps_align(s, i + 3, j, j2);
        }
    }
}

/// Extending a matching list with one more matching entry keeps the
/// correspondence.
pub proof fn lemma_match_push(a: Seq<SpecAttr>, f: Seq<SpecAttrForm>, x: SpecAttr, y: SpecAttrForm)
    requires
        attrs_match_forms(a, f),
        attr_matches_form(x, y),
    ensures
        attrs_match_forms(a.push(x), f.push(y)),
{
    assert forall|k: int| 0 <= k < a.push(x).len() implies attr_matches_form(
        #[trigger] a.push(x)[k],
        f.push(y)[k],
    ) by {
        if k < a.len() {
            assert(a.push(x)[k] == a[k]);
            assert(f.push(y)[k] == f[k]);
        } else {
            assert(a.push(x)[k] == x);
            assert(f.push(y)[k] == y);
        }
    }
}

impl RSXAttribute {
    /// Parse one attribute at `i`: a brace group is a spread and must hold
    /// exactly `..ident`; anything else must be `ident = { value }` with the
    /// value parsed as a recursively rewritten sub-document.
    pub fn parse(toks: &Vec<TokenTree>, i: usize) -> (r: Result<(RSXAttribute, usize), ParseError>)
        ensures
            r matches Ok((a, j)) ==> i < j <= toks@.len(),
            r matches Ok((a, j)) ==> crate::node::wf_attr(a@),
            r matches Ok((a, j)) ==> crate::grammar::attr_sourced(
                toks_view(toks@),
                i as int,
                j as int,
                a@,
            ),
            r matches Ok((a, j)) ==> ((spread_shape(toks_view(toks@), i as int) && j == i + 1 && a@
                == spread_attr_of(toks_view(toks@), i as int)) || (normal_attr_shape(
                toks_view(toks@),
                i as int,
            ) && j == i + 3 && attr_matches_form(
                a@,
                SpecAttrForm::Normal {
                    name: toks_view(toks@)[i as int]->Ident_name,
                    name_pos: toks_view(toks@)[i as int]->Ident_pos,
                    interior: toks_view(toks@)[i as int + 2]->Group_tokens,
                },
            ))),
            spread_shape(toks_view(toks@), i as int) ==> (r matches Ok((a, j)) && j == i + 1
                && a@ == spread_attr_of(toks_view(toks@), i as int)),
            (at_brace_group(toks_view(toks@), i as int) && !spread_shape(
                toks_view(toks@),
                i as int,
            )) ==> (r matches Err(ParseError::ExpectedSpreadIdentifier { pos }) && pos == spec_pos(
                toks_view(toks@)[i as int],
            )),
            r matches Ok((a, j)) ==> (normal_attr_shape(toks_view(toks@), i as int) ==> (j == i + 3
                && (a@ matches SpecAttr::Normal { name, name_pos, value } && name == toks_view(
                toks@,
            )[i as int]->Ident_name && name_pos == toks_view(toks@)[i as int]->Ident_pos && (
            toks_harmless_lt(toks_view(toks@)[i as int + 2]->Group_tokens)
                ==> crate::emit::spec_doc_tokens(value) == toks_view(
                toks@,
            )[i as int + 2]->Group_tokens)))),
            (normal_attr_shape(toks_view(toks@), i as int) && toks_harmless_lt(
                toks_view(toks@)[i as int + 2]->Group_tokens,
            )) ==> r matches Ok(p),
            (!at_brace_group(toks_view(toks@), i as int) && !normal_attr_shape(
                toks_view(toks@),
                i as int,
            )) ==> r matches Err(ParseError::MalformedAttribute { .. }),
        decreases crate::tokens::suffix_size(toks@, i as int), 0int,
    {
        broadcast use crate::tokens::group_token_views;

        let n = toks.len();
        if i >= n {
            return Err(ParseError::MalformedAttribute { pos: 0 });
        }
        match &toks[i] {
            TokenTree::Group { delim: Delimiter::Brace, pos, tokens: inner } => {
                proof {
                    crate::tokens::lemma_toks_view_index(inner@);
                    assert(toks_view(toks@)[i as int] == crate::tokens::tree_view(
                        toks@[i as int],
                    ));
                }
                if inner.len() == 3 {
                    let dot0 = match &inner[0] {
                        TokenTree::Punct { ch, .. } => *ch == '.',
                        _ => false,
                    };
                    let dot1 = match &inner[1] {
                        TokenTree::Punct { ch, .. } => *ch == '.',
                        _ => false,
                    };
                    if dot0 && dot1 {
                        if let TokenTree::Ident { name, pos: ipos } = &inner[2] {
                            let a = RSXAttribute::Spread { ident: name.clone(), ident_pos: *ipos };
                            proof {
                                assert(crate::grammar::attr_covered(
                                    toks_view(toks@),
                                    i as int,
                                    a@,
                                    crate::grammar::AttrCover::Spread,
                                ));
                                assert(crate::grammar::attr_sourced(
                                    toks_view(toks@),
                                    i as int,
                                    i as int + 1,
                                    a@,
                                ));
                            }
                            return Ok((a, i + 1));
                        }
                    }
                }
                Err(ParseError::ExpectedSpreadIdentifier { pos: *pos })
            },
            TokenTree::Ident { name, pos: npos } => {
                if !peek_punct(toks, i + 1, '=') {
                    return Err(
                        ParseError::MalformedAttribute { pos: position_at(toks, i + 1) },
                    );
                }
                if i + 2 >= n {
                    return Err(ParseError::MalformedAttribute { pos: 0 });
                }
                match &toks[i + 2] {
                    TokenTree::Group { delim: Delimiter::Brace, tokens: inner, .. } => {
                        proof {
                            crate::tokens::lemma_group_interior_size(toks@, i + 2);
                            crate::tokens::lemma_suffix_size_step(toks@, i as int);
                            crate::tokens::lemma_suffix_size_step(toks@, i + 1);
                        }
                        match crate::raw_expr::rewrite_rsx(inner) {
                            Ok(value) => {
                                let a = RSXAttribute::Normal {
                                    name: name.clone(),
                                    name_pos: *npos,
                                    value,
                                };
                                proof {
                                    let v = toks_view(toks@);
                                    let iv = v[i as int + 2]->Group_tokens;
                                    let ics = choose|cs: Seq<crate::grammar::SegCover>|
                                        crate::grammar::doc_covered(
                                            iv,
                                            0,
                                            a@->Normal_value,
                                            cs,
                                        ) && iv.len() as int == 0 + crate::grammar::docs_ext(cs);
                                    assert(crate::grammar::attr_covered(
                                        v,
                                        i as int,
                                        a@,
                                        crate::grammar::AttrCover::Normal { inner: ics },
                                    ));
                                    assert(crate::grammar::attr_sourced(
                                        v,
                                        i as int,
                                        i as int + 3,
                                        a@,
                                    ));
                                }
                                Ok((a, i + 3))
                            },
                            Err(e) => Err(e),
                        }
                    },
                    _ => Err(ParseError::MalformedAttribute { pos: position_at(toks, i + 2) }),
                }
            },
            _ => Err(ParseError::MalformedAttribute { pos: position_at(toks, i) }),
        }
    }
}

impl RSXAttributes {
    /// Parse the attribute list between a tag name and the closing `>` or
    /// `/>`, in encounter order, without de-duplication.
    #[verifier::loop_isolation(false)]
    pub fn parse(toks: &Vec<TokenTree>, i: usize) -> (r: Result<
        (RSXAttributes, usize),
        ParseError,
    >)
        ensures
            r matches Ok((a, j)) ==> i <= j <= toks@.len() && attrs_exit(
                toks_view(toks@),
                j as int,
            ),
            r matches Ok((a, j)) ==> crate::node::wf_attrs(a@),
            r matches Ok((a, j)) ==> crate::grammar::attrs_sourced(
                toks_view(toks@),
                i as int,
                j as int,
                a@,
            ),
            r matches Ok((a, j)) ==> (attr_list_shape(toks_view(toks@), i as int, j as int)
                && attrs_match_forms(
                a@,
                attr_list_forms(toks_view(toks@), i as int, j as int),
            )),
            forall|j2: int|
                (#[trigger] attr_list_shape(toks_view(toks@), i as int, j2) && attr_values_plain(
                    toks_view(toks@),
                    i as int,
                    j2,
                )) ==> (r matches Ok((a, jj)) && jj == j2 && attrs_match_forms(
                    a@,
                    attr_list_forms(toks_view(toks@), i as int, j2),
                )),
            attrs_exit(toks_view(toks@), i as int) ==> (r matches Ok((a, j)) && j == i && a@
                =~= Seq::<SpecAttr>::empty()),
            i >= toks@.len() ==> (r matches Err(ParseError::MalformedAttribute { .. })),
        decreases crate::tokens::suffix_size(toks@, i as int), 1int,
    {
        broadcast use crate::tokens::group_token_views;

        let n = toks.len();
        let ghost v = toks_view(toks@);
        if i >= n {
            proof {
                assert forall|j2: int|
                    (#[trigger] attr_list_shape(v, i as int, j2) && attr_values_plain(
                        v,
                        i as int,
                        j2,
                    )) implies false by {
                    assert(j2 >= i);
                }
            }
            // The loop's first probe would find no attribute to start here.
            return Err(ParseError::MalformedAttribute { pos: 0 });
        }
        let mut entries: Vec<RSXAttribute> = Vec::new();
        let mut j = i;
        let ghost mut acov: Seq<crate::grammar::AttrCover> = Seq::empty();
        while !(peek_punct(toks, j, '>') || (peek_punct(toks, j, '/') && peek_punct(
            toks,
            j + 1,
            '>',
        )))
            invariant
                i <= j <= n,
                crate::node::wf_attrs(attrs_view(entries@)),
                attr_steps(v, i as int, j as int),
                attrs_match_forms(attrs_view(entries@), attr_list_forms(v, i as int, j as int)),
                crate::grammar::attrs_covered(v, i as int, attrs_view(entries@), acov),
                j as int == i + crate::grammar::attrs_ext(acov),
                attrs_exit(toks_view(toks@), i as int) ==> (j == i && entries@.len() == 0),
            decreases n - j,
        {
            proof {
                crate::tokens::lemma_suffix_size_mono(toks@, i as int, j as int);
            }
            match RSXAttribute::parse(toks, j) {
                Ok((a, j2)) => {
                    proof {
                        lemma_attrs_view_push(entries@, a);
                        crate::node::lemma_wf_attrs_push(attrs_view(entries@), attr_view(a));
                        // the step taken at `j` extends the walk and its forms
                        assert(attr_steps(v, j2 as int, j2 as int));
                        assert(attr_list_forms(v, j2 as int, j2 as int) =~= Seq::<
                            SpecAttrForm,
                        >::empty());
                        let f = if spread_shape(v, j as int) {
                            SpecAttrForm::Spread {
                                ident: v[j as int]->Group_tokens[2]->Ident_name,
                                ident_pos: v[j as int]->Group_tokens[2]->Ident_pos,
                            }
                        } else {
                            SpecAttrForm::Normal {
                                name: v[j as int]->Ident_name,
                                name_pos: v[j as int]->Ident_pos,
                                interior: v[j as int + 2]->Group_tokens,
                            }
                        };
                        if spread_shape(v, j as int) {
                            assert(attr_steps(v, j as int, j2 as int));
                            assert(attr_list_forms(v, j as int, j2 as int) =~= seq![f]);
                        } else {
                            assert(attr_steps(v, j as int, j2 as int));
                            assert(attr_list_forms(v, j as int, j2 as int) =~= seq![f]);
                        }
                        assert(attr_matches_form(attr_view(a), f));
                        lemma_attr_steps_extend(v, i as int, j as int, j2 as int);
                        assert(attr_list_forms(v, i as int, j2 as int) =~= attr_list_forms(
                            v,
                            i as int,
                            j as int,
                        ).push(f));
                        lemma_match_push(
                            attrs_view(entries@),
                            attr_list_forms(v, i as int, j as int),
                            attr_view(a),
                            f,
                        );
                        let ac = choose|c: crate::grammar::AttrCover|
                            crate::grammar::attr_covered(v, j as int, attr_view(a), c) && j2 as int
                                == j + crate::grammar::attr_ext(c);
                        crate::grammar::lemma_attrs_covered_snoc(
                            v,
                            i as int,
                            attrs_view(entries@),
                            acov,
                            attr_view(a),
                            ac,
                        );
                        acov = acov.push(ac);
                    }
                    entries.push(a);
                    j = j2;
                },
                Err(e) => {
                    proof {
                        assert forall|j2: int|
                            (#[trigger] attr_list_shape(v, i as int, j2) && attr_values_plain(
                                v,
                                i as int,
                                j2,
                            )) implies false by {
                            lemma_attr_steps_align(v, i as int, j as int, j2);
                        }
                    }
                    return Err(e);
                },
            }
        }
        proof {
            assert forall|j2: int|
                (#[trigger] attr_list_shape(v, i as int, j2) && attr_values_plain(
                    v,
                    i as int,
                    j2,
                )) implies j2 == j as int by {
                lemma_attr_steps_align(v, i as int, j as int, j2);
            }
            assert(crate::grammar::attrs_sourced(
                v,
                i as int,
                j as int,
                attrs_view(entries@),
            ));
        }
        Ok((RSXAttributes(entries), j))
    }

    /// Append the synthetic `children` attribute when, and only when, the
    /// child list is non-empty.  A node without children gets no `children`
    /// attribute at all: absence is meaningful, not an empty collection.
    /// When children exist, the entry is appended after every explicit
    /// attribute, never prepended.
    pub fn with_children(self, children: ExprNode) -> (r: RSXAttributes)
        ensures
            children@.len() == 0 ==> r@ =~= self@,
            children@.len() > 0 ==> r@ =~= self@.push(
                SpecAttr::Normal { name: "children"@, name_pos: 0, value: children@ },
            ),
    {
        broadcast use crate::raw_expr::group_seg_views;

        if children.0.len() == 0 {
            self
        } else {
            let entry = RSXAttribute::Normal {
                name: "children".to_owned(),
                name_pos: 0,
                value: children,
            };
            proof {
                lemma_attrs_view_push(self.0@, entry);
            }
            let mut v = self.0;
            v.push(entry);
            RSXAttributes(v)
        }
    }
}

impl RSXAttribute {
    /// Append the statement this attribute contributes to an emitted
    /// attribute block: `__attrs.push(("name", value));` for a normal
    /// entry, `__attrs.extend(ident);` for a spread.
    pub fn to_stmt_tokens(&self, out: &mut Vec<TokenTree>)
        ensures
            toks_view(final(out)@) =~= toks_view(old(out)@) + spec_attr_stmt(self@),
        decreases *self, 0int,
    {
        match self {
            RSXAttribute::Normal { name, name_pos, value } => {
                let mut tup: Vec<TokenTree> = Vec::new();
                push_tok(&mut tup, TokenTree::LitStr { value: name.clone(), pos: *name_pos });
                push_punct(&mut tup, ',');
                value.to_tokens(&mut tup);
                proof {
                    assert(toks_view(tup@) =~= seq![
                        SpecToken::LitStr { value: name@, pos: *name_pos },
                        crate::emit::punct_alone(','),
                    ] + crate::emit::spec_doc_tokens(doc_view(*value)));
                }
                let mut args: Vec<TokenTree> = Vec::new();
                push_tok(
                    &mut args,
                    TokenTree::Group { delim: Delimiter::Parenthesis, pos: 0, tokens: tup },
                );
                push_ident(out, "__attrs");
                push_punct(out, '.');
                push_ident(out, "push");
                push_tok(
                    out,
                    TokenTree::Group { delim: Delimiter::Parenthesis, pos: 0, tokens: args },
                );
                push_punct(out, ';');
                proof {
                    assert(toks_view(out@) =~= toks_view(old(out)@) + spec_attr_stmt(
                        attr_view(*self),
                    ));
                }
            },
            RSXAttribute::Spread { ident, ident_pos } => {
                let mut args: Vec<TokenTree> = Vec::new();
                push_tok(&mut args, TokenTree::Ident { name: ident.clone(), pos: *ident_pos });
                push_ident(out, "__attrs");
                push_punct(out, '.');
                push_ident(out, "extend");
                push_tok(
                    out,
                    TokenTree::Group { delim: Delimiter::Parenthesis, pos: 0, tokens: args },
                );
                push_punct(out, ';');
            },
        }
    }
}

impl RSXAttributes {
    /// Append the statements of all attributes, in encounter order.
    pub fn to_stmt_tokens(&self, out: &mut Vec<TokenTree>)
        ensures
            toks_view(final(out)@) =~= toks_view(old(out)@) + spec_attr_stmts(self@),
        decreases *self, 1int,
    {
        broadcast use group_attr_views;

        let n = self.0.len();
        let mut i: usize = 0;
        while i < n
            invariant
                n == self.0.len(),
                i <= n,
                toks_view(out@) =~= toks_view(old(out)@) + spec_attr_stmts(
                    attrs_view(self.0@.subrange(0, i as int)),
                ),
            decreases n - i,
        {
            self.0[i].to_stmt_tokens(out);
            proof {
                let prefix = self.0@.subrange(0, i as int);
                assert(prefix.push(self.0@[i as int]) =~= self.0@.subrange(0, i + 1));
                lemma_attrs_view_push(prefix, self.0@[i as int]);
                crate::emit::lemma_attr_stmts_push(attrs_view(prefix), attr_view(self.0@[i as int]));
            }
            i = i + 1;
        }
        proof {
            assert(self.0@.subrange(0, n as int) =~= self.0@);
        }
    }
}

/// `attrs_view` maps `push` to `push`.
pub proof fn lemma_attrs_view_push(s: Seq<RSXAttribute>, a: RSXAttribute)
    ensures
        attrs_view(s.push(a)) =~= attrs_view(s).push(attr_view(a)),
{
    broadcast use group_attr_views;

    lemma_attrs_view_index(s.push(a));
    assert forall|i: int| 0 <= i < s.len() implies attrs_view(s.push(a))[i] == attrs_view(
        s,
    )[i] by {
        assert(s.push(a)[i] == s[i]);
    }
}

} // verus!
