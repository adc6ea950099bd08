//! What the emitter produces, stated mathematically.
//!
//! Every element or component becomes a call
//! `create_element(tag, { let mut __attrs = Vec::new(); ...; __attrs })`
//! whose block pushes one `(name, value)` pair per normal attribute and
//! extends with the source of each spread, in encounter order.  Literal
//! runs pass through unchanged; nested groups and raw expressions are
//! re-wrapped in their original delimiter at their original position.
//! Synthesized tokens carry position handle 0; tokens taken from the input
//! keep their own.

use vstd::prelude::*;

use crate::attributes::RSXAttributes;
use crate::attributes::SpecAttr;
use crate::component::SpecComponent;
use crate::node::SpecNode;
use crate::raw_expr::SpecSeg;
use crate::tokens::tok_no_lt;
use crate::tokens::toks_no_lt;
use crate::tokens::toks_view;
use crate::tokens::Delimiter;
use crate::tokens::SpecToken;
use crate::tokens::TokenTree;

verus! {

/// A synthesized stand-alone punctuation token.
pub open spec fn punct_alone(ch: char) -> SpecToken {
    SpecToken::Punct { ch, joint: false, pos: 0 }
}

/// A synthesized punctuation token glued to its successor.
pub open spec fn punct_joint(ch: char) -> SpecToken {
    SpecToken::Punct { ch, joint: true, pos: 0 }
}

/// A synthesized identifier token.
pub open spec fn synth_ident(name: Seq<char>) -> SpecToken {
    SpecToken::Ident { name, pos: 0 }
}

/// The statements that open every emitted attribute block:
/// `let mut __attrs = Vec::new();`.
pub open spec fn spec_attrs_prologue() -> Seq<SpecToken> {
    seq![
        synth_ident("let"@),
        synth_ident("mut"@),
        synth_ident("__attrs"@),
        punct_alone('='),
        synth_ident("Vec"@),
        punct_joint(':'),
        punct_alone(':'),
        synth_ident("new"@),
        SpecToken::Group { delim: Delimiter::Parenthesis, pos: 0, tokens: Seq::empty() },
        punct_alone(';'),
    ]
}

/// The statement one attribute contributes to the block:
/// `__attrs.push(("name", value));` or `__attrs.extend(ident);`.
pub open spec fn spec_attr_stmt(a: SpecAttr) -> Seq<SpecToken>
    decreases a, 0int,
{
    match a {
        SpecAttr::Normal { name, name_pos, value } => seq![
            synth_ident("__attrs"@),
            punct_alone('.'),
            synth_ident("push"@),
            SpecToken::Group {
                delim: Delimiter::Parenthesis,
                pos: 0,
                tokens: seq![
                    SpecToken::Group {
                        delim: Delimiter::Parenthesis,
                        pos: 0,
                        tokens: seq![SpecToken::LitStr { value: name, pos: name_pos }, punct_alone(',')]
                            + spec_doc_tokens(value),
                    },
                ],
            },
            punct_alone(';'),
        ],
        SpecAttr::Spread { ident, ident_pos } => seq![
            synth_ident("__attrs"@),
            punct_alone('.'),
            synth_ident("extend"@),
            SpecToken::Group {
                delim: Delimiter::Parenthesis,
                pos: 0,
                tokens: seq![SpecToken::Ident { name: ident, pos: ident_pos }],
            },
            punct_alone(';'),
        ],
    }
}

/// The statements of all attributes, in encounter order.
pub open spec fn spec_attr_stmts(s: Seq<SpecAttr>) -> Seq<SpecToken>
    decreases s, 1int,
{
    if s.len() == 0 {
        Seq::empty()
    } else {
        spec_attr_stmt(s[0]) + spec_attr_stmts(s.drop_first())
    }
}

/// The whole constructor call of one element or component:
/// `create_element(tag, { let mut __attrs = Vec::new(); ...; __attrs })`.
pub open spec fn spec_tag_call(tag: Seq<char>, tag_pos: u32, attrs: Seq<SpecAttr>) -> Seq<
    SpecToken,
>
    decreases attrs, 2int,
{
    seq![
        synth_ident("create_element"@),
        SpecToken::Group {
            delim: Delimiter::Parenthesis,
            pos: 0,
            tokens: seq![
                SpecToken::Ident { name: tag, pos: tag_pos },
                punct_alone(','),
                SpecToken::Group {
                    delim: Delimiter::Brace,
                    pos: 0,
                    tokens: spec_attrs_prologue() + spec_attr_stmts(attrs) + seq![
                        synth_ident("__attrs"@),
                    ],
                },
            ],
        },
    ]
}

/// The emission of one node.
pub open spec fn spec_node_tokens(n: SpecNode) -> Seq<SpecToken>
    decreases n, 3int,
{
    match n {
        SpecNode::Element(e) => spec_tag_call(e.tag, e.tag_pos, e.attributes),
        SpecNode::Component(c) => spec_tag_call(c.tag(), c.tag_pos(), c.attributes()),
        SpecNode::Text { value, pos } => seq![SpecToken::LitStr { value, pos }],
        SpecNode::RawExpr { body, pos } => seq![
            SpecToken::Group { delim: Delimiter::Brace, pos, tokens: spec_doc_tokens(body) },
        ],
    }
}

/// The emission of one segment.
pub open spec fn spec_seg_tokens(s: SpecSeg) -> Seq<SpecToken>
    decreases s, 4int,
{
    match s {
        SpecSeg::Normal(run) => run,
        SpecSeg::RSX(n) => spec_node_tokens(n),
        SpecSeg::Group { delimiter, pos, inner } => seq![
            SpecToken::Group { delim: delimiter, pos, tokens: spec_doc_tokens(inner) },
        ],
    }
}

/// The emission of a value sub-document: its segments' emissions in order.
pub open spec fn spec_doc_tokens(d: Seq<SpecSeg>) -> Seq<SpecToken>
    decreases d, 5int,
{
    if d.len() == 0 {
        Seq::empty()
    } else {
        spec_seg_tokens(d[0]) + spec_doc_tokens(d.drop_first())
    }
}

/// Append one token; the sequence image grows by the token's image.
pub fn push_tok(out: &mut Vec<TokenTree>, t: TokenTree)
    ensures
        toks_view(final(out)@) =~= toks_view(old(out)@).push(t@),
{
    proof {
        crate::tokens::lemma_toks_view_push(out@, t);
    }
    out.push(t);
}

/// Append a synthesized stand-alone punctuation token.
pub fn push_punct(out: &mut Vec<TokenTree>, ch: char)
    ensures
        toks_view(final(out)@) =~= toks_view(old(out)@).push(punct_alone(ch)),
{
    push_tok(out, TokenTree::Punct { ch, joint: false, pos: 0 });
}

/// Append a synthesized punctuation token glued to its successor.
pub fn push_joint_punct(out: &mut Vec<TokenTree>, ch: char)
    ensures
        toks_view(final(out)@) =~= toks_view(old(out)@).push(punct_joint(ch)),
{
    push_tok(out, TokenTree::Punct { ch, joint: true, pos: 0 });
}

/// Append a synthesized identifier token.
pub fn push_ident(out: &mut Vec<TokenTree>, name: &str)
    ensures
        toks_view(final(out)@) =~= toks_view(old(out)@).push(synth_ident(name@)),
{
    push_tok(out, TokenTree::Ident { name: name.to_owned(), pos: 0 });
}

/// Append the whole constructor call of one element or component, per
/// [`spec_tag_call`].
pub fn emit_tag_call(tag: &String, tag_pos: u32, attrs: &RSXAttributes, out: &mut Vec<TokenTree>)
    ensures
        toks_view(final(out)@) =~= toks_view(old(out)@) + spec_tag_call(tag@, tag_pos, attrs@),
    decreases *attrs, 2int,
{
    let mut block: Vec<TokenTree> = Vec::new();
    push_ident(&mut block, "let");
    push_ident(&mut block, "mut");
    push_ident(&mut block, "__attrs");
    push_punct(&mut block, '=');
    push_ident(&mut block, "Vec");
    push_joint_punct(&mut block, ':');
    push_punct(&mut block, ':');
    push_ident(&mut block, "new");
    push_tok(
        &mut block,
        TokenTree::Group { delim: Delimiter::Parenthesis, pos: 0, tokens: Vec::new() },
    );
    push_punct(&mut block, ';');
    proof {
        assert(toks_view(block@) =~= spec_attrs_prologue());
    }
    attrs.to_stmt_tokens(&mut block);
    push_ident(&mut block, "__attrs");
    proof {
        assert(toks_view(block@) =~= spec_attrs_prologue() + spec_attr_stmts(attrs@) + seq![
            synth_ident("__attrs"@),
        ]);
    }
    let ghost block_view = toks_view(block@);
    let mut args: Vec<TokenTree> = Vec::new();
    push_tok(&mut args, TokenTree::Ident { name: tag.clone(), pos: tag_pos });
    push_punct(&mut args, ',');
    push_tok(&mut args, TokenTree::Group { delim: Delimiter::Brace, pos: 0, tokens: block });
    proof {
        assert(toks_view(args@) =~= seq![
            SpecToken::Ident { name: tag@, pos: tag_pos },
            punct_alone(','),
            SpecToken::Group { delim: Delimiter::Brace, pos: 0, tokens: block_view },
        ]);
    }
    push_ident(out, "create_element");
    push_tok(out, TokenTree::Group { delim: Delimiter::Parenthesis, pos: 0, tokens: args });
    proof {
        assert(toks_view(out@) =~= toks_view(old(out)@) + spec_tag_call(tag@, tag_pos, attrs@));
    }
}

/// `spec_doc_tokens` distributes over concatenation.
pub proof fn lemma_doc_tokens_add(a: Seq<SpecSeg>, b: Seq<SpecSeg>)
    ensures
        spec_doc_tokens(a + b) =~= spec_doc_tokens(a) + spec_doc_tokens(b),
    decreases a,
{
    if a.len() == 0 {
        assert(a + b =~= b);
    } else {
        lemma_doc_tokens_add(a.drop_first(), b);
        assert((a + b).drop_first() =~= a.drop_first() + b);
        assert((a + b)[0] == a[0]);
    }
}

/// `spec_doc_tokens` of a `push` appends the segment's emission.
pub proof fn lemma_doc_tokens_push(d: Seq<SpecSeg>, s: SpecSeg)
    ensures
        spec_doc_tokens(d.push(s)) =~= spec_doc_tokens(d) + spec_seg_tokens(s),
{
    lemma_doc_tokens_add(d, seq![s]);
    assert(d.push(s) =~= d + seq![s]);
    assert(seq![s].drop_first().len() == 0);
    assert(spec_doc_tokens(seq![s].drop_first()) =~= Seq::<SpecToken>::empty());
    assert(spec_doc_tokens(seq![s]) =~= spec_seg_tokens(s));
}

/// A segment that holds no embedded markup node anywhere, and whose literal
/// tokens contain no markup-open symbol at any depth.
pub open spec fn seg_markup_free(s: SpecSeg) -> bool
    decreases s,
{
    match s {
        SpecSeg::Normal(run) => toks_no_lt(run),
        SpecSeg::RSX(n) => false,
        SpecSeg::Group { inner, .. } => doc_markup_free(inner),
    }
}

/// A fully rewritten document: no embedded markup node remains in any
/// segment, and no literal run holds a markup-open symbol.
pub open spec fn doc_markup_free(d: Seq<SpecSeg>) -> bool
    decreases d, 1int,
{
    forall|i: int| 0 <= i < d.len() ==> seg_markup_free(#[trigger] d[i])
}

/// The emission of a markup-free segment holds no markup-open symbol.
pub proof fn lemma_seg_emit_markup_free(s: SpecSeg)
    requires
        seg_markup_free(s),
    ensures
        toks_no_lt(spec_seg_tokens(s)),
    decreases s, 0int,
{
    match s {
        SpecSeg::Normal(run) => {},
        SpecSeg::RSX(n) => {
            assert(false);
        },
        SpecSeg::Group { delimiter, pos, inner } => {
            lemma_emit_markup_free(inner);
            assert(tok_no_lt(
                SpecToken::Group { delim: delimiter, pos, tokens: spec_doc_tokens(inner) },
            ));
        },
    }
}

/// Emission introduces no markup: a fully rewritten document (one with no
/// embedded markup node left, and no markup-open symbol in its literal runs)
/// emits a token sequence free of the markup-open symbol at every depth.
/// Through `lemma_no_lt_harmless` and the round-trip contract of the
/// rewriter, running the rewriter on that emission returns it
/// token-for-token unchanged: on fully rewritten documents, emission
/// followed by rewriting is a no-op.
pub proof fn lemma_emit_markup_free(d: Seq<SpecSeg>)
    requires
        doc_markup_free(d),
    ensures
        toks_no_lt(spec_doc_tokens(d)),
    decreases d, 1int,
{
    if d.len() > 0 {
        lemma_seg_emit_markup_free(d[0]);
        assert(doc_markup_free(d.drop_first())) by {
            assert forall|k: int| 0 <= k < d.drop_first().len() implies seg_markup_free(
                #[trigger] d.drop_first()[k],
            ) by {
                assert(d.drop_first()[k] == d[k + 1]);
            }
        }
        lemma_emit_markup_free(d.drop_first());
        let a = spec_seg_tokens(d[0]);
        let b = spec_doc_tokens(d.drop_first());
        assert forall|k: int| 0 <= k < spec_doc_tokens(d).len() implies tok_no_lt(
            #[trigger] spec_doc_tokens(d)[k],
        ) by {
            assert(spec_doc_tokens(d) == a + b);
            if k < a.len() {
                assert((a + b)[k] == a[k]);
            } else {
                assert((a + b)[k] == b[k - a.len()]);
            }
        }
    }
}

/// `spec_attr_stmts` distributes over concatenation.
pub proof fn lemma_attr_stmts_add(a: Seq<SpecAttr>, b: Seq<SpecAttr>)
    ensures
        spec_attr_stmts(a + b) =~= spec_attr_stmts(a) + spec_attr_stmts(b),
    decreases a,
{
    if a.len() == 0 {
        assert(a + b =~= b);
    } else {
        lemma_attr_stmts_add(a.drop_first(), b);
        assert((a + b).drop_first() =~= a.drop_first() + b);
        assert((a + b)[0] == a[0]);
    }
}

/// `spec_attr_stmts` of a `push` appends the attribute's statement.
pub proof fn lemma_attr_stmts_push(s: Seq<SpecAttr>, a: SpecAttr)
    ensures
        spec_attr_stmts(s.push(a)) =~= spec_attr_stmts(s) + spec_attr_stmt(a),
{
    lemma_attr_stmts_add(s, seq![a]);
    assert(s.push(a) =~= s + seq![a]);
    assert(seq![a].drop_first().len() == 0);
    assert(spec_attr_stmts(seq![a].drop_first()) =~= Seq::<SpecToken>::empty());
    assert(spec_attr_stmts(seq![a]) =~= spec_attr_stmt(a));
}

} // verus!
