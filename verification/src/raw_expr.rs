//! The value sub-document: the parsed content of a brace-delimited value
//! position (an attribute value, an expression block, or the whole input of
//! the rewriter).  It is an ordered list of segments, each a run of literal
//! host tokens, an embedded markup node, or a nested delimited group whose
//! interior has itself been rewritten.

use vstd::prelude::*;

use crate::emit::spec_doc_tokens;
use crate::emit::spec_seg_tokens;
use crate::error::ParseError;
use crate::node::node_view;
use crate::node::Node;
use crate::node::SpecNode;
use crate::tokens::harmless_lt_at;
use crate::tokens::toks_harmless_lt;
use crate::tokens::toks_view;
use crate::tokens::Delimiter;
use crate::tokens::SpecToken;
use crate::tokens::TokenTree;

verus! {

/// One segment of a value sub-document.
#[derive(Debug, PartialEq)]
pub enum PartialExpr {
    /// A maximal run of plain host tokens; emitted unchanged.
    Normal(Vec<TokenTree>),
    /// An embedded markup node; emitted as its constructor call.
    RSX(Box<Node>),
    /// A nested delimited block whose interior was recursively rewritten.
    /// Delimiter and source position are kept so the emitted group has the
    /// same bracket shape and diagnostics point at the original source.
    ExprNode { delimiter: Delimiter, pos: u32, inner: ExprNode },
}

/// A parsed value sub-document: the ordered segments of one brace-delimited
/// region (or of the whole top-level input).
#[derive(Debug, PartialEq)]
pub struct ExprNode(pub Vec<PartialExpr>);

/// The mathematical image of a segment.
pub enum SpecSeg {
    Normal(Seq<SpecToken>),
    RSX(SpecNode),
    Group { delimiter: Delimiter, pos: u32, inner: Seq<SpecSeg> },
}

/// The image of one segment.
pub open spec fn seg_view(p: PartialExpr) -> SpecSeg
    decreases p,
{
    match p {
        PartialExpr::Normal(run) => SpecSeg::Normal(toks_view(run@)),
        PartialExpr::RSX(node) => SpecSeg::RSX(node_view(*node)),
        PartialExpr::ExprNode { delimiter, pos, inner } => SpecSeg::Group {
            delimiter,
            pos,
            inner: segs_view(inner.0@),
        },
    }
}

/// The image of a segment sequence.
pub open spec fn segs_view(s: Seq<PartialExpr>) -> Seq<SpecSeg>
    decreases s,
{
    if s.len() == 0 {
        Seq::empty()
    } else {
        seq![seg_view(s[0])] + segs_view(s.drop_first())
    }
}

/// The image of a value sub-document.
pub open spec fn doc_view(d: ExprNode) -> Seq<SpecSeg>
    decreases d,
{
    segs_view(d.0@)
}

impl View for PartialExpr {
    type V = SpecSeg;

    open spec fn view(&self) -> SpecSeg {
        seg_view(*self)
    }
}

impl View for ExprNode {
    type V = Seq<SpecSeg>;

    open spec fn view(&self) -> Seq<SpecSeg> {
        doc_view(*self)
    }
}

/// Whether a segment is a literal run.
pub open spec fn is_normal_seg(s: SpecSeg) -> bool {
    s matches SpecSeg::Normal(..)
}

/// A tidy segment: a literal run is non-empty, and a nested group's
/// interior is tidy in turn.
pub open spec fn seg_tidy(s: SpecSeg) -> bool
    decreases s, 0int,
{
    match s {
        SpecSeg::Normal(run) => run.len() > 0,
        SpecSeg::RSX(n) => true,
        SpecSeg::Group { inner, .. } => doc_tidy(inner),
    }
}

/// A tidy document: literal runs are maximal — every run is non-empty and
/// no two runs are adjacent — here and inside every nested group.
pub open spec fn doc_tidy(d: Seq<SpecSeg>) -> bool
    decreases d, 1int,
{
    &&& (forall|k: int| 0 <= k < d.len() ==> seg_tidy(#[trigger] d[k]))
    &&& (forall|k: int|
        0 <= k && k + 1 < d.len() ==> !(#[trigger] is_normal_seg(d[k]) && is_normal_seg(
            d[k + 1],
        )))
}

/// Appending a tidy segment that does not continue a literal run keeps a
/// document tidy.
pub proof fn lemma_doc_tidy_push(d: Seq<SpecSeg>, s: SpecSeg)
    requires
        doc_tidy(d),
        seg_tidy(s),
        d.len() > 0 ==> !(is_normal_seg(d.last()) && is_normal_seg(s)),
    ensures
        doc_tidy(d.push(s)),
{
    assert forall|k: int| 0 <= k < d.push(s).len() implies seg_tidy(#[trigger] d.push(s)[k]) by {
        if k < d.len() {
            assert(d.push(s)[k] == d[k]);
        } else {
            assert(d.push(s)[k] == s);
        }
    }
    assert forall|k: int|
        0 <= k && k + 1 < d.push(s).len() implies !(#[trigger] is_normal_seg(d.push(s)[k])
        && is_normal_seg(d.push(s)[k + 1])) by {
        assert(d.push(s)[k] == d[k]);
        if k + 1 < d.len() {
            assert(d.push(s)[k + 1] == d[k + 1]);
        } else {
            assert(d.push(s)[k + 1] == s);
            assert(d[k] == d.last());
        }
    }
}

/// Parse one bounded token region as a value sub-document.
///
/// The two-speed loop of the whole system: at `<`, a speculative node parse
/// is attempted; on success the node becomes an embedded segment, on a
/// recoverable failure the `<` is an ordinary token.  Any other token is
/// taken one at a time: a delimited group is recursively rewritten and kept
/// with its delimiter and position, and everything else accumulates into
/// maximal literal runs.  A failure after a construct has committed to being
/// markup aborts the whole parse.
///
/// The contract is the round-trip guarantee: a region in which no `<` opens
/// a viable markup construct at any depth — in particular any region with no
/// `<` at all, and comparisons such as `a < b` whose trailing identifier
/// leaves no room for an opening tag — parses successfully into a document
/// that emits token-for-token identically to its input.  Every successful
/// parse is moreover tied to its input by the source relation of
/// [`crate::grammar`]: each segment covers exactly the tokens it consumed,
/// so nothing is lost, duplicated, reordered or fabricated.
#[verifier::loop_isolation(false)]
pub fn rewrite_rsx(toks: &Vec<TokenTree>) -> (r: Result<ExprNode, ParseError>)
    ensures
        toks_harmless_lt(toks_view(toks@)) ==> (r matches Ok(d) && spec_doc_tokens(doc_view(d))
            =~= toks_view(toks@)),
        r matches Ok(d) ==> crate::node::wf_doc(doc_view(d)),
        r matches Ok(d) ==> doc_tidy(doc_view(d)),
        r matches Ok(d) ==> crate::grammar::doc_sourced(
            toks_view(toks@),
            0,
            toks@.len() as int,
            doc_view(d),
        ),
        r matches Err(e) ==> !crate::error::spec_recoverable(e),
        (toks@.len() == 4 && crate::tag::self_close_shape(toks_view(toks@), 0)) ==> (r matches
            Ok(d) && doc_view(d) =~= seq![
            SpecSeg::RSX(crate::node::self_close_node(toks_view(toks@), 0)),
        ]),
        r matches Ok(d) ==> ((toks@.len() == 1 && toks_view(toks@)[0] matches SpecToken::Group {
            ..
        }) ==> (doc_view(d).len() == 1 && (doc_view(d)[0] matches SpecSeg::Group { .. })
            && doc_view(d)[0]->Group_delimiter == toks_view(toks@)[0]->Group_delim && doc_view(
            d,
        )[0]->Group_pos == toks_view(toks@)[0]->Group_pos)),
    decreases crate::tokens::seq_size(toks@), 5int,
{
    broadcast use crate::tokens::group_token_views;
    broadcast use group_seg_views;

    let n = toks.len();
    let mut segs: Vec<PartialExpr> = Vec::new();
    let mut run: Vec<TokenTree> = Vec::new();
    let mut i: usize = 0;
    let ghost mut dcov: Seq<crate::grammar::SegCover> = Seq::empty();
    while i < n
        invariant
            i <= n,
            crate::node::wf_doc(segs_view(segs@)),
            doc_tidy(segs_view(segs@)),
            segs@.len() > 0 ==> !is_normal_seg(segs_view(segs@).last()),
            crate::grammar::doc_covered(toks_view(toks@), 0, segs_view(segs@), dcov),
            i as int - run@.len() == crate::grammar::docs_ext(dcov),
            run@.len() <= i,
            toks_view(run@) =~= toks_view(toks@).subrange(i as int - run@.len(), i as int),
            forall|p: int|
                i as int - run@.len() <= p < i as int ==> !(#[trigger] toks_view(toks@)[p] matches
                    SpecToken::Group { .. }),
            toks_harmless_lt(toks_view(toks@)) ==> spec_doc_tokens(segs_view(segs@)) + toks_view(
                run@,
            ) =~= toks_view(toks@).subrange(0, i as int),
            (toks@.len() == 4 && crate::tag::self_close_shape(toks_view(toks@), 0)) ==> ((i == 0
                && segs@.len() == 0 && run@.len() == 0) || (i == 4 && segs_view(segs@) =~= seq![
                SpecSeg::RSX(crate::node::self_close_node(toks_view(toks@), 0)),
            ] && run@.len() == 0)),
            (toks@.len() == 1 && toks_view(toks@)[0] matches SpecToken::Group { .. }) ==> ((i == 0
                && segs@.len() == 0 && run@.len() == 0) || (i == 1 && segs@.len() == 1 && (
            segs_view(segs@)[0] matches SpecSeg::Group { .. }) && segs_view(
                segs@,
            )[0]->Group_delimiter == toks_view(toks@)[0]->Group_delim && segs_view(
                segs@,
            )[0]->Group_pos == toks_view(toks@)[0]->Group_pos && run@.len() == 0)),
        decreases n - i,
    {
        proof {
            crate::tokens::lemma_suffix_size_all(toks@);
            crate::tokens::lemma_suffix_size_mono(toks@, 0, i as int);
        }
        let ghost pre = spec_doc_tokens(segs_view(segs@)) + toks_view(run@);
        let mut parsed: Option<(Node, usize)> = None;
        if crate::cursor::peek_punct(toks, i, '<') {
            match Node::parse(toks, i) {
                Ok(p) => {
                    proof {
                        // In a harmless region this `<` is not followed by an
                        // identifier, or sits at the region's very end, and
                        // the node parse cannot succeed.
                        if toks_harmless_lt(toks_view(toks@)) {
                            assert(harmless_lt_at(toks_view(toks@), i as int));
                            assert(false);
                        }
                    }
                    parsed = Some(p);
                },
                Err(e) => {
                    if !e.is_recoverable() {
                        return Err(e);
                    }
                },
            }
        }
        match parsed {
            Some((node, j)) => {
                // Only reachable through the `<` branch, so the round-trip
                // invariant holds vacuously here.
                if run.len() > 0 {
                    let finished = run;
                    run = Vec::new();
                    proof {
                        lemma_segs_view_push(segs@, PartialExpr::Normal(finished));
                        crate::node::lemma_wf_doc_push(
                            segs_view(segs@),
                            seg_view(PartialExpr::Normal(finished)),
                        );
                        lemma_doc_tidy_push(
                            segs_view(segs@),
                            seg_view(PartialExpr::Normal(finished)),
                        );
                        let v = toks_view(toks@);
                        let fl = finished@.len() as int;
                        let rc = crate::grammar::SegCover::Run { ext: fl };
                        assert(crate::grammar::seg_covered(
                            v,
                            i as int - fl,
                            seg_view(PartialExpr::Normal(finished)),
                            rc,
                        ));
                        crate::grammar::lemma_doc_covered_snoc(
                            v,
                            0,
                            segs_view(segs@),
                            dcov,
                            seg_view(PartialExpr::Normal(finished)),
                            rc,
                        );
                        dcov = dcov.push(rc);
                    }
                    segs.push(PartialExpr::Normal(finished));
                }
                let seg = PartialExpr::RSX(Box::new(node));
                proof {
                    lemma_segs_view_push(segs@, seg);
                    crate::node::lemma_wf_doc_push(segs_view(segs@), seg_view(seg));
                    lemma_doc_tidy_push(segs_view(segs@), seg_view(seg));
                    let v = toks_view(toks@);
                    let nc = choose|c: crate::grammar::NodeCover|
                        crate::grammar::node_covered(v, i as int, node@, c) && j as int == i as int
                            + crate::grammar::node_ext(c);
                    assert(crate::grammar::seg_covered(
                        v,
                        i as int,
                        seg_view(seg),
                        crate::grammar::SegCover::Node { c: nc },
                    ));
                    crate::grammar::lemma_doc_covered_snoc(
                        v,
                        0,
                        segs_view(segs@),
                        dcov,
                        seg_view(seg),
                        crate::grammar::SegCover::Node { c: nc },
                    );
                    dcov = dcov.push(crate::grammar::SegCover::Node { c: nc });
                }
                segs.push(seg);
                i = j;
            },
            None => {
                let step_group: bool = match &toks[i] {
                    TokenTree::Group { .. } => true,
                    _ => false,
                };
                if step_group {
                    if run.len() > 0 {
                        let finished = run;
                        run = Vec::new();
                        proof {
                            lemma_segs_view_push(segs@, PartialExpr::Normal(finished));
                            crate::emit::lemma_doc_tokens_push(
                                segs_view(segs@),
                                seg_view(PartialExpr::Normal(finished)),
                            );
                            crate::node::lemma_wf_doc_push(
                                segs_view(segs@),
                                seg_view(PartialExpr::Normal(finished)),
                            );
                            lemma_doc_tidy_push(
                                segs_view(segs@),
                                seg_view(PartialExpr::Normal(finished)),
                            );
                            let v = toks_view(toks@);
                            let fl = finished@.len() as int;
                            let rc = crate::grammar::SegCover::Run { ext: fl };
                            assert(crate::grammar::seg_covered(
                                v,
                                i as int - fl,
                                seg_view(PartialExpr::Normal(finished)),
                                rc,
                            ));
                            crate::grammar::lemma_doc_covered_snoc(
                                v,
                                0,
                                segs_view(segs@),
                                dcov,
                                seg_view(PartialExpr::Normal(finished)),
                                rc,
                            );
                            dcov = dcov.push(rc);
                        }
                        segs.push(PartialExpr::Normal(finished));
                    }
                    proof {
                        assert(spec_doc_tokens(segs_view(segs@)) =~= pre);
                    }
                    match &toks[i] {
                        TokenTree::Group { delim, pos, tokens: inner } => {
                            proof {
                                crate::tokens::lemma_group_interior_size(toks@, i as int);
                                if toks_harmless_lt(toks_view(toks@)) {
                                    assert(crate::tokens::tok_interior_harmless(
                                        toks_view(toks@)[i as int],
                                    ));
                                    assert(toks_view(toks@)[i as int] == crate::tokens::tree_view(
                                        toks@[i as int],
                                    ));
                                    assert(toks_view(toks@)[i as int]->Group_tokens == toks_view(
                                        inner@,
                                    ));
                                    assert(toks_harmless_lt(toks_view(inner@)));
                                }
                            }
                            match rewrite_rsx(inner) {
                                Ok(d) => {
                                    let seg = PartialExpr::ExprNode {
                                        delimiter: *delim,
                                        pos: *pos,
                                        inner: d,
                                    };
                                    proof {
                                        lemma_segs_view_push(segs@, seg);
                                        crate::emit::lemma_doc_tokens_push(
                                            segs_view(segs@),
                                            seg_view(seg),
                                        );
                                        crate::node::lemma_wf_doc_push(
                                            segs_view(segs@),
                                            seg_view(seg),
                                        );
                                        lemma_doc_tidy_push(segs_view(segs@), seg_view(seg));
                                        let v = toks_view(toks@);
                                        let iv = v[i as int]->Group_tokens;
                                        let ics = choose|cs: Seq<crate::grammar::SegCover>|
                                            crate::grammar::doc_covered(
                                                iv,
                                                0,
                                                seg_view(seg)->Group_inner,
                                                cs,
                                            ) && iv.len() as int == 0
                                                + crate::grammar::docs_ext(cs);
                                        let gc = crate::grammar::SegCover::Group { inner: ics };
                                        assert(crate::grammar::seg_covered(
                                            v,
                                            i as int,
                                            seg_view(seg),
                                            gc,
                                        ));
                                        crate::grammar::lemma_doc_covered_snoc(
                                            v,
                                            0,
                                            segs_view(segs@),
                                            dcov,
                                            seg_view(seg),
                                            gc,
                                        );
                                        dcov = dcov.push(gc);
                                        if toks_harmless_lt(toks_view(toks@)) {
                                            assert(spec_seg_tokens(seg_view(seg)) =~= seq![
                                                toks_view(toks@)[i as int],
                                            ]);
                                        }
                                        assert(toks_view(toks@).subrange(0, i as int + 1)
                                            =~= toks_view(toks@).subrange(0, i as int) + seq![
                                            toks_view(toks@)[i as int],
                                        ]);
                                    }
                                    segs.push(seg);
                                },
                                Err(e) => {
                                    return Err(e);
                                },
                            }
                        },
                        _ => {
                            proof {
                                assert(false);
                            }
                        },
                    }
                    i = i + 1;
                } else {
                    let ghost run0 = run@;
                    let t = toks[i].clone_tree();
                    proof {
                        crate::tokens::lemma_toks_view_push(run@, t);
                    }
                    run.push(t);
                    proof {
                        assert(spec_doc_tokens(segs_view(segs@)) + toks_view(run@) =~= pre.push(
                            toks_view(toks@)[i as int],
                        ));
                        assert(toks_view(toks@).subrange(0, i as int + 1) =~= toks_view(
                            toks@,
                        ).subrange(0, i as int).push(toks_view(toks@)[i as int]));
                    }
                    i = i + 1;
                }
            },
        }
    }
    let ghost pre = spec_doc_tokens(segs_view(segs@)) + toks_view(run@);
    if run.len() > 0 {
        let finished = run;
        proof {
            lemma_segs_view_push(segs@, PartialExpr::Normal(finished));
            crate::emit::lemma_doc_tokens_push(
                segs_view(segs@),
                seg_view(PartialExpr::Normal(finished)),
            );
            crate::node::lemma_wf_doc_push(
                segs_view(segs@),
                seg_view(PartialExpr::Normal(finished)),
            );
            lemma_doc_tidy_push(
                segs_view(segs@),
                seg_view(PartialExpr::Normal(finished)),
            );
            let v = toks_view(toks@);
            let fl = finished@.len() as int;
            let rc = crate::grammar::SegCover::Run { ext: fl };
            assert(crate::grammar::seg_covered(
                v,
                i as int - fl,
                seg_view(PartialExpr::Normal(finished)),
                rc,
            ));
            crate::grammar::lemma_doc_covered_snoc(
                v,
                0,
                segs_view(segs@),
                dcov,
                seg_view(PartialExpr::Normal(finished)),
                rc,
            );
            dcov = dcov.push(rc);
        }
        segs.push(PartialExpr::Normal(finished));
    }
    proof {
        assert(spec_doc_tokens(segs_view(segs@)) =~= pre);
        assert(toks_view(toks@).subrange(0, n as int) =~= toks_view(toks@));
        assert(crate::grammar::doc_sourced(
            toks_view(toks@),
            0,
            toks@.len() as int,
            segs_view(segs@),
        ));
    }
    Ok(ExprNode(segs))
}

impl ExprNode {
    /// Parse a whole bounded region as a value sub-document; see
    /// [`rewrite_rsx`].
    pub fn parse(toks: &Vec<TokenTree>) -> (r: Result<ExprNode, ParseError>)
        ensures
            toks_harmless_lt(toks_view(toks@)) ==> (r matches Ok(d) && spec_doc_tokens(
                doc_view(d),
            ) =~= toks_view(toks@)),
            r matches Ok(d) ==> crate::node::wf_doc(doc_view(d)),
            r matches Ok(d) ==> doc_tidy(doc_view(d)),
            r matches Ok(d) ==> crate::grammar::doc_sourced(
                toks_view(toks@),
                0,
                toks@.len() as int,
                doc_view(d),
            ),
            r matches Err(e) ==> !crate::error::spec_recoverable(e),
    {
        rewrite_rsx(toks)
    }
}

impl PartialExpr {
    /// Append this segment's emission: a literal run unchanged, an embedded
    /// node as its constructor call, a nested group re-wrapped in its
    /// original delimiter at its original position.
    pub fn to_tokens(&self, out: &mut Vec<TokenTree>)
        ensures
            toks_view(final(out)@) =~= toks_view(old(out)@) + spec_seg_tokens(self@),
        decreases *self, 0int,
    {
        match self {
            PartialExpr::Normal(run) => {
                let mut copy = crate::tokens::clone_tokens(run);
                proof {
                    crate::tokens::lemma_toks_view_add(out@, copy@);
                }
                out.append(&mut copy);
            },
            PartialExpr::RSX(node) => {
                node.to_tokens(out);
            },
            PartialExpr::ExprNode { delimiter, pos, inner } => {
                let mut g: Vec<TokenTree> = Vec::new();
                inner.to_tokens(&mut g);
                crate::emit::push_tok(
                    out,
                    TokenTree::Group { delim: *delimiter, pos: *pos, tokens: g },
                );
            },
        }
    }
}

impl ExprNode {
    /// Append the emission of every segment, in order.
    pub fn to_tokens(&self, out: &mut Vec<TokenTree>)
        ensures
            toks_view(final(out)@) =~= toks_view(old(out)@) + spec_doc_tokens(self@),
        decreases *self, 1int,
    {
        let n = self.0.len();
        let mut i: usize = 0;
        while i < n
            invariant
                n == self.0.len(),
                i <= n,
                toks_view(out@) =~= toks_view(old(out)@) + spec_doc_tokens(
                    segs_view(self.0@.subrange(0, i as int)),
                ),
            decreases n - i,
        {
            self.0[i].to_tokens(out);
            proof {
                let prefix = self.0@.subrange(0, i as int);
                assert(prefix.push(self.0@[i as int]) =~= self.0@.subrange(0, i + 1));
                lemma_segs_view_push(prefix, self.0@[i as int]);
                crate::emit::lemma_doc_tokens_push(segs_view(prefix), seg_view(self.0@[i as int]));
            }
            i = i + 1;
        }
        proof {
            assert(self.0@.subrange(0, n as int) =~= self.0@);
        }
    }

    /// The emission of this value sub-document as a fresh token sequence.
    pub fn to_token_vec(&self) -> (r: Vec<TokenTree>)
        ensures
            toks_view(r@) =~= spec_doc_tokens(self@),
    {
        let mut out: Vec<TokenTree> = Vec::new();
        self.to_tokens(&mut out);
        out
    }
}

/// `segs_view` keeps the length and maps each segment to its image.
pub proof fn lemma_segs_view_index(s: Seq<PartialExpr>)
    ensures
        segs_view(s).len() == s.len(),
        forall|i: int| 0 <= i < s.len() ==> segs_view(s)[i] == seg_view(#[trigger] s[i]),
    decreases s,
{
    if s.len() > 0 {
        lemma_segs_view_index(s.drop_first());
        assert forall|i: int| 0 <= i < s.len() implies segs_view(s)[i] == seg_view(
            #[trigger] s[i],
        ) by {
            if i > 0 {
                assert(s.drop_first()[i - 1] == s[i]);
            }
        }
    }
}

/// Ambient form of [`lemma_segs_view_index`], length half.
pub broadcast proof fn axiom_segs_view_len(s: Seq<PartialExpr>)
    ensures
        (#[trigger] segs_view(s)).len() == s.len(),
{
    lemma_segs_view_index(s);
}

/// Ambient form of [`lemma_segs_view_index`], index half.
pub broadcast proof fn axiom_segs_view_at(s: Seq<PartialExpr>, i: int)
    requires
        0 <= i < s.len(),
    ensures
        #[trigger] segs_view(s)[i] == seg_view(s[i]),
{
    lemma_segs_view_index(s);
}

pub broadcast group group_seg_views {
    axiom_segs_view_len,
    axiom_segs_view_at,
}

/// `segs_view` maps `push` to `push`.
pub proof fn lemma_segs_view_push(s: Seq<PartialExpr>, p: PartialExpr)
    ensures
        segs_view(s.push(p)) =~= segs_view(s).push(seg_view(p)),
{
    broadcast use group_seg_views;

    lemma_segs_view_index(s.push(p));
    assert forall|i: int| 0 <= i < s.len() implies segs_view(s.push(p))[i] == segs_view(
        s,
    )[i] by {
        assert(s.push(p)[i] == s[i]);
    }
}

} // verus!
