//! The token model: a positional, tree-shaped view of the host token stream.
//!
//! A token is an identifier, a punctuation character, a literal, or a
//! delimited group whose interior is itself a token sequence.  Every token
//! carries a source position handle (`pos`), an opaque number that callers
//! assign when they build the sequence and that the rewriter preserves, so
//! diagnostics and emitted groups keep pointing at the original source.
//!
//! `SpecToken` is the mathematical image of a token: the same shape with
//! `Seq<char>` for text and `Seq<SpecToken>` for group interiors.  Every
//! contract in this crate speaks of token sequences through that image.

use vstd::prelude::*;

verus! {

/// The bracket shape of a delimited group.
#[derive(Debug, Clone, Copy, PartialEq, Eq)]
pub enum Delimiter {
    /// `( ... )`
    Parenthesis,
    /// `[ ... ]`
    Bracket,
    /// `{ ... }`
    Brace,
    /// An invisible delimiter, as produced by macro expansion.
    Invisible,
}

/// One host token tree.
#[derive(Debug, PartialEq, Eq)]
pub enum TokenTree {
    /// An identifier or keyword, e.g. `div`, `let`.
    Ident { name: String, pos: u32 },
    /// A single punctuation character.  `joint` records whether it is glued
    /// to the next token (as in the first `.` of `..`).
    Punct { ch: char, joint: bool, pos: u32 },
    /// A string literal; `value` is its decoded text.
    LitStr { value: String, pos: u32 },
    /// Any other literal (number, char, byte string), kept as written.
    Literal { repr: String, pos: u32 },
    /// A delimited group with a recursively tokenized interior.
    Group { delim: Delimiter, pos: u32, tokens: Vec<TokenTree> },
}

/// The mathematical image of a `TokenTree`.
pub enum SpecToken {
    Ident { name: Seq<char>, pos: u32 },
    Punct { ch: char, joint: bool, pos: u32 },
    LitStr { value: Seq<char>, pos: u32 },
    Literal { repr: Seq<char>, pos: u32 },
    Group { delim: Delimiter, pos: u32, tokens: Seq<SpecToken> },
}

/// The image of one token tree.
pub open spec fn tree_view(t: TokenTree) -> SpecToken
    decreases t,
{
    match t {
        TokenTree::Ident { name, pos } => SpecToken::Ident { name: name@, pos },
        TokenTree::Punct { ch, joint, pos } => SpecToken::Punct { ch, joint, pos },
        TokenTree::LitStr { value, pos } => SpecToken::LitStr { value: value@, pos },
        TokenTree::Literal { repr, pos } => SpecToken::Literal { repr: repr@, pos },
        TokenTree::Group { delim, pos, tokens } => SpecToken::Group {
            delim,
            pos,
            tokens: toks_view(tokens@),
        },
    }
}

/// The image of a token sequence.
pub open spec fn toks_view(s: Seq<TokenTree>) -> Seq<SpecToken>
    decreases s,
{
    if s.len() == 0 {
        Seq::empty()
    } else {
        seq![tree_view(s[0])] + toks_view(s.drop_first())
    }
}

impl View for TokenTree {
    type V = SpecToken;

    open spec fn view(&self) -> SpecToken {
        tree_view(*self)
    }
}

/// The number of tokens in a tree, counting the interiors of groups.
/// Serves as the termination measure of the recursive parsers.
pub open spec fn tree_size(t: TokenTree) -> nat
    decreases t,
{
    match t {
        TokenTree::Group { tokens, .. } => 1 + seq_size(tokens@),
        _ => 1,
    }
}

/// The total `tree_size` of a token sequence.
pub open spec fn seq_size(s: Seq<TokenTree>) -> nat
    decreases s,
{
    if s.len() == 0 {
        0
    } else {
        tree_size(s[0]) + seq_size(s.drop_first())
    }
}

/// The size of the suffix of `s` that starts at `i`.  The termination
/// measure of the parsers: consuming a token or descending into a group
/// strictly shrinks it.
pub open spec fn suffix_size(s: Seq<TokenTree>, i: int) -> nat {
    if 0 <= i <= s.len() {
        seq_size(s.subrange(i, s.len() as int))
    } else {
        0
    }
}

/// Every token has size at least one.
pub proof fn lemma_tree_size_pos(t: TokenTree)
    ensures
        tree_size(t) >= 1,
{
}

/// Consuming the token at `i` splits off its size.
pub proof fn lemma_suffix_size_step(s: Seq<TokenTree>, i: int)
    requires
        0 <= i < s.len(),
    ensures
        suffix_size(s, i) == tree_size(s[i]) + suffix_size(s, i + 1),
{
    let sub = s.subrange(i, s.len() as int);
    assert(sub[0] == s[i]);
    assert(sub.drop_first() =~= s.subrange(i + 1, s.len() as int));
}

/// Moving the start of the suffix forward never grows it.
pub proof fn lemma_suffix_size_mono(s: Seq<TokenTree>, i: int, j: int)
    requires
        0 <= i <= j <= s.len(),
    ensures
        suffix_size(s, j) <= suffix_size(s, i),
    decreases j - i,
{
    if i < j {
        lemma_suffix_size_step(s, i);
        lemma_tree_size_pos(s[i]);
        lemma_suffix_size_mono(s, i + 1, j);
    }
}

/// The suffix starting at 0 is the whole sequence.
pub proof fn lemma_suffix_size_all(s: Seq<TokenTree>)
    ensures
        suffix_size(s, 0) == seq_size(s),
{
    assert(s.subrange(0, s.len() as int) =~= s);
}

/// A group's interior is strictly smaller than the suffix holding the group.
pub proof fn lemma_group_interior_size(s: Seq<TokenTree>, i: int)
    requires
        0 <= i < s.len(),
        s[i] matches TokenTree::Group { .. },
    ensures
        seq_size(s[i]->Group_tokens@) < suffix_size(s, i),
{
    lemma_suffix_size_step(s, i);
}

/// Equality of two strings, stated over their character sequences.
pub fn string_eq(a: &String, b: &String) -> (r: bool)
    ensures
        r == (a@ == b@),
{
    a.eq(b)
}

/// `toks_view` keeps the length and maps each token to its image.
pub proof fn lemma_toks_view_index(s: Seq<TokenTree>)
    ensures
        toks_view(s).len() == s.len(),
        forall|i: int| 0 <= i < s.len() ==> toks_view(s)[i] == tree_view(#[trigger] s[i]),
    decreases s,
{
    if s.len() > 0 {
        lemma_toks_view_index(s.drop_first());
        assert forall|i: int| 0 <= i < s.len() implies toks_view(s)[i] == tree_view(
            #[trigger] s[i],
        ) by {
            if i > 0 {
                assert(s.drop_first()[i - 1] == s[i]);
            }
        }
    }
}

/// Ambient form: the image of a token sequence has the sequence's length.
pub broadcast proof fn axiom_toks_view_len(s: Seq<TokenTree>)
    ensures
        (#[trigger] toks_view(s)).len() == s.len(),
{
    lemma_toks_view_index(s);
}

/// Ambient form: the image of a token sequence maps each token to its image.
pub broadcast proof fn axiom_toks_view_at(s: Seq<TokenTree>, i: int)
    requires
        0 <= i < s.len(),
    ensures
        #[trigger] toks_view(s)[i] == tree_view(s[i]),
{
    lemma_toks_view_index(s);
}

pub broadcast group group_token_views {
    axiom_toks_view_len,
    axiom_toks_view_at,
}

/// `toks_view` distributes over concatenation.
pub proof fn lemma_toks_view_add(a: Seq<TokenTree>, b: Seq<TokenTree>)
    ensures
        toks_view(a + b) =~= toks_view(a) + toks_view(b),
    decreases a,
{
    if a.len() == 0 {
        assert(a + b =~= b);
    } else {
        lemma_toks_view_add(a.drop_first(), b);
        assert((a + b).drop_first() =~= a.drop_first() + b);
    }
}

/// `toks_view` maps `push` to `push`.
pub proof fn lemma_toks_view_push(s: Seq<TokenTree>, t: TokenTree)
    ensures
        toks_view(s.push(t)) =~= toks_view(s).push(tree_view(t)),
{
    lemma_toks_view_add(s, seq![t]);
    assert(s.push(t) =~= s + seq![t]);
    assert(seq![t].drop_first().len() == 0);
    assert(toks_view(seq![t].drop_first()) =~= Seq::<SpecToken>::empty());
    assert(toks_view(seq![t]) =~= seq![tree_view(t)]);
}

/// The source position handle of a token.
pub open spec fn spec_pos(t: SpecToken) -> u32 {
    match t {
        SpecToken::Ident { pos, .. } => pos,
        SpecToken::Punct { pos, .. } => pos,
        SpecToken::LitStr { pos, .. } => pos,
        SpecToken::Literal { pos, .. } => pos,
        SpecToken::Group { pos, .. } => pos,
    }
}

/// No token of the tree, at any depth, is the markup-open symbol `<`.
pub open spec fn tok_no_lt(t: SpecToken) -> bool
    decreases t,
{
    match t {
        SpecToken::Punct { ch, .. } => ch != '<',
        SpecToken::Group { tokens, .. } => forall|i: int|
            0 <= i < tokens.len() ==> tok_no_lt(#[trigger] tokens[i]),
        _ => true,
    }
}

/// No token of the sequence, at any depth, is the markup-open symbol `<`.
pub open spec fn toks_no_lt(s: Seq<SpecToken>) -> bool {
    forall|i: int| 0 <= i < s.len() ==> tok_no_lt(#[trigger] s[i])
}

/// The markup-open symbol at `i`, if any, cannot begin a viable markup
/// construct: either it is not followed by an identifier, or that
/// identifier is the last token of the region, so the attribute scan runs
/// off the end before an opening tag can complete.
pub open spec fn harmless_lt_at(s: Seq<SpecToken>, i: int) -> bool {
    (s[i] matches SpecToken::Punct { ch: '<', .. }) ==> (!(i + 1 < s.len() && s[i + 1] matches
        SpecToken::Ident { .. }) || i + 2 >= s.len())
}

/// A group's interior, recursively, opens no markup; other tokens hold no
/// interior to check.
pub open spec fn tok_interior_harmless(t: SpecToken) -> bool
    decreases t, 0int,
{
    match t {
        SpecToken::Group { tokens, .. } => toks_harmless_lt(tokens),
        _ => true,
    }
}

/// No token of the sequence, at any depth, opens a viable markup construct.
/// The rewriter passes such a sequence through unchanged: every speculative
/// node parse fails before an opening tag completes and falls back to
/// literal treatment.
pub open spec fn toks_harmless_lt(s: Seq<SpecToken>) -> bool
    decreases s, 1int,
{
    forall|i: int|
        0 <= i < s.len() ==> (harmless_lt_at(s, i) && tok_interior_harmless(#[trigger] s[i]))
}

/// A sequence with no `<` at any depth in particular opens no markup.
pub proof fn lemma_no_lt_harmless(s: Seq<SpecToken>)
    requires
        toks_no_lt(s),
    ensures
        toks_harmless_lt(s),
    decreases s,
{
    assert forall|i: int|
        0 <= i < s.len() implies (harmless_lt_at(s, i) && tok_interior_harmless(
        #[trigger] s[i],
    )) by {
        assert(tok_no_lt(s[i]));
        match s[i] {
            SpecToken::Group { tokens, .. } => {
                assert(toks_no_lt(tokens));
                lemma_no_lt_harmless(tokens);
            },
            _ => {},
        }
    }
}

impl TokenTree {
    /// The source position handle this token carries.
    pub fn position(&self) -> (r: u32)
        ensures
            r == spec_pos(self@),
    {
        match self {
            TokenTree::Ident { pos, .. } => *pos,
            TokenTree::Punct { pos, .. } => *pos,
            TokenTree::LitStr { pos, .. } => *pos,
            TokenTree::Literal { pos, .. } => *pos,
            TokenTree::Group { pos, .. } => *pos,
        }
    }

    /// An exact copy of the tree.
    pub fn clone_tree(&self) -> (r: TokenTree)
        ensures
            r@ == self@,
        decreases *self,
    {
        match self {
            TokenTree::Ident { name, pos } => TokenTree::Ident { name: name.clone(), pos: *pos },
            TokenTree::Punct { ch, joint, pos } => TokenTree::Punct {
                ch: *ch,
                joint: *joint,
                pos: *pos,
            },
            TokenTree::LitStr { value, pos } => TokenTree::LitStr {
                value: value.clone(),
                pos: *pos,
            },
            TokenTree::Literal { repr, pos } => TokenTree::Literal {
                repr: repr.clone(),
                pos: *pos,
            },
            TokenTree::Group { delim, pos, tokens } => {
                let inner = clone_tokens(tokens);
                TokenTree::Group { delim: *delim, pos: *pos, tokens: inner }
            },
        }
    }
}

/// An exact copy of a token sequence.
pub fn clone_tokens(v: &Vec<TokenTree>) -> (r: Vec<TokenTree>)
    ensures
        toks_view(r@) == toks_view(v@),
        r@.len() == v@.len(),
    decreases v@,
{
    let mut out: Vec<TokenTree> = Vec::new();
    let n = v.len();
    let mut i: usize = 0;
    while i < n
        invariant
            n == v.len(),
            i <= n,
            out@.len() == i,
            toks_view(out@) =~= toks_view(v@.subrange(0, i as int)),
        decreases n - i,
    {
        let t = v[i].clone_tree();
        proof {
            lemma_toks_view_push(out@, t);
            lemma_toks_view_push(v@.subrange(0, i as int), v@[i as int]);
            assert(v@.subrange(0, i as int).push(v@[i as int]) =~= v@.subrange(0, i + 1));
        }
        out.push(t);
        i = i + 1;
    }
    proof {
        assert(v@.subrange(0, n as int) =~= v@);
    }
    out
}

} // verus!
