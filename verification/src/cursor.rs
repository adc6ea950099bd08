//! The positional primitive of the parsers: an index into an immutable token
//! sequence.
//!
//! A parse position is a pair of a borrowed token sequence and an index.
//! Peeking inspects a token without moving; forking a speculative parse is
//! reusing the current index, and committing is adopting the index a
//! successful sub-parse returned.  A failed sub-parse therefore leaves the
//! caller's position untouched by construction, which is the rollback
//! mechanism the speculative markup recognition relies on.

use vstd::prelude::*;

use crate::error::ParseError;
use crate::tokens::spec_pos;
use crate::tokens::toks_view;
use crate::tokens::SpecToken;
use crate::tokens::TokenTree;

verus! {

broadcast use crate::tokens::group_token_views;

/// The sequence holds a punctuation token `ch` at `i`.
pub open spec fn at_punct(s: Seq<SpecToken>, i: int, ch: char) -> bool {
    &&& 0 <= i < s.len()
    &&& s[i] matches SpecToken::Punct { ch: c, .. }
    &&& s[i]->Punct_ch == ch
}

/// The sequence holds an identifier token at `i`.
pub open spec fn at_ident(s: Seq<SpecToken>, i: int) -> bool {
    &&& 0 <= i < s.len()
    &&& s[i] matches SpecToken::Ident { .. }
}

/// The sequence holds a brace-delimited group at `i`.
pub open spec fn at_brace_group(s: Seq<SpecToken>, i: int) -> bool {
    &&& 0 <= i < s.len()
    &&& s[i] matches SpecToken::Group { delim: crate::tokens::Delimiter::Brace, .. }
}

/// The position handle of the token at `i`, or 0 past the end.
pub open spec fn pos_at(s: Seq<SpecToken>, i: int) -> u32 {
    if 0 <= i < s.len() {
        spec_pos(s[i])
    } else {
        0
    }
}

/// Non-consuming look at whether the token at `i` is the punctuation `ch`.
pub fn peek_punct(toks: &Vec<TokenTree>, i: usize, ch: char) -> (r: bool)
    ensures
        r == at_punct(toks_view(toks@), i as int, ch),
{
    if i < toks.len() {
        match &toks[i] {
            TokenTree::Punct { ch: c, .. } => *c == ch,
            _ => false,
        }
    } else {
        false
    }
}

/// Non-consuming look at whether the token at `i` is an identifier.
pub fn peek_ident(toks: &Vec<TokenTree>, i: usize) -> (r: bool)
    ensures
        r == at_ident(toks_view(toks@), i as int),
{
    if i < toks.len() {
        match &toks[i] {
            TokenTree::Ident { .. } => true,
            _ => false,
        }
    } else {
        false
    }
}

/// The position handle of the token at `i`, or 0 past the end.
pub fn position_at(toks: &Vec<TokenTree>, i: usize) -> (r: u32)
    ensures
        r == pos_at(toks_view(toks@), i as int),
{
    if i < toks.len() {
        toks[i].position()
    } else {
        0
    }
}

/// One raw step: the token at `i`, or `UnexpectedEnd` past the end of the
/// region.
pub fn next_token<'a>(toks: &'a Vec<TokenTree>, i: usize) -> (r: Result<
    &'a TokenTree,
    ParseError,
>)
    ensures
        i < toks@.len() ==> (r matches Ok(t) && t@ == toks_view(toks@)[i as int]),
        i >= toks@.len() ==> (r matches Err(ParseError::UnexpectedEnd { pos: 0 })),
{
    if i < toks.len() {
        Ok(&toks[i])
    } else {
        Err(ParseError::UnexpectedEnd { pos: 0 })
    }
}

} // verus!
