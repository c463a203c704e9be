//! Text macros given from outside the source: defined empty, defined as
//! some text, or written `NAME=text` as on a command line

use crate::lexer::{lex, lexed};
use crate::span::Span;
use crate::state::{Define, DefineBody};
use crate::util::slice_bytes;
use vstd::prelude::*;

verus! {

/// The file index of text that is not in any file of a preprocessor state
pub const NO_FILE: usize = usize::MAX;

/// The span given to a macro name that is not written in any file
pub open spec fn no_span() -> Span {
    Span::plain(NO_FILE, 0, 0)
}

fn make_no_span() -> (r: Span)
    ensures
        r == no_span(),
{
    Span { file: NO_FILE, start: 0, end: 0, expanded_from: None, included_from: None }
}

/// A macro with no replacement text
pub fn define_empty(name: Vec<u8>) -> (r: Define)
    ensures
        r.name@ == name@,
        r.name_span == no_span(),
        r.body is Empty,
{
    Define { name, name_span: make_no_span(), body: DefineBody::Empty }
}

/// A macro whose replacement is the tokens of `text`
pub fn define_text(name: Vec<u8>, text: Vec<u8>) -> (r: Define)
    ensures
        r.name@ == name@,
        r.name_span == no_span(),
        r.body matches DefineBody::Text(toks) && lexed(text@, NO_FILE, None, toks@),
{
    let toks = lex(text.as_slice(), NO_FILE, &None);
    Define { name, name_span: make_no_span(), body: DefineBody::Text(toks) }
}

/// The position of the first `=` in `s`
pub open spec fn first_eq(s: Seq<u8>, i: int) -> int
    decreases s.len() - i,
{
    if i < 0 || i >= s.len() {
        s.len() as int
    } else if s[i] == '=' as u8 {
        i
    } else {
        first_eq(s, i + 1)
    }
}

proof fn lemma_first_eq(s: Seq<u8>, i: int)
    requires
        0 <= i <= s.len(),
    ensures
        i <= first_eq(s, i) <= s.len(),
        first_eq(s, i) < s.len() ==> s[first_eq(s, i)] == '=' as u8,
        forall|j: int| i <= j < first_eq(s, i) ==> s[j] != '=' as u8,
    decreases s.len() - i,
{
    if i < s.len() && s[i] != '=' as u8 {
        lemma_first_eq(s, i + 1);
    }
}

/// A macro written `NAME=text`: the name is what comes before the first
/// `=`, the replacement the tokens of what follows it
pub fn parse_cli_define(arg: &[u8]) -> (r: Define)
    requires
        exists|i: int| 0 <= i < arg@.len() && arg@[i] == '=' as u8,
    ensures
        r.name@ == arg@.take(first_eq(arg@, 0)),
        r.name_span == no_span(),
        r.body matches DefineBody::Text(toks) && lexed(
            arg@.skip(first_eq(arg@, 0) + 1),
            NO_FILE,
            None,
            toks@,
        ),
{
    proof {
        lemma_first_eq(arg@, 0);
    }
    let mut k: usize = 0;
    while k < arg.len() && arg[k] != '=' as u8
        invariant
            k <= arg@.len(),
            k <= first_eq(arg@, 0),
            first_eq(arg@, 0) <= arg@.len(),
            first_eq(arg@, 0) < arg@.len() ==> arg@[first_eq(arg@, 0)] == '=' as u8,
        decreases arg.len() - k,
    {
        k = k + 1;
    }
    proof {
        let w = choose|i: int| 0 <= i < arg@.len() && arg@[i] == '=' as u8;
        assert(first_eq(arg@, 0) <= w);
        assert(k == first_eq(arg@, 0));
    }
    let name = slice_bytes(arg, 0, k);
    let text = slice_bytes(arg, k + 1, arg.len());
    proof {
        assert(name@ =~= arg@.take(first_eq(arg@, 0)));
        assert(text@ =~= arg@.skip(first_eq(arg@, 0) + 1));
    }
    let toks = lex(text.as_slice(), NO_FILE, &None);
    Define { name, name_span: make_no_span(), body: DefineBody::Text(toks) }
}

} // verus!
