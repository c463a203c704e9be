//! A peekable stream of tokens that can have tokens pushed back on its front

use crate::spanned_token::SpannedToken;
use std::collections::VecDeque;
use vstd::prelude::*;

verus! {

/// A peekable, extendable stream of tokens.
///
/// Besides taking tokens from the front, users can peek the next token
/// and push tokens to be taken next (such as when expanding a text macro
/// or bringing in an included file).
pub struct TokenIterator {
    tokens: VecDeque<SpannedToken>,
}

impl View for TokenIterator {
    type V = Seq<SpannedToken>;

    /// The tokens still to come, in order
    closed spec fn view(&self) -> Seq<SpannedToken> {
        self.tokens@
    }
}

impl TokenIterator {
    /// A stream over the given tokens
    pub fn new(tokens: Vec<SpannedToken>) -> (r: Self)
        ensures
            r@ == tokens@,
    {
        let ghost all = tokens@;
        let mut rest = tokens;
        let mut deque: VecDeque<SpannedToken> = VecDeque::new();
        while rest.len() > 0
            invariant
                all == rest@ + deque@,
            decreases rest.len(),
        {
            let ghost before = rest@;
            let t = rest.pop().unwrap();
            deque.push_front(t);
            assert(before =~= rest@.push(t));
        }
        assert(all =~= deque@);
        TokenIterator { tokens: deque }
    }

    /// The number of tokens still to come
    pub fn len(&self) -> (r: usize)
        ensures
            r == self@.len(),
    {
        self.tokens.len()
    }

    /// Take the next token
    pub fn next(&mut self) -> (r: Option<SpannedToken>)
        ensures
            old(self)@.len() == 0 ==> r is None && final(self)@ == old(self)@,
            old(self)@.len() > 0 ==> r == Some(old(self)@[0]) && final(self)@ == old(self)@.drop_first(),
    {
        let r = self.tokens.pop_front();
        proof {
            if old(self)@.len() > 0 {
                assert(self@ =~= old(self)@.drop_first());
            }
        }
        r
    }

    /// Push tokens to be taken next, ahead of the ones still to come, in
    /// their order
    pub fn prepend_tokens(&mut self, extra_tokens: Vec<SpannedToken>)
        ensures
            final(self)@ == extra_tokens@ + old(self)@,
    {
        let ghost all = extra_tokens@;
        let mut rest = extra_tokens;
        while rest.len() > 0
            invariant
                all + old(self)@ == rest@ + self@,
            decreases rest.len(),
        {
            let ghost before = rest@;
            let ghost before_self = self@;
            let t = rest.pop().unwrap();
            self.tokens.push_front(t);
            assert(before =~= rest@.push(t));
            assert(rest@ + self@ =~= before + before_self);
        }
        assert(all + old(self)@ =~= self@);
    }

    /// Push one token to be taken next
    pub fn prepend_token(&mut self, token: SpannedToken)
        ensures
            final(self)@ == seq![token] + old(self)@,
    {
        self.tokens.push_front(token);
    }

    /// The next token, without taking it
    pub fn peek(&self) -> (r: Option<&SpannedToken>)
        ensures
            self@.len() == 0 ==> r is None,
            self@.len() > 0 ==> r == Some(&self@[0]),
    {
        if self.tokens.len() > 0 {
            Some(&self.tokens[0])
        } else {
            None
        }
    }
}

} // verus!
