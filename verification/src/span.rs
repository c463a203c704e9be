//! Locations in source files

use vstd::prelude::*;

verus! {

/// A byte range in one of the files known to a preprocessor state,
/// together with where it was expanded from (for tokens produced by a
/// text macro) and where it was included from (for tokens of an
/// included file)
#[derive(Debug)]
pub struct Span {
    /// The index of the file in the preprocessor's file table
    pub file: usize,
    /// The first byte of the range
    pub start: usize,
    /// One past the last byte of the range
    pub end: usize,
    /// The span of the macro-body token this one was expanded from
    pub expanded_from: Option<Box<Span>>,
    /// The span of the `` `include `` directive that brought this file in
    pub included_from: Option<Box<Span>>,
}

/// How one span relates in position to another
#[derive(Debug)]
pub enum SpanRelation {
    Earlier,
    Same,
    Later,
}

impl Clone for Span {
    fn clone(&self) -> (r: Self)
        ensures
            r == *self,
        decreases self,
    {
        let expanded_from = match &self.expanded_from {
            Some(b) => Some(Box::new((**b).clone())),
            None => None,
        };
        let included_from = match &self.included_from {
            Some(b) => Some(Box::new((**b).clone())),
            None => None,
        };
        Span { file: self.file, start: self.start, end: self.end, expanded_from, included_from }
    }
}

impl Span {
    /// A span with no expansion or inclusion history
    pub open spec fn plain(file: usize, start: usize, end: usize) -> Span {
        Span { file, start, end, expanded_from: None, included_from: None }
    }

    /// How many `` `include `` directives lie between this span and the
    /// file the preprocessor started from
    pub open spec fn depth(self) -> nat
        decreases self,
    {
        match self.included_from {
            Some(b) => 1 + (*b).depth(),
            None => 0,
        }
    }

    /// The span at the end of the chain of macro expansions: the place in
    /// a file where the text of this token is written
    pub open spec fn expansion_root(self) -> Span
        decreases self,
    {
        match self.expanded_from {
            Some(b) => (*b).expansion_root(),
            None => self,
        }
    }

    /// The span at the end of the chain of inclusions: a place in the file
    /// the preprocessor started from
    pub open spec fn inclusion_root(self) -> Span
        decreases self,
    {
        match self.included_from {
            Some(b) => (*b).inclusion_root(),
            None => self,
        }
    }

    /// Follow the chain of inclusions back to the file the preprocessor
    /// started from
    pub fn root_file(&self) -> (r: usize)
        ensures
            r == self.inclusion_root().file,
        decreases self,
    {
        match &self.included_from {
            Some(b) => (**b).root_file(),
            None => self.file,
        }
    }

    /// The inclusion depth, saturated at `usize::MAX`
    pub fn inclusion_depth(&self) -> (r: usize)
        ensures
            r as nat == if self.depth() <= usize::MAX { self.depth() } else { usize::MAX as nat },
        decreases self,
    {
        match &self.included_from {
            None => 0,
            Some(b) => {
                let d = (**b).inclusion_depth();
                if d == usize::MAX { usize::MAX } else { d + 1 }
            }
        }
    }

    /// The relative position of two spans, ordered by their first byte and
    /// then by their last
    pub open spec fn relation(self, other: Span) -> SpanRelation {
        if self.start == other.start && self.end == other.end {
            SpanRelation::Same
        } else if self.start > other.start || (self.start == other.start && self.end > other.end) {
            SpanRelation::Later
        } else {
            SpanRelation::Earlier
        }
    }

    pub fn compare(&self, other: &Span) -> (r: SpanRelation)
        ensures
            r == self.relation(*other),
    {
        if self.start == other.start && self.end == other.end {
            SpanRelation::Same
        } else if self.start > other.start || (self.start == other.start && self.end > other.end) {
            SpanRelation::Later
        } else {
            SpanRelation::Earlier
        }
    }

    /// Follow the chain of expansions back to the span written in a file
    pub fn root(&self) -> (r: &Span)
        ensures
            *r == self.expansion_root(),
        decreases self,
    {
        match &self.expanded_from {
            Some(b) => (**b).root(),
            None => self,
        }
    }
}

} // verus!
