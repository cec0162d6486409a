//! Page-spread placement for pre-paginated pages: a cover page renders
//! centered, and the remaining pages of a chapter alternate left/right by
//! their zero-based index, even on the left.

use vstd::prelude::*;

verus! {

#[derive(Debug, Clone, Copy, PartialEq, Eq, Structural)]
pub enum Spread {
    Left,
    Right,
    Center,
}

impl Spread {
    /// The side that follows this one when pages alternate.
    pub open spec fn next_spec(self) -> Spread {
        match self {
            Spread::Left | Spread::Center => Spread::Right,
            Spread::Right => Spread::Left,
        }
    }

    /// The side of the page after one on this side.
    pub fn next(&self) -> (r: Option<Spread>)
        ensures
            r == Some(self.next_spec()),
    {
        match self {
            Spread::Left | Spread::Center => Some(Spread::Right),
            Spread::Right => Some(Spread::Left),
        }
    }

    /// The side for the page at a zero-based index within its chapter.
    pub open spec fn for_index_spec(i: nat) -> Spread {
        if i % 2 == 0 {
            Spread::Left
        } else {
            Spread::Right
        }
    }

    pub fn for_index(i: usize) -> (r: Spread)
        ensures
            r == Spread::for_index_spec(i as nat),
    {
        if i % 2 == 0 {
            Spread::Left
        } else {
            Spread::Right
        }
    }

    /// The itemref property token for this placement.
    pub open spec fn property_spec(self) -> Seq<char> {
        match self {
            Spread::Left => "page-spread-left"@,
            Spread::Right => "page-spread-right"@,
            Spread::Center => "rendition:page-spread-center"@,
        }
    }

    pub fn property(&self) -> (r: &'static str)
        ensures
            r@ == self.property_spec(),
    {
        match self {
            Spread::Left => "page-spread-left",
            Spread::Right => "page-spread-right",
            Spread::Center => "rendition:page-spread-center",
        }
    }
}

/// Alternation agrees with the index rule: the side for index `i + 1` is the
/// one that `next` yields from the side for index `i`.
pub proof fn lemma_alternation(i: nat)
    ensures
        Spread::for_index_spec(i + 1) == Spread::for_index_spec(i).next_spec(),
{
}

} // verus!
