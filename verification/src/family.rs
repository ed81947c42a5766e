//! The experiment families and the version tokens that select them.

use vstd::prelude::*;
use crate::text::same_text;

verus! {

/// The experiment families, one for each version token.
#[derive(Clone, Copy, Debug, PartialEq, Eq, Structural)]
pub enum Family {
    /// `v1`: packed elements that differ in size and alignment, write-cycle touch.
    LayoutAlignment,
    /// `v2`: heap blocks of a size given at run start, read touch.
    ElementSize,
    /// `v3`: a zeroed buffer of the dataset capacity, read at a stride given at
    /// run start.
    FixedStride,
    /// `v4`: a buffer of ones of a length of its own, the same for every
    /// stride, read at a stride given at run start.
    ByteStride,
}

/// The token by which a family is chosen on the command line.
pub open spec fn family_token(family: Family) -> Seq<char> {
    match family {
        Family::LayoutAlignment => "v1"@,
        Family::ElementSize => "v2"@,
        Family::FixedStride => "v3"@,
        Family::ByteStride => "v4"@,
    }
}

/// The family that a version token names.
pub open spec fn family_of(token: Seq<char>) -> Option<Family> {
    if token == "v1"@ {
        Some(Family::LayoutAlignment)
    } else if token == "v2"@ {
        Some(Family::ElementSize)
    } else if token == "v3"@ {
        Some(Family::FixedStride)
    } else if token == "v4"@ {
        Some(Family::ByteStride)
    } else {
        None
    }
}

impl Family {
    /// The token by which this family is chosen.
    pub fn token(&self) -> (token: &'static str)
        ensures
            token@ == family_token(*self),
    {
        match self {
            Family::LayoutAlignment => "v1",
            Family::ElementSize => "v2",
            Family::FixedStride => "v3",
            Family::ByteStride => "v4",
        }
    }

    /// The family that a version token names, if it names one.
    pub fn from_token(token: &str) -> (family: Option<Family>)
        ensures
            family == family_of(token@),
    {
        if same_text(token, "v1") {
            Some(Family::LayoutAlignment)
        } else if same_text(token, "v2") {
            Some(Family::ElementSize)
        } else if same_text(token, "v3") {
            Some(Family::FixedStride)
        } else if same_text(token, "v4") {
            Some(Family::ByteStride)
        } else {
            None
        }
    }
}

/// Every family is selected by its own token, and by no other.
pub proof fn lemma_family_tokens(family: Family, token: Seq<char>)
    ensures
        family_of(token) == Some(family) <==> token == family_token(family),
{
    reveal_strlit("v1");
    reveal_strlit("v2");
    reveal_strlit("v3");
    reveal_strlit("v4");
    assert("v1"@.len() == 2 && "v2"@.len() == 2 && "v3"@.len() == 2 && "v4"@.len() == 2);
    assert("v1"@[1] == '1' && "v2"@[1] == '2' && "v3"@[1] == '3' && "v4"@[1] == '4');
}

} // verus!
