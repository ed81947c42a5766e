//! Arithmetic of dataset layout: how many elements fill a capacity, and how far
//! an address is from the next boundary.

use vstd::prelude::*;
use vstd::arithmetic::div_mod::{
    lemma_fundamental_div_mod, lemma_mod_multiples_vanish, lemma_mod_self_0, lemma_small_mod,
};
use vstd::arithmetic::mul::lemma_mul_is_commutative;

verus! {

/// Size and alignment requirement of one element, both in bytes.
///
/// An alignment of 1 asks for nothing: the element takes whatever address the
/// layout happens to give it.
#[derive(Clone, Copy, Debug, PartialEq, Eq)]
pub struct ElementShape {
    pub size: usize,
    pub alignment: usize,
}

impl ElementShape {
    /// A shape is usable when neither field is zero and the size is a whole
    /// number of alignment units, so that consecutive elements keep the
    /// alignment of the first.
    pub open spec fn valid(self) -> bool {
        &&& self.size > 0
        &&& self.alignment > 0
        &&& self.size % self.alignment == 0
    }

    /// Runtime test of [`ElementShape::valid`].
    pub fn is_valid(&self) -> (ok: bool)
        ensures
            ok == self.valid(),
    {
        self.size > 0 && self.alignment > 0 && self.size % self.alignment == 0
    }
}

/// The number of whole elements of `element_size` bytes that fit into
/// `capacity` bytes: the quotient, truncated.
pub open spec fn fill_count(capacity: nat, element_size: nat) -> nat
    recommends
        element_size > 0,
{
    capacity / element_size
}

/// The distance in bytes from `address` up to the next multiple of `boundary`
/// (zero when `address` already is one).
pub open spec fn padding_to(address: nat, boundary: nat) -> nat
    recommends
        boundary > 0,
{
    ((boundary - address % boundary) % (boundary as int)) as nat
}

/// A dataset filled by truncating division never exceeds the capacity, and
/// falls short of it by less than one element.
pub proof fn lemma_fill_bounds(capacity: nat, element_size: nat)
    requires
        element_size > 0,
    ensures
        fill_count(capacity, element_size) * element_size <= capacity,
        capacity < fill_count(capacity, element_size) * element_size + element_size,
{
    lemma_fundamental_div_mod(capacity as int, element_size as int);
    lemma_mul_is_commutative(
        element_size as int,
        fill_count(capacity, element_size) as int,
    );
}

/// Adding the padding to an address gives a multiple of the boundary, and the
/// padding is the least such distance.
pub proof fn lemma_padding_reaches_boundary(address: nat, boundary: nat)
    requires
        boundary > 0,
    ensures
        padding_to(address, boundary) < boundary,
        (address + padding_to(address, boundary)) % boundary == 0,
        address % boundary == 0 <==> padding_to(address, boundary) == 0,
{
    let b = boundary as int;
    let r = address as int % b;
    let q = address as int / b;
    lemma_fundamental_div_mod(address as int, b);
    if r == 0 {
        lemma_mod_self_0(b);
        assert(padding_to(address, boundary) == 0);
    } else {
        lemma_small_mod((b - r) as nat, boundary);
        assert(padding_to(address, boundary) == b - r);
        assert(address + padding_to(address, boundary) == b * (q + 1) + 0) by (nonlinear_arith)
            requires
                address == b * q + r,
                padding_to(address, boundary) == b - r,
        ;
        lemma_mod_multiples_vanish(q + 1, 0, b);
        lemma_small_mod(0, boundary);
    }
}

/// Stepping from an aligned address by whole elements, each a multiple of the
/// boundary in size, lands on aligned addresses only.
pub proof fn lemma_steps_stay_aligned(first: nat, element_size: nat, boundary: nat, index: nat)
    requires
        boundary > 0,
        first % boundary == 0,
        element_size % boundary == 0,
    ensures
        (first + index * element_size) % boundary == 0,
{
    let b = boundary as int;
    let f = first as int / b;
    let e = element_size as int / b;
    lemma_fundamental_div_mod(first as int, b);
    lemma_fundamental_div_mod(element_size as int, b);
    assert(first + index * element_size == b * (f + index * e) + 0) by (nonlinear_arith)
        requires
            first == b * f,
            element_size == b * e,
    ;
    lemma_mod_multiples_vanish(f + index * e, 0, b);
    lemma_small_mod(0, boundary);
}

/// Computes [`fill_count`].
pub fn element_count(capacity: usize, element_size: usize) -> (count: usize)
    requires
        element_size > 0,
    ensures
        count == fill_count(capacity as nat, element_size as nat),
        count * element_size <= capacity,
        capacity < count * element_size + element_size,
{
    proof {
        lemma_fill_bounds(capacity as nat, element_size as nat);
    }
    capacity / element_size
}

/// Computes [`padding_to`].
pub fn padding(address: usize, boundary: usize) -> (pad: usize)
    requires
        boundary > 0,
    ensures
        pad == padding_to(address as nat, boundary as nat),
        pad < boundary,
        (address + pad) % (boundary as int) == 0,
{
    proof {
        lemma_padding_reaches_boundary(address as nat, boundary as nat);
    }
    (boundary - address % boundary) % boundary
}

} // verus!
