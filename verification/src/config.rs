//! The parameters of a run: how much memory a dataset fills, the cache line
//! it is laid out against, and how often it is traversed.

use vstd::prelude::*;
use vstd::arithmetic::div_mod::lemma_mod_multiples_basic;
use vstd::arithmetic::mul::{lemma_mul_is_commutative, lemma_mul_strictly_positive};
use crate::layout::ElementShape;

verus! {

/// How the elements of the layout experiment are sized and placed.
#[derive(Clone, Copy, Debug, PartialEq, Eq, Structural)]
pub enum AlignmentKind {
    /// Whole cache lines, each element forced onto a cache-line boundary.
    Explicit,
    /// Whole cache lines, placed wherever the buffer happens to start.
    Implicit,
    /// A size that divides no cache line, so that elements straddle lines.
    Unaligned,
}

/// The parameters that every experiment reads and none changes.
#[derive(Clone, Copy, Debug, PartialEq, Eq)]
pub struct Config {
    /// Bytes a dataset is to fill; chosen to exceed the last-level cache.
    pub capacity: usize,
    /// Bytes in one cache line.
    pub cache_line: usize,
    /// Cache lines in one element of whole lines.
    pub lines_per_element: usize,
    /// Bytes in one element of the unaligned kind.
    pub unaligned_size: usize,
    /// Passes of the layout experiment.
    pub layout_turns: usize,
    /// Passes of the element-size and fixed-stride experiments.
    pub sweep_turns: usize,
    /// Bytes in the buffer of the byte-stride experiment, whatever the stride.
    pub stride_buffer: usize,
    /// Passes of the byte-stride experiment.
    pub stride_turns: usize,
}

impl Config {
    /// The layout experiment of `kind` can be set up: what the kind's shape
    /// is made of is positive, the shape and the padded dataset fit the
    /// address space, and the size of the unaligned kind divides no cache
    /// line. Each kind asks only for what it reads.
    pub open spec fn supports(&self, kind: AlignmentKind) -> bool {
        match kind {
            AlignmentKind::Explicit => {
                &&& self.cache_line > 0
                &&& self.lines_per_element > 0
                &&& self.cache_line * self.lines_per_element <= usize::MAX
                &&& self.capacity + self.cache_line <= usize::MAX
            },
            AlignmentKind::Implicit => {
                &&& self.cache_line > 0
                &&& self.lines_per_element > 0
                &&& self.cache_line * self.lines_per_element <= usize::MAX
                &&& self.capacity + 1 <= usize::MAX
            },
            AlignmentKind::Unaligned => {
                &&& self.unaligned_size > 0
                &&& self.cache_line % self.unaligned_size != 0
                &&& self.capacity + 1 <= usize::MAX
            },
        }
    }

    /// A configuration is valid when it supports every alignment kind.
    pub open spec fn valid(&self) -> bool {
        &&& self.supports(AlignmentKind::Explicit)
        &&& self.supports(AlignmentKind::Implicit)
        &&& self.supports(AlignmentKind::Unaligned)
    }

    /// The element shape of each alignment kind.
    pub open spec fn shape_of(&self, kind: AlignmentKind) -> ElementShape {
        match kind {
            AlignmentKind::Explicit => ElementShape {
                size: (self.cache_line * self.lines_per_element) as usize,
                alignment: self.cache_line,
            },
            AlignmentKind::Implicit => ElementShape {
                size: (self.cache_line * self.lines_per_element) as usize,
                alignment: 1,
            },
            AlignmentKind::Unaligned => ElementShape { size: self.unaligned_size, alignment: 1 },
        }
    }

    /// The shape of a supported kind is valid and its padded dataset fits the
    /// address space; the explicit kind is aligned to the cache line, and the
    /// unaligned kind has a size that is no divisor of it.
    pub proof fn lemma_shapes(&self, kind: AlignmentKind)
        requires
            self.supports(kind),
        ensures
            self.shape_of(kind).valid(),
            self.capacity + self.shape_of(kind).alignment <= usize::MAX,
            kind == AlignmentKind::Explicit ==> self.shape_of(kind).alignment == self.cache_line,
            kind == AlignmentKind::Unaligned ==> self.cache_line % self.shape_of(kind).size != 0,
    {
        if kind != AlignmentKind::Unaligned {
            lemma_mod_multiples_basic(self.lines_per_element as int, self.cache_line as int);
            lemma_mul_is_commutative(self.lines_per_element as int, self.cache_line as int);
            lemma_mul_strictly_positive(self.cache_line as int, self.lines_per_element as int);
        }
    }

    /// The reference values: a capacity of one and a half mebibytes, 64-byte
    /// cache lines, elements of three lines or of seven bytes, and a buffer
    /// of twenty-four million bytes for the byte-stride experiment. The
    /// capacities are meant to be tuned to the cache of the machine.
    pub fn reference() -> (config: Config)
        ensures
            config.valid(),
            config == (Config {
                capacity: 1_572_864,
                cache_line: 64,
                lines_per_element: 3,
                unaligned_size: 7,
                layout_turns: 100,
                sweep_turns: 259,
                stride_buffer: 24_000_000,
                stride_turns: 1000,
            }),
    {
        Config {
            capacity: 1_572_864,
            cache_line: 64,
            lines_per_element: 3,
            unaligned_size: 7,
            layout_turns: 100,
            sweep_turns: 259,
            stride_buffer: 24_000_000,
            stride_turns: 1000,
        }
    }

    /// Runtime test of [`Config::supports`].
    pub fn is_supported(&self, kind: AlignmentKind) -> (ok: bool)
        ensures
            ok == self.supports(kind),
    {
        match kind {
            AlignmentKind::Explicit => self.cache_line > 0 && self.lines_per_element > 0
                && self.cache_line.checked_mul(self.lines_per_element).is_some()
                && self.capacity.checked_add(self.cache_line).is_some(),
            AlignmentKind::Implicit => self.cache_line > 0 && self.lines_per_element > 0
                && self.cache_line.checked_mul(self.lines_per_element).is_some()
                && self.capacity.checked_add(1).is_some(),
            AlignmentKind::Unaligned => self.unaligned_size > 0 && self.cache_line
                % self.unaligned_size != 0 && self.capacity.checked_add(1).is_some(),
        }
    }

    /// Runtime test of [`Config::valid`].
    pub fn is_valid(&self) -> (ok: bool)
        ensures
            ok == self.valid(),
    {
        self.is_supported(AlignmentKind::Explicit) && self.is_supported(AlignmentKind::Implicit)
            && self.is_supported(AlignmentKind::Unaligned)
    }

    /// Computes [`Config::shape_of`].
    pub fn shape(&self, kind: AlignmentKind) -> (shape: ElementShape)
        requires
            self.supports(kind),
        ensures
            shape == self.shape_of(kind),
            shape.valid(),
            self.capacity + shape.alignment <= usize::MAX,
    {
        proof {
            self.lemma_shapes(kind);
        }
        match kind {
            AlignmentKind::Explicit => ElementShape {
                size: self.cache_line * self.lines_per_element,
                alignment: self.cache_line,
            },
            AlignmentKind::Implicit => ElementShape {
                size: self.cache_line * self.lines_per_element,
                alignment: 1,
            },
            AlignmentKind::Unaligned => ElementShape { size: self.unaligned_size, alignment: 1 },
        }
    }
}

} // verus!
