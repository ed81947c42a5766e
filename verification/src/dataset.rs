//! A dataset of equally sized elements packed into one buffer, and the
//! write-cycle touch that increments every byte of an element.

use vstd::prelude::*;
use crate::layout::{
    element_count, fill_count, lemma_padding_reaches_boundary, lemma_steps_stay_aligned, padding,
    padding_to, ElementShape,
};

verus! {

/// A byte after `turns` wrapping increments.
pub open spec fn bumped(byte: u8, turns: nat) -> u8 {
    ((byte as nat + turns) % 256) as u8
}

/// An element after `turns` write-cycle touches: every byte incremented
/// `turns` times, wrapping at 256.
pub open spec fn bumped_element(element: Seq<u8>, turns: nat) -> Seq<u8> {
    Seq::new(element.len(), |j: int| bumped(element[j], turns))
}

/// A sequence of elements after each has been touched `turns` times.
pub open spec fn bumped_elements(elements: Seq<Seq<u8>>, turns: nat) -> Seq<Seq<u8>> {
    Seq::new(elements.len(), |i: int| bumped_element(elements[i], turns))
}

/// `count` elements of `size` zero bytes each.
pub open spec fn zeroed(count: nat, size: nat) -> Seq<Seq<u8>> {
    Seq::new(count, |i: int| Seq::new(size, |j: int| 0u8))
}

/// The bytes of `bytes` with those at positions `lo..hi` incremented once.
spec fn bumped_range(bytes: Seq<u8>, lo: int, hi: int) -> Seq<u8> {
    Seq::new(bytes.len(), |k: int| if lo <= k < hi { bumped(bytes[k], 1) } else { bytes[k] })
}

proof fn lemma_whole_elements(index: int, count: int, size: int)
    by (nonlinear_arith)
    requires
        0 <= index < count,
        0 < size,
    ensures
        0 <= index * size,
        index * size + size <= count * size,
        (index + 1) * size == index * size + size,
{
}

/// `Vec::as_ptr`, read as an integer: the address at which the buffer's bytes
/// begin. Nothing is claimed about the value, which the allocator chooses.
#[verifier::external_body]
fn buffer_address(buffer: &Vec<u8>) -> (address: usize) {
    buffer.as_ptr() as usize
}

/// Equally sized elements laid out back to back in one buffer.
///
/// The mathematical view is the sequence of elements, each the sequence of its
/// bytes. Where the shape asks for an alignment, the buffer holds spare bytes
/// in front of the first element so that it starts on a boundary.
#[derive(Debug)]
pub struct Dataset {
    buffer: Vec<u8>,
    base: usize,
    first: usize,
    shape: ElementShape,
    count: usize,
}

impl View for Dataset {
    type V = Seq<Seq<u8>>;

    closed spec fn view(&self) -> Seq<Seq<u8>> {
        Seq::new(
            self.count as nat,
            |i: int|
                self.buffer@.subrange(
                    self.first + i * self.shape.size,
                    self.first + i * self.shape.size + self.shape.size,
                ),
        )
    }
}

impl Dataset {
    /// Size and alignment of every element.
    pub closed spec fn shape(&self) -> ElementShape {
        self.shape
    }

    /// Number of elements.
    pub closed spec fn count(&self) -> nat {
        self.count as nat
    }

    /// The address of the buffer as it was observed when the dataset was built.
    pub closed spec fn base_address(&self) -> nat {
        self.base as nat
    }

    /// Offset of the first element from the start of the buffer.
    pub closed spec fn first_offset(&self) -> nat {
        self.first as nat
    }

    /// Address at which element `index` begins.
    pub open spec fn element_address(&self, index: nat) -> int {
        self.base_address() + self.first_offset() + index * self.shape().size
    }

    /// Every element begins on a multiple of the shape's alignment.
    pub open spec fn aligned(&self) -> bool {
        forall|index: nat|
            index < self.count() ==> #[trigger] self.element_address(index) % (
            self.shape().alignment as int) == 0
    }

    /// The representation invariant: the shape is valid, the first element sits
    /// at the least offset that reaches a boundary, and all elements lie
    /// inside the buffer.
    pub closed spec fn well_formed(&self) -> bool {
        &&& self.shape.valid()
        &&& self.first == padding_to(self.base as nat, self.shape.alignment as nat)
        &&& self.first + self.count * self.shape.size <= self.buffer.len()
    }

    /// Two datasets with the same geometry: shape, count and placement.
    pub open spec fn same_layout(&self, other: &Dataset) -> bool {
        &&& self.shape() == other.shape()
        &&& self.count() == other.count()
        &&& self.base_address() == other.base_address()
        &&& self.first_offset() == other.first_offset()
    }

    /// The view of a well-formed dataset has `count` elements of `size` bytes,
    /// the padding is less than one alignment unit, and every element is
    /// aligned.
    pub proof fn lemma_geometry(&self)
        requires
            self.well_formed(),
        ensures
            self.shape().valid(),
            self@.len() == self.count(),
            forall|i: int|
                0 <= i < self.count() ==> (#[trigger] self@[i]).len() == self.shape().size,
            self.first_offset() == padding_to(self.base_address(), self.shape().alignment as nat),
            self.first_offset() < self.shape().alignment,
            self.aligned(),
    {
        let size = self.shape.size as int;
        assert forall|i: int| 0 <= i < self.count() implies (#[trigger] self@[i]).len()
            == self.shape().size by {
            lemma_whole_elements(i, self.count as int, size);
        }
        lemma_padding_reaches_boundary(self.base as nat, self.shape.alignment as nat);
        assert forall|index: nat| index < self.count() implies #[trigger] self.element_address(
            index,
        ) % (self.shape().alignment as int) == 0 by {
            lemma_steps_stay_aligned(
                self.base as nat + self.first as nat,
                self.shape.size as nat,
                self.shape.alignment as nat,
                index,
            );
        }
    }

    /// Builds a dataset of zeroed elements of the given shape: as many as fit
    /// into `capacity` bytes by truncating division, the first one placed on
    /// the next multiple of the shape's alignment.
    pub fn build(shape: ElementShape, capacity: usize) -> (dataset: Dataset)
        requires
            shape.valid(),
            capacity + shape.alignment <= usize::MAX,
        ensures
            dataset.well_formed(),
            dataset.shape() == shape,
            dataset.count() == fill_count(capacity as nat, shape.size as nat),
            dataset.count() * shape.size <= capacity < dataset.count() * shape.size + shape.size,
            dataset@ == zeroed(dataset.count(), shape.size as nat),
            dataset.aligned(),
    {
        let count = element_count(capacity, shape.size);
        let footprint = count * shape.size;
        let buffer = vec![0u8; footprint + (shape.alignment - 1)];
        let base = buffer_address(&buffer);
        let first = padding(base, shape.alignment);
        let dataset = Dataset { buffer, base, first, shape, count };
        proof {
            dataset.lemma_geometry();
            assert forall|i: int| 0 <= i < dataset.count() implies #[trigger] dataset@[i]
                =~= Seq::new(shape.size as nat, |j: int| 0u8) by {
                lemma_whole_elements(i, count as int, shape.size as int);
            }
            assert(dataset@ =~= zeroed(dataset.count(), shape.size as nat));
        }
        dataset
    }

    /// The write-cycle touch: increments every byte of element `index`,
    /// wrapping at 256, and leaves every other element as it was.
    pub fn touch_element(&mut self, index: usize)
        requires
            old(self).well_formed(),
            index < old(self).count(),
        ensures
            final(self).well_formed(),
            final(self).same_layout(old(self)),
            final(self)@ == old(self)@.update(
                index as int,
                bumped_element(old(self)@[index as int], 1),
            ),
    {
        let size = self.shape.size;
        proof {
            lemma_whole_elements(index as int, self.count as int, size as int);
        }
        let offset = self.first + index * size;
        let mut j: usize = 0;
        while j < size
            invariant
                j <= size,
                offset + size <= self.buffer.len(),
                self.buffer.len() == old(self).buffer.len(),
                self.shape == old(self).shape,
                self.count == old(self).count,
                self.base == old(self).base,
                self.first == old(self).first,
                self.buffer@ == bumped_range(old(self).buffer@, offset as int, offset + j),
            decreases size - j,
        {
            let byte = self.buffer[offset + j];
            self.buffer.set(offset + j, byte.wrapping_add(1));
            j += 1;
            assert(self.buffer@ =~= bumped_range(old(self).buffer@, offset as int, offset + j));
        }
        proof {
            let before = old(self)@;
            let after = before.update(index as int, bumped_element(before[index as int], 1));
            assert forall|i: int| 0 <= i < self.count implies #[trigger] self@[i] =~= after[i] by {
                lemma_whole_elements(i, self.count as int, size as int);
                if i < index {
                    lemma_whole_elements(i, index as int, size as int);
                } else if i > index {
                    lemma_whole_elements(index as int, i, size as int);
                }
            }
            assert(self@ =~= after);
        }
    }

    /// One pass: touches every element once, in index order.
    pub fn touch_all(&mut self)
        requires
            old(self).well_formed(),
        ensures
            final(self).well_formed(),
            final(self).same_layout(old(self)),
            final(self)@ == bumped_elements(old(self)@, 1),
    {
        let count = self.count;
        let mut index: usize = 0;
        while index < count
            invariant
                index <= count,
                count == self.count,
                self.well_formed(),
                self.same_layout(old(self)),
                self@.len() == old(self)@.len() == count,
                forall|i: int|
                    0 <= i < count ==> #[trigger] self@[i] == if i < index {
                        bumped_element(old(self)@[i], 1)
                    } else {
                        old(self)@[i]
                    },
            decreases count - index,
        {
            self.touch_element(index);
            index += 1;
        }
        assert(self@ =~= bumped_elements(old(self)@, 1));
    }

    /// The iteration driver: `turns` passes over the whole dataset, each
    /// touching every element once.
    pub fn repeat(&mut self, turns: usize)
        requires
            old(self).well_formed(),
        ensures
            final(self).well_formed(),
            final(self).same_layout(old(self)),
            final(self)@ == bumped_elements(old(self)@, turns as nat),
    {
        proof {
            self.lemma_geometry();
            assert(self@ =~~= bumped_elements(self@, 0));
        }
        let mut done: usize = 0;
        while done < turns
            invariant
                done <= turns,
                self.well_formed(),
                self.same_layout(old(self)),
                self@ == bumped_elements(old(self)@, done as nat),
            decreases turns - done,
        {
            self.touch_all();
            done += 1;
            assert(self@ =~~= bumped_elements(old(self)@, done as nat));
        }
    }

    /// Number of elements.
    pub fn len(&self) -> (count: usize)
        ensures
            count == self.count(),
    {
        self.count
    }

    /// Bytes that one pass touches: those of all elements together.
    pub fn footprint(&self) -> (bytes: usize)
        requires
            self.well_formed(),
        ensures
            bytes == self.count() * self.shape().size,
    {
        self.count * self.shape.size
    }

    /// Size and alignment of every element.
    pub fn element_shape(&self) -> (shape: ElementShape)
        ensures
            shape == self.shape(),
    {
        self.shape
    }

    /// The address of the buffer as it was observed when the dataset was built.
    pub fn buffer_base(&self) -> (address: usize)
        ensures
            address == self.base_address(),
    {
        self.base
    }

    /// Offset of element `index` from the start of the buffer.
    pub fn element_offset(&self, index: usize) -> (offset: usize)
        requires
            self.well_formed(),
            index < self.count(),
        ensures
            offset == self.first_offset() + index * self.shape().size,
            self.base_address() + offset == self.element_address(index as nat),
    {
        proof {
            lemma_whole_elements(index as int, self.count as int, self.shape.size as int);
        }
        self.first + index * self.shape.size
    }

    /// The bytes of element `index`, where they lie in the buffer.
    pub fn element(&self, index: usize) -> (bytes: &[u8])
        requires
            self.well_formed(),
            index < self.count(),
        ensures
            bytes@ == self@[index as int],
    {
        proof {
            lemma_whole_elements(index as int, self.count as int, self.shape.size as int);
        }
        let offset = self.first + index * self.shape.size;
        vstd::slice::slice_subrange(self.buffer.as_slice(), offset, offset + self.shape.size)
    }

    /// Byte `position` of element `index`.
    pub fn byte(&self, index: usize, position: usize) -> (value: u8)
        requires
            self.well_formed(),
            index < self.count(),
            position < self.shape().size,
        ensures
            value == self@[index as int][position as int],
    {
        proof {
            lemma_whole_elements(index as int, self.count as int, self.shape.size as int);
        }
        self.buffer[self.first + index * self.shape.size + position]
    }
}

} // verus!
