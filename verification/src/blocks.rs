//! A dataset whose elements are separate heap blocks of a size chosen at run
//! time, and the read touch over every byte of each.

use vstd::prelude::*;
use vstd::arithmetic::mul::lemma_mul_is_distributive_add_other_way;
use crate::dataset::zeroed;
use crate::layout::{element_count, fill_count};
use crate::reads::{pass_sum, strided_read, wrapped, Tally};

verus! {

/// Sum of all the bytes that one read pass over `elements` reads: every byte
/// of every element.
pub open spec fn elements_sum(elements: Seq<Seq<u8>>) -> nat
    decreases elements.len(),
{
    if elements.len() == 0 {
        0
    } else {
        elements_sum(elements.drop_last()) + pass_sum(elements.last(), 1)
    }
}

proof fn lemma_whole_blocks(index: int, count: int, size: int)
    by (nonlinear_arith)
    requires
        0 <= index < count,
        0 <= size,
    ensures
        0 <= index * size,
        (index + 1) * size == index * size + size,
        (index + 1) * size <= count * size,
{
}

/// Heap blocks of one size, each allocated on its own.
///
/// The mathematical view is the sequence of blocks, each the sequence of its
/// bytes.
#[derive(Debug)]
pub struct Blocks {
    blocks: Vec<Vec<u8>>,
    size: usize,
}

impl View for Blocks {
    type V = Seq<Seq<u8>>;

    closed spec fn view(&self) -> Seq<Seq<u8>> {
        Seq::new(self.blocks@.len(), |i: int| self.blocks@[i]@)
    }
}

impl Blocks {
    /// Size of every block in bytes.
    pub closed spec fn block_size(&self) -> nat {
        self.size as nat
    }

    /// Number of blocks.
    pub closed spec fn count(&self) -> nat {
        self.blocks@.len()
    }

    /// The representation invariant: the common size is positive, every block
    /// has it, and the bytes of all blocks together can be counted in a
    /// `usize`.
    pub closed spec fn well_formed(&self) -> bool {
        &&& self.size > 0
        &&& forall|i: int|
            0 <= i < self.blocks@.len() ==> (#[trigger] self.blocks@[i])@.len() == self.size
        &&& self.blocks@.len() * self.size <= usize::MAX
    }

    /// The view of a well-formed set has `count` blocks of `block_size` bytes.
    pub proof fn lemma_geometry(&self)
        requires
            self.well_formed(),
        ensures
            self@.len() == self.count(),
            self.block_size() > 0,
            forall|i: int|
                0 <= i < self.count() ==> (#[trigger] self@[i]).len() == self.block_size(),
            self.count() * self.block_size() <= usize::MAX,
    {
    }

    /// The tally of `turns` read passes over the blocks: every byte of every
    /// block is read, the last one at the end of the last block.
    pub open spec fn tally_of(&self, turns: nat) -> Tally {
        Tally {
            passes: turns as usize,
            reads: (self.count() * self.block_size()) as usize,
            last: if self.count() == 0 {
                None
            } else {
                Some((self.block_size() - 1) as usize)
            },
            checksum: wrapped(turns * elements_sum(self@)),
        }
    }

    /// Builds zeroed blocks of `size` bytes: as many as fit into `capacity`
    /// bytes by truncating division.
    pub fn build(size: usize, capacity: usize) -> (set: Blocks)
        requires
            size > 0,
        ensures
            set.well_formed(),
            set.block_size() == size,
            set.count() == fill_count(capacity as nat, size as nat),
            set.count() * size <= capacity < set.count() * size + size,
            set@ == zeroed(set.count(), size as nat),
    {
        let count = element_count(capacity, size);
        let mut blocks: Vec<Vec<u8>> = Vec::new();
        let mut made: usize = 0;
        while made < count
            invariant
                made <= count,
                blocks@.len() == made,
                forall|i: int|
                    0 <= i < made ==> (#[trigger] blocks@[i])@ =~= Seq::new(
                        size as nat,
                        |j: int| 0u8,
                    ),
            decreases count - made,
        {
            blocks.push(vec![0u8; size]);
            made += 1;
        }
        let set = Blocks { blocks, size };
        assert(set@ =~= zeroed(set.count(), size as nat));
        set
    }

    /// One pass of the read touch: reads every byte of every block, block by
    /// block in index order, each through an opaque use.
    pub fn read_all(&self) -> (tally: Tally)
        requires
            self.well_formed(),
        ensures
            tally == self.tally_of(1),
    {
        let count = self.blocks.len();
        let mut index: usize = 0;
        let mut reads: usize = 0;
        let mut last: Option<usize> = None;
        let mut checksum: u64 = 0;
        assert(self@.take(0) =~= Seq::<Seq<u8>>::empty());
        while index < count
            invariant
                index <= count,
                count == self.blocks@.len(),
                self.well_formed(),
                reads == index * self.size,
                index == 0 ==> last is None,
                index > 0 ==> last == Some((self.size - 1) as usize),
                checksum == wrapped(elements_sum(self@.take(index as int))),
            decreases count - index,
        {
            let block = strided_read(self.blocks[index].as_slice(), 1);
            proof {
                lemma_whole_blocks(index as int, count as int, self.size as int);
                let next = self@.take(index + 1);
                assert(next.drop_last() =~= self@.take(index as int));
            }
            checksum = checksum.wrapping_add(block.checksum);
            reads += block.reads;
            last = block.last;
            index += 1;
        }
        assert(self@.take(count as int) =~= self@);
        assert(1 * elements_sum(self@) == elements_sum(self@));
        Tally { passes: 1, reads, last, checksum }
    }

    /// The iteration driver for blocks: `turns` passes, each reading every
    /// byte of every block, with no early exit.
    pub fn repeat_read(&self, turns: usize) -> (tally: Tally)
        requires
            self.well_formed(),
        ensures
            tally == self.tally_of(turns as nat),
    {
        let ghost each = elements_sum(self@);
        let mut done: usize = 0;
        let mut checksum: u64 = 0;
        assert(0 * each == 0);
        while done < turns
            invariant
                done <= turns,
                self.well_formed(),
                each == elements_sum(self@),
                checksum == wrapped((done * each) as nat),
            decreases turns - done,
        {
            let pass = self.read_all();
            checksum = checksum.wrapping_add(pass.checksum);
            proof {
                lemma_mul_is_distributive_add_other_way(each as int, done as int, 1);
            }
            done += 1;
        }
        let last = if self.blocks.len() == 0 {
            None
        } else {
            Some(self.size - 1)
        };
        Tally { passes: done, reads: self.blocks.len() * self.size, last, checksum }
    }

    /// Number of blocks.
    pub fn len(&self) -> (count: usize)
        ensures
            count == self.count(),
    {
        self.blocks.len()
    }

    /// Bytes that one pass reads: those of all blocks together.
    pub fn footprint(&self) -> (bytes: usize)
        requires
            self.well_formed(),
        ensures
            bytes == self.count() * self.block_size(),
    {
        self.blocks.len() * self.size
    }

    /// Size of every block in bytes.
    pub fn size(&self) -> (size: usize)
        ensures
            size == self.block_size(),
    {
        self.size
    }

    /// The bytes of block `index`.
    pub fn block(&self, index: usize) -> (bytes: &[u8])
        requires
            self.well_formed(),
            index < self.count(),
        ensures
            bytes@ == self@[index as int],
    {
        self.blocks[index].as_slice()
    }

    /// Byte `position` of block `index`.
    pub fn byte(&self, index: usize, position: usize) -> (value: u8)
        requires
            self.well_formed(),
            index < self.count(),
            position < self.block_size(),
        ensures
            value == self@[index as int][position as int],
    {
        self.blocks[index][position]
    }
}

} // verus!
