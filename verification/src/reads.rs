//! The read touch: opaque reads at every `stride`-th byte of a buffer, and the
//! driver that repeats such a pass a fixed number of times.

use vstd::prelude::*;
use vstd::arithmetic::div_mod::lemma_fundamental_div_mod;
use vstd::arithmetic::mul::{lemma_mul_is_commutative, lemma_mul_is_distributive_add_other_way};

verus! {

/// What a read touch leaves behind.
#[derive(Clone, Copy, Debug, PartialEq, Eq)]
pub struct Tally {
    /// Passes made.
    pub passes: usize,
    /// Bytes that one pass reads.
    pub reads: usize,
    /// Offset of the last byte that a pass reads, in the buffer or block that
    /// holds it; nothing where a pass reads nothing.
    pub last: Option<usize>,
    /// Sum of every byte value read over all passes, wrapping at 2^64.
    pub checksum: u64,
}

/// A sum of byte values as a checksum holds it: reduced modulo 2^64.
pub open spec fn wrapped(total: nat) -> u64 {
    (total % 0x1_0000_0000_0000_0000nat) as u64
}

/// Number of positions `0, stride, 2 * stride, ...` that lie below `len`.
pub open spec fn stride_positions(len: nat, stride: nat) -> nat
    recommends
        stride > 0,
{
    ((len + stride - 1) / (stride as int)) as nat
}

/// The last of the positions `0, stride, 2 * stride, ...` that lie below
/// `len`, if there is one.
pub open spec fn last_position(len: nat, stride: nat) -> Option<usize>
    recommends
        stride > 0,
{
    if len == 0 {
        None
    } else {
        Some(((stride_positions(len, stride) - 1) * stride) as usize)
    }
}

/// Sum of the bytes at the first `reads` stride positions of `bytes`.
pub open spec fn strided_sum(bytes: Seq<u8>, stride: nat, reads: nat) -> nat
    decreases reads,
{
    if reads == 0 {
        0
    } else {
        strided_sum(bytes, stride, (reads - 1) as nat) + bytes[(reads - 1) * stride] as nat
    }
}

/// Sum of the bytes that one strided pass over `bytes` reads.
pub open spec fn pass_sum(bytes: Seq<u8>, stride: nat) -> nat {
    strided_sum(bytes, stride, stride_positions(bytes.len(), stride))
}

/// The tally of `turns` strided passes over `bytes`.
pub open spec fn tally_of(bytes: Seq<u8>, stride: nat, turns: nat) -> Tally {
    Tally {
        passes: turns as usize,
        reads: stride_positions(bytes.len(), stride) as usize,
        last: last_position(bytes.len(), stride),
        checksum: wrapped(turns * pass_sum(bytes, stride)),
    }
}

/// The stride positions below `len` are exactly those with index below
/// [`stride_positions`]: the last one read lies inside the buffer and the next
/// one would lie outside.
pub proof fn lemma_stride_positions(len: nat, stride: nat)
    requires
        stride > 0,
    ensures
        stride_positions(len, stride) <= len,
        len <= stride_positions(len, stride) * stride,
        len > 0 ==> (stride_positions(len, stride) - 1) * stride < len,
        len == 0 ==> stride_positions(len, stride) == 0,
{
    let s = stride as int;
    let n = len + stride - 1;
    let q = n / s;
    lemma_fundamental_div_mod(n, s);
    lemma_mul_is_commutative(s, q);
    assert(q <= len) by (nonlinear_arith)
        requires
            n == q * s + n % s,
            0 <= n % s < s,
            n == len + s - 1,
            s >= 1,
            len >= 0,
    ;
    assert(len > 0 ==> (q - 1) * s < len) by (nonlinear_arith)
        requires
            n == q * s + n % s,
            0 <= n % s < s,
            n == len + s - 1,
    ;
}

/// A count of reads that covers the buffer and whose last read lies inside it
/// is the number of stride positions.
pub proof fn lemma_stride_positions_unique(len: nat, stride: nat, reads: nat)
    requires
        stride > 0,
        len <= reads * stride,
        reads > 0 ==> (reads - 1) * stride < len,
    ensures
        reads == stride_positions(len, stride),
{
    lemma_stride_positions(len, stride);
    let p = stride_positions(len, stride) as int;
    let r = reads as int;
    let s = stride as int;
    assert(r == p) by (nonlinear_arith)
        requires
            s > 0,
            r >= 0,
            p >= 0,
            len <= r * s,
            r > 0 ==> (r - 1) * s < len,
            len <= p * s,
            len > 0 ==> (p - 1) * s < len,
            len == 0 ==> p == 0,
    ;
}

/// `std::hint::black_box` on one byte: the identity. It asks the optimiser to
/// treat the value as used, which std promises as best effort only, so that
/// the read that produced the value is kept.
#[verifier::external_body]
fn opaque(byte: u8) -> (seen: u8)
    ensures
        seen == byte,
{
    std::hint::black_box(byte)
}

/// One pass of the read touch: reads the bytes at positions
/// `0, stride, 2 * stride, ...` of `bytes`, each through an opaque use, and
/// tallies them.
pub fn strided_read(bytes: &[u8], stride: usize) -> (tally: Tally)
    requires
        stride > 0,
    ensures
        tally == tally_of(bytes@, stride as nat, 1),
        tally.reads == stride_positions(bytes@.len(), stride as nat),
        tally.last == last_position(bytes@.len(), stride as nat),
        tally.checksum == wrapped(pass_sum(bytes@, stride as nat)),
{
    let len = bytes.len();
    let mut position: usize = 0;
    let mut reads: usize = 0;
    let mut last: Option<usize> = None;
    let mut checksum: u64 = 0;
    while position < len
        invariant
            len == bytes@.len(),
            stride > 0,
            position <= len,
            reads <= position,
            position < len ==> position == reads * stride,
            position == len ==> len <= reads * stride,
            reads > 0 ==> (reads - 1) * stride < len,
            reads == 0 ==> last is None,
            reads > 0 ==> last == Some(((reads - 1) * stride) as usize),
            checksum == wrapped(strided_sum(bytes@, stride as nat, reads as nat)),
        decreases len - position,
    {
        let byte = opaque(bytes[position]);
        last = Some(position);
        checksum = checksum.wrapping_add(byte as u64);
        proof {
            assert((reads + 1) * stride == reads * stride + stride) by (nonlinear_arith);
            assert(reads * stride >= reads) by (nonlinear_arith)
                requires
                    stride >= 1,
                    reads >= 0,
            ;
        }
        reads += 1;
        if len - position <= stride {
            position = len;
        } else {
            position += stride;
        }
    }
    proof {
        lemma_stride_positions_unique(bytes@.len(), stride as nat, reads as nat);
        assert(1 * pass_sum(bytes@, stride as nat) == pass_sum(bytes@, stride as nat));
    }
    Tally { passes: 1, reads, last, checksum }
}

/// The iteration driver for reads: `turns` strided passes over `bytes`, every
/// pass reading the same positions, with no early exit.
pub fn repeat_strided_read(bytes: &[u8], stride: usize, turns: usize) -> (tally: Tally)
    requires
        stride > 0,
    ensures
        tally == tally_of(bytes@, stride as nat, turns as nat),
{
    let ghost each = pass_sum(bytes@, stride as nat);
    let mut done: usize = 0;
    let mut checksum: u64 = 0;
    assert(0 * each == 0);
    while done < turns
        invariant
            done <= turns,
            stride > 0,
            each == pass_sum(bytes@, stride as nat),
            checksum == wrapped((done * each) as nat),
        decreases turns - done,
    {
        let pass = strided_read(bytes, stride);
        checksum = checksum.wrapping_add(pass.checksum);
        proof {
            lemma_mul_is_distributive_add_other_way(each as int, done as int, 1);
        }
        done += 1;
    }
    Tally {
        passes: done,
        reads: stride_read_count(bytes.len(), stride),
        last: stride_last(bytes.len(), stride),
        checksum,
    }
}

/// Computes [`last_position`].
pub fn stride_last(len: usize, stride: usize) -> (last: Option<usize>)
    requires
        stride > 0,
    ensures
        last == last_position(len as nat, stride as nat),
{
    if len == 0 {
        None
    } else {
        let reads = stride_read_count(len, stride);
        proof {
            lemma_stride_positions(len as nat, stride as nat);
            assert(reads >= 1) by (nonlinear_arith)
                requires
                    len > 0,
                    len <= reads * stride,
                    stride > 0,
            ;
        }
        Some((reads - 1) * stride)
    }
}

/// Computes [`stride_positions`].
pub fn stride_read_count(len: usize, stride: usize) -> (reads: usize)
    requires
        stride > 0,
    ensures
        reads == stride_positions(len as nat, stride as nat),
{
    proof {
        lemma_stride_positions(len as nat, stride as nat);
    }
    if len == 0 {
        0
    } else {
        let whole = (len - 1) / stride;
        proof {
            lemma_fundamental_div_mod((len - 1) as int, stride as int);
            lemma_mul_is_commutative(stride as int, whole as int);
            assert((whole + 1) * stride == whole * stride + stride) by (nonlinear_arith);
            lemma_stride_positions_unique(len as nat, stride as nat, (whole + 1) as nat);
        }
        whole + 1
    }
}

} // verus!
