use cache_experiments::blocks::Blocks;
use cache_experiments::reads::{
    repeat_strided_read, stride_last, stride_read_count, strided_read, Tally,
};

fn tally(passes: usize, reads: usize, last: Option<usize>, checksum: u64) -> Tally {
    Tally { passes, reads, last, checksum }
}

#[test]
fn strided_pass_reads_every_nth_byte() {
    let bytes = [1u8, 2, 3, 4, 5];
    assert_eq!(strided_read(&bytes, 1), tally(1, 5, Some(4), 15));
    assert_eq!(strided_read(&bytes, 2), tally(1, 3, Some(4), 9));
    assert_eq!(strided_read(&bytes, 3), tally(1, 2, Some(3), 5));
    assert_eq!(strided_read(&bytes, 4), tally(1, 2, Some(4), 6));
    assert_eq!(strided_read(&bytes, 5), tally(1, 1, Some(0), 1));
    assert_eq!(strided_read(&bytes, 64), tally(1, 1, Some(0), 1));
}

#[test]
fn strided_pass_over_nothing_reads_nothing() {
    let bytes: [u8; 0] = [];
    assert_eq!(strided_read(&bytes, 1), tally(1, 0, None, 0));
    assert_eq!(repeat_strided_read(&bytes, 3, 10), tally(10, 0, None, 0));
}

#[test]
fn stride_as_large_as_a_word_reads_the_first_byte_only() {
    let bytes = [9u8, 8, 7];
    assert_eq!(strided_read(&bytes, usize::MAX), tally(1, 1, Some(0), 9));
}

#[test]
fn repeated_passes_add_up() {
    let bytes = [1u8, 2, 3, 4, 5];
    assert_eq!(repeat_strided_read(&bytes, 2, 3), tally(3, 3, Some(4), 27));
    assert_eq!(repeat_strided_read(&bytes, 2, 1), strided_read(&bytes, 2));
    assert_eq!(repeat_strided_read(&bytes, 2, 0), tally(0, 3, Some(4), 0));
}

#[test]
fn tally_tells_the_number_of_passes() {
    let zeros = vec![0u8; 1_000];
    let none = repeat_strided_read(&zeros, 10, 0);
    let many = repeat_strided_read(&zeros, 10, 259);
    assert_ne!(none, many);
    assert_eq!(none, tally(0, 100, Some(990), 0));
    assert_eq!(many, tally(259, 100, Some(990), 0));
}

#[test]
fn tally_tells_where_the_reads_fall() {
    let ones = vec![1u8; 1_000];
    assert_eq!(repeat_strided_read(&ones, 7, 2), tally(2, 143, Some(994), 286));
    assert_eq!(repeat_strided_read(&ones, 64, 2), tally(2, 16, Some(960), 32));
    assert_eq!(repeat_strided_read(&ones, 1, 2), tally(2, 1_000, Some(999), 2_000));
    assert_eq!(repeat_strided_read(&ones, 1_000, 2), tally(2, 1, Some(0), 2));
}

#[test]
fn passes_over_full_bytes_count_each_read() {
    let bytes = vec![255u8; 1_000];
    assert_eq!(
        repeat_strided_read(&bytes, 10, 259),
        tally(259, 100, Some(990), 259 * 100 * 255)
    );
}

#[test]
fn positions_are_the_quotient_rounded_up() {
    assert_eq!(stride_read_count(0, 1), 0);
    assert_eq!(stride_read_count(0, 64), 0);
    assert_eq!(stride_read_count(1, 64), 1);
    assert_eq!(stride_read_count(64, 64), 1);
    assert_eq!(stride_read_count(65, 64), 2);
    assert_eq!(stride_read_count(1_572_864, 64), 24_576);
    assert_eq!(stride_read_count(1_572_864, 7), 224_695);
    assert_eq!(stride_read_count(usize::MAX, 1), usize::MAX);
    assert_eq!(stride_read_count(usize::MAX, usize::MAX), 1);
}

#[test]
fn last_position_is_the_greatest_multiple_below_the_length() {
    assert_eq!(stride_last(0, 1), None);
    assert_eq!(stride_last(0, 64), None);
    assert_eq!(stride_last(1, 64), Some(0));
    assert_eq!(stride_last(64, 64), Some(0));
    assert_eq!(stride_last(65, 64), Some(64));
    assert_eq!(stride_last(1_572_864, 64), Some(1_572_800));
    assert_eq!(stride_last(1_572_864, 7), Some(1_572_858));
    assert_eq!(stride_last(usize::MAX, 1), Some(usize::MAX - 1));
    assert_eq!(stride_last(usize::MAX, usize::MAX), Some(0));
}

#[test]
fn position_count_matches_a_plain_walk() {
    for len in 0usize..70 {
        for stride in 1usize..12 {
            let walked: Vec<usize> = (0..len).step_by(stride).collect();
            assert_eq!(stride_read_count(len, stride), walked.len());
            assert_eq!(stride_last(len, stride), walked.last().copied());
            let bytes = vec![1u8; len];
            assert_eq!(
                strided_read(&bytes, stride),
                tally(1, walked.len(), walked.last().copied(), walked.len() as u64)
            );
        }
    }
}

#[test]
fn reads_fall_on_the_stride_positions_only() {
    let mut bytes = vec![0u8; 100];
    for position in (0..100).step_by(9) {
        bytes[position] = 3;
    }
    assert_eq!(strided_read(&bytes, 9), tally(1, 12, Some(99), 36));
    let mut bytes = vec![3u8; 100];
    for position in (0..100).step_by(9) {
        bytes[position] = 0;
    }
    assert_eq!(strided_read(&bytes, 9), tally(1, 12, Some(99), 0));
}

#[test]
fn blocks_are_zeroed_and_fill_the_capacity() {
    let blocks = Blocks::build(7, 100);
    assert_eq!(blocks.len(), 14);
    assert_eq!(blocks.size(), 7);
    assert_eq!(blocks.footprint(), 98);
    assert_eq!(blocks.block(13), &[0u8; 7][..]);
    assert_eq!(strided_read(blocks.block(0), 1), tally(1, 7, Some(6), 0));
    for index in 0..14 {
        for position in 0..7 {
            assert_eq!(blocks.byte(index, position), 0);
        }
    }
}

#[test]
fn block_larger_than_the_capacity_leaves_no_block() {
    let blocks = Blocks::build(101, 100);
    assert_eq!(blocks.len(), 0);
    assert_eq!(blocks.repeat_read(3), tally(3, 0, None, 0));
}

#[test]
fn reading_blocks_reads_every_byte() {
    let blocks = Blocks::build(7, 100);
    assert_eq!(blocks.read_all(), tally(1, 98, Some(6), 0));
    assert_eq!(blocks.repeat_read(259), tally(259, 98, Some(6), 0));
    assert_eq!(blocks.repeat_read(0), tally(0, 98, Some(6), 0));
}
