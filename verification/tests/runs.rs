use cache_experiments::config::{AlignmentKind, Config};
use cache_experiments::dataset::Dataset;
use cache_experiments::error::ExperimentError;
use cache_experiments::family::Family;
use cache_experiments::reads::Tally;
use cache_experiments::runner::{
    execute, exit_status, is_admissible, run, run_blocks, run_byte_stride, run_family,
    run_fixed_stride, run_layout, run_v1, run_v2, run_v3, run_v4, Outcome,
};
use cache_experiments::selector::Experiment;

fn small() -> Config {
    Config {
        capacity: 4_096,
        cache_line: 64,
        lines_per_element: 3,
        unaligned_size: 7,
        layout_turns: 100,
        sweep_turns: 259,
        stride_buffer: 6_400,
        stride_turns: 10,
    }
}

fn command(tokens: &[&str]) -> Vec<String> {
    tokens.iter().map(|token| token.to_string()).collect()
}

fn tally(passes: usize, reads: usize, last: Option<usize>, checksum: u64) -> Tally {
    Tally { passes, reads, last, checksum }
}

fn written(result: Result<Outcome, ExperimentError>) -> Dataset {
    match result {
        Ok(Outcome::Written(_, dataset)) => dataset,
        other => panic!("no dataset: {:?}", other),
    }
}

fn read(result: Result<Outcome, ExperimentError>) -> (Vec<u8>, Tally) {
    match result {
        Ok(Outcome::Read(buffer, tally)) => (buffer, tally),
        other => panic!("no buffer: {:?}", other),
    }
}

fn tallied(result: Result<Outcome, ExperimentError>) -> Tally {
    match result {
        Ok(Outcome::Read(_, tally)) => tally,
        Ok(Outcome::Swept(_, tally)) => tally,
        other => panic!("no tally: {:?}", other),
    }
}

fn refusal(result: Result<Outcome, ExperimentError>) -> ExperimentError {
    match result {
        Err(error) => error,
        Ok(outcome) => panic!("not refused: {:?}", outcome),
    }
}

fn bytes_of(dataset: &Dataset) -> Vec<Vec<u8>> {
    let size = dataset.element_shape().size;
    (0..dataset.len())
        .map(|index| (0..size).map(|position| dataset.byte(index, position)).collect())
        .collect()
}

#[test]
fn reference_configuration_holds_the_reference_values() {
    let config = Config::reference();
    assert!(config.is_valid());
    assert_eq!(config.capacity, 1_572_864);
    assert_eq!(config.cache_line, 64);
    assert_eq!(config.lines_per_element, 3);
    assert_eq!(config.unaligned_size, 7);
    assert_eq!(config.layout_turns, 100);
    assert_eq!(config.sweep_turns, 259);
    assert_eq!(config.stride_buffer, 24_000_000);
    assert_eq!(config.stride_turns, 1000);
}

#[test]
fn configuration_validity() {
    assert!(small().is_valid());
    assert!(!Config { cache_line: 0, ..small() }.is_valid());
    assert!(!Config { lines_per_element: 0, ..small() }.is_valid());
    assert!(!Config { unaligned_size: 0, ..small() }.is_valid());
    assert!(!Config { unaligned_size: 8, ..small() }.is_valid());
    assert!(!Config { unaligned_size: 64, ..small() }.is_valid());
    assert!(Config { unaligned_size: 65, ..small() }.is_valid());
    assert!(!Config { lines_per_element: usize::MAX, ..small() }.is_valid());
    assert!(!Config { capacity: usize::MAX, ..small() }.is_valid());
    assert!(Config { capacity: usize::MAX - 64, ..small() }.is_valid());
    assert!(Config { capacity: 0, layout_turns: 0, ..small() }.is_valid());
}

#[test]
fn each_kind_asks_only_for_what_it_reads() {
    let divisor = Config { unaligned_size: 8, ..small() };
    assert!(divisor.is_supported(AlignmentKind::Explicit));
    assert!(divisor.is_supported(AlignmentKind::Implicit));
    assert!(!divisor.is_supported(AlignmentKind::Unaligned));
    let lineless = Config { cache_line: 0, lines_per_element: 0, ..small() };
    assert!(!lineless.is_supported(AlignmentKind::Explicit));
    assert!(!lineless.is_supported(AlignmentKind::Implicit));
    assert!(!lineless.is_supported(AlignmentKind::Unaligned));
    let wide = Config { cache_line: 1_024, ..small() };
    assert!(wide.is_supported(AlignmentKind::Unaligned));
    let brim = Config { capacity: usize::MAX - 1, ..small() };
    assert!(!brim.is_supported(AlignmentKind::Explicit));
    assert!(brim.is_supported(AlignmentKind::Implicit));
    assert!(brim.is_supported(AlignmentKind::Unaligned));
    let dataset = written(run(&command(&["bench", "v1", "explicit"]), &divisor));
    assert_eq!(dataset.len(), 21);
    assert_eq!(dataset.byte(20, 191), 100);
}

#[test]
fn shapes_of_the_alignment_kinds() {
    let config = Config::reference();
    let explicit = config.shape(AlignmentKind::Explicit);
    assert_eq!((explicit.size, explicit.alignment), (192, 64));
    let implicit = config.shape(AlignmentKind::Implicit);
    assert_eq!((implicit.size, implicit.alignment), (192, 1));
    let unaligned = config.shape(AlignmentKind::Unaligned);
    assert_eq!((unaligned.size, unaligned.alignment), (7, 1));
    assert_ne!(config.cache_line % unaligned.size, 0);
}

#[test]
fn alignment_none_runs_every_write_cycle() {
    let result = run(&command(&["bench", "v1", "none"]), &small());
    assert_eq!(exit_status(&result), 0);
    match result {
        Ok(Outcome::Written(kind, dataset)) => {
            assert_eq!(kind, AlignmentKind::Unaligned);
            assert_eq!(dataset.len(), 585);
            assert_eq!(dataset.element_shape().size, 7);
            assert_eq!(bytes_of(&dataset), vec![vec![100u8; 7]; 585]);
            let outcome = Outcome::Written(kind, dataset);
            assert_eq!(outcome.notice(), Some("Benchmark for none complete".to_string()));
        },
        other => panic!("no dataset: {:?}", other),
    }
}

#[test]
fn notice_names_the_kind_that_was_run() {
    for (token, text) in [
        ("explicit", "Benchmark for explicit complete"),
        ("implicit", "Benchmark for implicit complete"),
        ("none", "Benchmark for none complete"),
    ] {
        for result in [
            run(&command(&["bench", "v1", token]), &small()),
            run_v1(&command(&["bench", "v1", token]), &small()),
        ] {
            match result {
                Ok(outcome) => assert_eq!(outcome.notice(), Some(text.to_string())),
                Err(error) => panic!("refused: {:?}", error),
            }
        }
    }
}

#[test]
fn reading_experiments_have_no_notice() {
    for tokens in [["bench", "v2", "7"], ["bench", "v3", "64"], ["bench", "v4", "64"]] {
        match run(&command(&tokens), &small()) {
            Ok(outcome) => assert_eq!(outcome.notice(), None),
            Err(error) => panic!("refused: {:?}", error),
        }
    }
}

#[test]
fn alignment_bogus_is_refused_by_name() {
    let result = run(&command(&["bench", "v1", "bogus"]), &small());
    assert_eq!(exit_status(&result), 1);
    let error = refusal(result);
    assert_eq!(error, ExperimentError::UnknownAlignment { token: "bogus".to_string() });
    assert_eq!(error.exit_code(), 1);
    assert!(error.message("bench").contains("bogus"));
}

#[test]
fn byte_stride_sixty_four_reads_across_the_fixed_buffer() {
    let result = run(&command(&["bench", "v4", "64"]), &small());
    assert_eq!(exit_status(&result), 0);
    let (buffer, found) = read(result);
    assert_eq!(buffer, vec![1u8; 6_400]);
    assert_eq!(found, tally(10, 100, Some(6_336), 1_000));
}

#[test]
fn byte_stride_buffer_is_the_same_for_every_stride() {
    for (stride, reads, last) in [
        ("1", 6_400, 6_399),
        ("7", 915, 6_398),
        ("24", 267, 6_384),
        ("64", 100, 6_336),
        ("6400", 1, 0),
        ("6401", 1, 0),
        ("18446744073709551615", 1, 0),
    ] {
        if stride.parse::<usize>().is_err() {
            continue;
        }
        let (buffer, found) = read(run(&command(&["bench", "v4", stride]), &small()));
        assert_eq!(buffer, vec![1u8; 6_400]);
        assert_eq!(found, tally(10, reads, Some(last), 10 * reads as u64));
    }
}

#[test]
fn byte_stride_at_the_reference_length() {
    let (buffer, found) = read(run(&command(&["bench", "v4", "64"]), &Config::reference()));
    assert_eq!(buffer.len(), 24_000_000);
    assert!(buffer.iter().all(|byte| *byte == 1));
    assert_eq!(found, tally(1_000, 375_000, Some(23_999_936), 375_000_000));
}

#[test]
fn fixed_stride_reads_across_the_capacity() {
    let (buffer, found) = read(run(&command(&["bench", "v3", "64"]), &small()));
    assert_eq!(buffer, vec![0u8; 4_096]);
    assert_eq!(found, tally(259, 64, Some(4_032), 0));
    let found = tallied(run(&command(&["bench", "v3", "100"]), &small()));
    assert_eq!(found, tally(259, 41, Some(4_000), 0));
    let found = tallied(run(&command(&["bench", "v3", "5000"]), &small()));
    assert_eq!(found, tally(259, 1, Some(0), 0));
    let found = tallied(run(&command(&["bench", "v3", "1"]), &small()));
    assert_eq!(found, tally(259, 4_096, Some(4_095), 0));
}

#[test]
fn fixed_stride_at_the_reference_capacity() {
    let found = tallied(run(&command(&["bench", "v3", "64"]), &Config::reference()));
    assert_eq!(found, tally(259, 24_576, Some(1_572_800), 0));
    let found = tallied(run(&command(&["bench", "v3", "7"]), &Config::reference()));
    assert_eq!(found, tally(259, 224_695, Some(1_572_858), 0));
}

#[test]
fn pass_counts_come_from_the_configuration() {
    for turns in [0usize, 1, 2, 259] {
        let config = Config { sweep_turns: turns, stride_turns: turns, ..small() };
        assert_eq!(tallied(run(&command(&["bench", "v2", "7"]), &config)).passes, turns);
        assert_eq!(tallied(run(&command(&["bench", "v3", "7"]), &config)).passes, turns);
        let found = tallied(run(&command(&["bench", "v4", "7"]), &config));
        assert_eq!(found, tally(turns, 915, Some(6_398), 915 * turns as u64));
    }
}

#[test]
fn element_size_seven_runs_to_completion() {
    let result = run(&command(&["bench", "v2", "7"]), &small());
    assert_eq!(exit_status(&result), 0);
    match result {
        Ok(Outcome::Swept(blocks, found)) => {
            assert_eq!(blocks.len(), 585);
            assert_eq!(blocks.size(), 7);
            assert!(blocks.footprint() <= 4_096 && 4_096 < blocks.footprint() + 7);
            for index in 0..blocks.len() {
                assert_eq!(blocks.block(index), &[0u8; 7][..]);
            }
            assert_eq!(found, tally(259, 4_095, Some(6), 0));
        },
        other => panic!("no blocks: {:?}", other),
    }
}

#[test]
fn stride_seven_runs_to_completion() {
    let third = run(&command(&["bench", "v3", "7"]), &small());
    assert_eq!(exit_status(&third), 0);
    assert_eq!(tallied(third), tally(259, 586, Some(4_095), 0));
    let fourth = run(&command(&["bench", "v4", "7"]), &small());
    assert_eq!(exit_status(&fourth), 0);
    assert_eq!(tallied(fourth), tally(10, 915, Some(6_398), 9_150));
}

#[test]
fn zero_is_out_of_range_for_size_and_stride() {
    for (version, family) in [
        ("v2", Family::ElementSize),
        ("v3", Family::FixedStride),
        ("v4", Family::ByteStride),
    ] {
        let result = run(&command(&["bench", version, "0"]), &small());
        assert_eq!(exit_status(&result), 1);
        let error = refusal(result);
        assert_eq!(error, ExperimentError::Zero { family });
        assert_eq!(error.exit_code(), 1);
        assert!(error.message("bench").contains("must be greater than 0"));
    }
}

#[test]
fn text_is_no_size_and_no_stride() {
    for (version, family) in [
        ("v2", Family::ElementSize),
        ("v3", Family::FixedStride),
        ("v4", Family::ByteStride),
    ] {
        let result = run(&command(&["bench", version, "abc"]), &small());
        assert_eq!(exit_status(&result), 1);
        let error = refusal(result);
        assert_eq!(error, ExperimentError::NotANumber { family, token: "abc".to_string() });
        assert_eq!(error.exit_code(), 1);
        assert!(error.message("bench").starts_with("Usage: bench "));
    }
}

#[test]
fn missing_argument_is_refused_for_every_version() {
    for version in ["v1", "v2", "v3", "v4"] {
        let result = run(&command(&["bench", version]), &small());
        assert_eq!(exit_status(&result), 1);
        let error = refusal(result);
        assert_eq!(error, ExperimentError::ArgumentCount { given: 2 });
        assert_eq!(error.exit_code(), 1);
    }
    let error = refusal(run(&command(&["bench"]), &small()));
    assert_eq!(error, ExperimentError::ArgumentCount { given: 1 });
}

#[test]
fn each_family_refuses_a_line_without_its_argument() {
    let config = small();
    for given in 0usize..3 {
        let tokens = ["bench", "v1"];
        let line = command(&tokens[..given]);
        for result in [
            run_v1(&line, &config),
            run_v2(&line, &config),
            run_v3(&line, &config),
            run_v4(&line, &config),
        ] {
            assert_eq!(exit_status(&result), 1);
            assert_eq!(refusal(result), ExperimentError::ArgumentCount { given });
        }
    }
    let broken = Config { cache_line: 0, unaligned_size: 0, ..small() };
    let result = run_v1(&command(&["bench", "v1"]), &broken);
    assert_eq!(refusal(result), ExperimentError::ArgumentCount { given: 2 });
}

#[test]
fn unknown_version_is_refused() {
    let error = refusal(run(&command(&["bench", "v7", "64"]), &small()));
    assert_eq!(error, ExperimentError::UnknownVersion { token: "v7".to_string() });
    assert_eq!(error.exit_code(), 1);
    assert_eq!(error.message("bench"), "Invalid version: v7");
}

#[test]
fn refusal_does_not_need_a_valid_configuration() {
    let broken = Config { cache_line: 0, unaligned_size: 0, ..small() };
    assert!(!broken.is_valid());
    let error = refusal(run(&command(&["bench", "v1", "bogus"]), &broken));
    assert_eq!(error, ExperimentError::UnknownAlignment { token: "bogus".to_string() });
    let error = refusal(run(&command(&["bench", "v1"]), &broken));
    assert_eq!(error, ExperimentError::ArgumentCount { given: 2 });
    let found = tallied(run(&command(&["bench", "v3", "64"]), &broken));
    assert_eq!(found, tally(259, 64, Some(4_032), 0));
}

#[test]
fn every_layout_fills_the_capacity_by_truncation() {
    let config = Config { layout_turns: 1, ..Config::reference() };
    for (kind, count) in [
        (AlignmentKind::Explicit, 8_192),
        (AlignmentKind::Implicit, 8_192),
        (AlignmentKind::Unaligned, 224_694),
    ] {
        let dataset = run_layout(kind, &config);
        let size = dataset.element_shape().size;
        assert_eq!(dataset.len(), count);
        assert!(dataset.len() * size <= config.capacity);
        assert!(config.capacity < dataset.len() * size + size);
    }
    for capacity in [0usize, 6, 7, 191, 192, 193, 1_000] {
        let config = Config { capacity, layout_turns: 1, ..small() };
        for kind in [AlignmentKind::Explicit, AlignmentKind::Implicit, AlignmentKind::Unaligned] {
            let dataset = run_layout(kind, &config);
            let size = dataset.element_shape().size;
            assert!(dataset.len() * size <= capacity);
            assert!(capacity < dataset.len() * size + size);
        }
    }
}

#[test]
fn explicit_elements_start_on_cache_lines() {
    for cache_line in [64usize, 128, 32] {
        let config = Config { cache_line, unaligned_size: 7, ..small() };
        let dataset = run_layout(AlignmentKind::Explicit, &config);
        assert_eq!(dataset.element_shape().alignment, cache_line);
        assert_eq!(dataset.len(), 4_096 / (3 * cache_line));
        for index in 0..dataset.len() {
            let address = dataset.buffer_base() + dataset.element_offset(index);
            assert_eq!(address % cache_line, 0);
        }
    }
}

#[test]
fn layout_runs_write_the_pass_count_into_every_byte() {
    for (turns, value) in [(0usize, 0u8), (1, 1), (100, 100), (255, 255), (256, 0), (259, 3)] {
        let config = Config { layout_turns: turns, capacity: 1_000, ..small() };
        let dataset = written(run_v1(&command(&["bench", "v1", "explicit"]), &config));
        assert_eq!(bytes_of(&dataset), vec![vec![value; 192]; 5]);
        let dataset = written(run_v1(&command(&["bench", "v1", "implicit"]), &config));
        assert_eq!(bytes_of(&dataset), vec![vec![value; 192]; 5]);
        let dataset = written(run_v1(&command(&["bench", "v1", "none"]), &config));
        assert_eq!(bytes_of(&dataset), vec![vec![value; 7]; 142]);
    }
}

#[test]
fn reference_layout_run_completes() {
    let dataset = written(run_v1(&command(&["bench", "v1", "none"]), &Config::reference()));
    assert_eq!(dataset.len(), 224_694);
    assert_eq!(dataset.byte(0, 0), 100);
    assert_eq!(dataset.byte(224_693, 6), 100);
}

#[test]
fn runs_do_not_depend_on_earlier_runs() {
    let config = small();
    for tokens in [
        ["bench", "v1", "explicit"],
        ["bench", "v1", "none"],
        ["bench", "v2", "24"],
        ["bench", "v3", "64"],
        ["bench", "v4", "3"],
        ["bench", "v1", "bogus"],
        ["bench", "v2", "0"],
    ] {
        let first = run(&command(&tokens), &config);
        let second = run(&command(&tokens), &config);
        match (first, second) {
            (Ok(Outcome::Written(j, a)), Ok(Outcome::Written(k, b))) => {
                assert_eq!(j, k);
                assert_eq!(a.element_shape(), b.element_shape());
                assert_eq!(bytes_of(&a), bytes_of(&b));
            },
            (Ok(Outcome::Swept(a, s)), Ok(Outcome::Swept(b, t))) => {
                assert_eq!((a.len(), a.size(), s), (b.len(), b.size(), t));
                for index in 0..a.len() {
                    assert_eq!(a.block(index), b.block(index));
                }
            },
            (Ok(Outcome::Read(a, s)), Ok(Outcome::Read(b, t))) => assert_eq!((a, s), (b, t)),
            (Err(a), Err(b)) => assert_eq!(a, b),
            (a, b) => panic!("runs differ: {:?} and {:?}", a, b),
        }
    }
}

#[test]
fn families_run_on_their_own() {
    let config = small();
    let twenty_four = command(&["bench", "any", "24", "ignored"]);
    assert_eq!(tallied(run_v2(&twenty_four, &config)), tally(259, 4_080, Some(23), 0));
    assert_eq!(tallied(run_v3(&twenty_four, &config)), tally(259, 171, Some(4_080), 0));
    assert_eq!(tallied(run_v4(&twenty_four, &config)), tally(10, 267, Some(6_384), 2_670));
    assert_eq!(
        refusal(run_v1(&twenty_four, &config)),
        ExperimentError::UnknownAlignment { token: "24".to_string() }
    );
    assert_eq!(
        refusal(run_v2(&command(&["bench", "v2", "0"]), &config)),
        ExperimentError::Zero { family: Family::ElementSize }
    );
    assert_eq!(
        refusal(run_v3(&command(&["bench", "v3", ""]), &config)),
        ExperimentError::NotANumber { family: Family::FixedStride, token: String::new() }
    );
    assert_eq!(
        refusal(run_v4(&command(&["bench", "v4", "x"]), &config)),
        ExperimentError::NotANumber { family: Family::ByteStride, token: "x".to_string() }
    );
    assert_eq!(
        tallied(run_family(Family::FixedStride, "4096", &config)),
        tally(259, 1, Some(0), 0)
    );
    assert_eq!(
        refusal(run_family(Family::LayoutAlignment, "", &config)),
        ExperimentError::UnknownAlignment { token: String::new() }
    );
}

#[test]
fn experiments_run_from_their_values() {
    let config = small();
    let (blocks, found) = run_blocks(4_096, &config);
    assert_eq!((blocks.len(), blocks.size()), (1, 4_096));
    assert_eq!(found, tally(259, 4_096, Some(4_095), 0));
    let (blocks, found) = run_blocks(4_097, &config);
    assert_eq!((blocks.len(), blocks.size()), (0, 4_097));
    assert_eq!(found, tally(259, 0, None, 0));
    let (buffer, found) = run_fixed_stride(1, &config);
    assert_eq!(buffer, vec![0u8; 4_096]);
    assert_eq!(found, tally(259, 4_096, Some(4_095), 0));
    let (buffer, found) = run_byte_stride(1, &config);
    assert_eq!(buffer, vec![1u8; 6_400]);
    assert_eq!(found, tally(10, 6_400, Some(6_399), 64_000));
    let empty = Config { stride_buffer: 0, capacity: 0, ..small() };
    assert_eq!(run_byte_stride(64, &empty), (Vec::new(), tally(10, 0, None, 0)));
    assert_eq!(run_fixed_stride(64, &empty), (Vec::new(), tally(259, 0, None, 0)));
    let idle = Config { stride_turns: 0, ..small() };
    assert_eq!(run_byte_stride(64, &idle).1, tally(0, 100, Some(6_336), 0));
    match execute(Experiment::ByteStride { stride: 2 }, &config) {
        Outcome::Read(buffer, found) => {
            assert_eq!(buffer.len(), 6_400);
            assert_eq!(found, tally(10, 3_200, Some(6_398), 32_000));
        },
        other => panic!("no tally: {:?}", other),
    }
}

#[test]
fn admissibility() {
    let config = small();
    assert!(is_admissible(&Experiment::Layout { kind: AlignmentKind::Explicit }, &config));
    assert!(is_admissible(&Experiment::Blocks { size: 1 }, &config));
    assert!(!is_admissible(&Experiment::Blocks { size: 0 }, &config));
    assert!(!is_admissible(&Experiment::FixedStride { stride: 0 }, &config));
    assert!(is_admissible(&Experiment::FixedStride { stride: usize::MAX }, &config));
    assert!(is_admissible(&Experiment::ByteStride { stride: usize::MAX }, &config));
    assert!(!is_admissible(&Experiment::ByteStride { stride: 0 }, &config));
    let broken = Config { unaligned_size: 8, ..small() };
    assert!(!is_admissible(&Experiment::Layout { kind: AlignmentKind::Unaligned }, &broken));
    assert!(is_admissible(&Experiment::Layout { kind: AlignmentKind::Explicit }, &broken));
    assert!(is_admissible(&Experiment::Blocks { size: 1 }, &broken));
}

#[test]
fn completion_notices_name_the_kind() {
    assert_eq!(AlignmentKind::Explicit.completion_notice(), "Benchmark for explicit complete");
    assert_eq!(AlignmentKind::Implicit.completion_notice(), "Benchmark for implicit complete");
    assert_eq!(AlignmentKind::Unaligned.completion_notice(), "Benchmark for none complete");
}
