//! The experiments themselves: each builds its dataset, runs the driver over
//! it for the configured number of passes, and hands back what was done.

use vstd::prelude::*;
use crate::blocks::{elements_sum, Blocks};
use crate::config::{AlignmentKind, Config};
use crate::dataset::{bumped_elements, zeroed, Dataset};
use crate::error::{ExperimentError, Fault};
use crate::family::Family;
use crate::layout::{fill_count, lemma_fill_bounds};
use crate::reads::{
    last_position, lemma_stride_positions, repeat_strided_read, stride_positions, strided_sum,
    tally_of, wrapped, Tally,
};
use crate::selector::{completion_text, experiment_of, plan, selection, texts, Experiment};

verus! {

/// What a finished experiment leaves.
#[derive(Debug)]
pub enum Outcome {
    /// The alignment kind, and the dataset as the write cycles left it.
    Written(AlignmentKind, Dataset),
    /// The blocks that were read, and the tally of the reads.
    Swept(Blocks, Tally),
    /// The buffer that was read, and the tally of the reads.
    Read(Vec<u8>, Tally),
}

/// `len` bytes that all hold `fill`.
pub open spec fn filled(len: nat, fill: u8) -> Seq<u8> {
    Seq::new(len, |i: int| fill)
}

/// The dataset of the layout experiment after its run: elements of the
/// kind's shape, as many as fill the capacity, each on its boundary, every
/// byte incremented once per pass from zero.
pub open spec fn written(dataset: &Dataset, kind: AlignmentKind, config: Config) -> bool {
    &&& dataset.well_formed()
    &&& dataset.aligned()
    &&& dataset.shape() == config.shape_of(kind)
    &&& dataset.count() == fill_count(config.capacity as nat, config.shape_of(kind).size as nat)
    &&& dataset@ == bumped_elements(
        zeroed(dataset.count(), config.shape_of(kind).size as nat),
        config.layout_turns as nat,
    )
}

/// The blocks of the element-size experiment after its run: zeroed blocks of
/// the size asked for, as many as fill the capacity.
pub open spec fn swept(blocks: &Blocks, size: usize, config: Config) -> bool {
    &&& blocks.well_formed()
    &&& blocks.block_size() == size
    &&& blocks.count() == fill_count(config.capacity as nat, size as nat)
    &&& blocks@ == zeroed(blocks.count(), size as nat)
}

/// The tally of an experiment that reads, and nothing for the one that
/// writes: the passes made, the reads of one pass, the offset of the last of
/// them, and the sum of all bytes read. The blocks and the fixed-stride
/// buffer hold zeros, the byte-stride buffer ones.
pub open spec fn read_tally(experiment: Experiment, config: Config) -> Option<Tally> {
    match experiment {
        Experiment::Layout { .. } => None,
        Experiment::Blocks { size } => Some(
            Tally {
                passes: config.sweep_turns,
                reads: (fill_count(config.capacity as nat, size as nat) * size) as usize,
                last: if fill_count(config.capacity as nat, size as nat) == 0 {
                    None
                } else {
                    Some((size - 1) as usize)
                },
                checksum: 0,
            },
        ),
        Experiment::FixedStride { stride } => Some(
            Tally {
                passes: config.sweep_turns,
                reads: stride_positions(config.capacity as nat, stride as nat) as usize,
                last: last_position(config.capacity as nat, stride as nat),
                checksum: 0,
            },
        ),
        Experiment::ByteStride { stride } => Some(
            Tally {
                passes: config.stride_turns,
                reads: stride_positions(config.stride_buffer as nat, stride as nat) as usize,
                last: last_position(config.stride_buffer as nat, stride as nat),
                checksum: wrapped(
                    config.stride_turns as nat * stride_positions(
                        config.stride_buffer as nat,
                        stride as nat,
                    ),
                ),
            },
        ),
    }
}

/// The outcome is the one that `experiment` has under `config`: the dataset
/// it was run on, and for the reading experiments the tally of the strided
/// passes over that dataset.
pub open spec fn fulfils(outcome: Outcome, experiment: Experiment, config: Config) -> bool {
    match experiment {
        Experiment::Layout { kind } => {
            &&& outcome matches Outcome::Written(named, dataset)
            &&& named == kind
            &&& written(&dataset, kind, config)
        },
        Experiment::Blocks { size } => {
            &&& outcome matches Outcome::Swept(blocks, tally)
            &&& swept(&blocks, size, config)
            &&& tally == blocks.tally_of(config.sweep_turns as nat)
            &&& Some(tally) == read_tally(experiment, config)
        },
        Experiment::FixedStride { stride } => {
            &&& outcome matches Outcome::Read(buffer, tally)
            &&& buffer@ == filled(config.capacity as nat, 0)
            &&& tally == tally_of(buffer@, stride as nat, config.sweep_turns as nat)
            &&& Some(tally) == read_tally(experiment, config)
        },
        Experiment::ByteStride { stride } => {
            &&& outcome matches Outcome::Read(buffer, tally)
            &&& buffer@ == filled(config.stride_buffer as nat, 1)
            &&& tally == tally_of(buffer@, stride as nat, config.stride_turns as nat)
            &&& Some(tally) == read_tally(experiment, config)
        },
    }
}

/// The experiment can be set up under this configuration: the layout
/// experiment needs a configuration that supports its kind, the reading ones
/// a positive size or stride.
pub open spec fn admissible(experiment: Experiment, config: Config) -> bool {
    match experiment {
        Experiment::Layout { kind } => config.supports(kind),
        Experiment::Blocks { size } => size > 0,
        Experiment::FixedStride { stride } => stride > 0,
        Experiment::ByteStride { stride } => stride > 0,
    }
}

/// The result is what running the selection gives: the outcome of the
/// selected experiment, or the refusal that the selection ended in.
pub open spec fn ran(
    result: Result<Outcome, ExperimentError>,
    selected: Result<Experiment, Fault>,
    config: Config,
) -> bool {
    match selected {
        Ok(experiment) => result matches Ok(outcome) && fulfils(outcome, experiment, config),
        Err(fault) => result matches Err(error) && error@ == fault,
    }
}

/// The status with which the process of a run ends: zero when every pass
/// was performed, one when the run was refused.
pub open spec fn status_of(result: Result<Outcome, ExperimentError>) -> int {
    if result is Ok {
        0
    } else {
        1
    }
}

/// The notice that an outcome is reported with on the error stream: the
/// layout experiment says that it is complete and names its kind, the
/// reading experiments say nothing.
pub open spec fn notice_text(outcome: Outcome) -> Option<Seq<char>> {
    match outcome {
        Outcome::Written(kind, _) => Some(completion_text(kind)),
        _ => None,
    }
}

/// What two outcomes have in common when neither depends on where its
/// dataset was allocated: the kind, the elements and their shape, and the
/// tally.
pub open spec fn same_outcome(first: Outcome, second: Outcome) -> bool {
    match (first, second) {
        (Outcome::Written(j, a), Outcome::Written(k, b)) => j == k && a@ == b@ && a.shape()
            == b.shape() && a.count() == b.count(),
        (Outcome::Swept(a, s), Outcome::Swept(b, t)) => a@ == b@ && a.block_size()
            == b.block_size() && a.count() == b.count() && s == t,
        (Outcome::Read(a, s), Outcome::Read(b, t)) => a@ == b@ && s == t,
        _ => false,
    }
}

/// Reads at a stride over bytes that all hold `fill` add up to `fill` per
/// read.
proof fn lemma_constant_sum(bytes: Seq<u8>, stride: nat, reads: nat, fill: u8)
    requires
        forall|i: int| 0 <= i < bytes.len() ==> bytes[i] == fill,
        reads > 0 ==> (reads - 1) * stride < bytes.len(),
    ensures
        strided_sum(bytes, stride, reads) == reads * fill,
    decreases reads,
{
    if reads > 0 {
        assert((reads - 1) * stride >= 0 && (reads > 1 ==> (reads - 2) * stride <= (reads - 1)
            * stride)) by (nonlinear_arith)
            requires
                reads > 0,
                stride >= 0,
        ;
        lemma_constant_sum(bytes, stride, (reads - 1) as nat, fill);
        assert(reads * fill == (reads - 1) * fill + fill) by (nonlinear_arith);
    }
}

/// Zeroed elements add up to zero.
proof fn lemma_zeroed_sum(count: nat, size: nat)
    ensures
        elements_sum(zeroed(count, size)) == 0,
    decreases count,
{
    if count > 0 {
        let all = zeroed(count, size);
        assert(all.drop_last() =~= zeroed((count - 1) as nat, size));
        lemma_zeroed_sum((count - 1) as nat, size);
        lemma_stride_positions(size, 1);
        lemma_constant_sum(all.last(), 1, stride_positions(size, 1), 0);
    }
}

/// The layout experiment: builds the dataset of `kind` and runs the
/// configured number of write-cycle passes over it.
pub fn run_layout(kind: AlignmentKind, config: &Config) -> (dataset: Dataset)
    requires
        config.supports(kind),
    ensures
        written(&dataset, kind, *config),
{
    let shape = config.shape(kind);
    let mut dataset = Dataset::build(shape, config.capacity);
    dataset.repeat(config.layout_turns);
    proof {
        dataset.lemma_geometry();
    }
    dataset
}

/// The element-size experiment: builds blocks of `size` bytes and runs the
/// configured number of read passes over them.
pub fn run_blocks(size: usize, config: &Config) -> (done: (Blocks, Tally))
    requires
        size > 0,
    ensures
        fulfils(Outcome::Swept(done.0, done.1), Experiment::Blocks { size }, *config),
{
    let blocks = Blocks::build(size, config.capacity);
    let tally = blocks.repeat_read(config.sweep_turns);
    proof {
        lemma_zeroed_sum(blocks.count(), size as nat);
        assert(config.sweep_turns * 0 == 0);
    }
    (blocks, tally)
}

/// The fixed-stride experiment: a zeroed buffer of the configured capacity,
/// read at every `stride`-th byte for the configured number of passes.
pub fn run_fixed_stride(stride: usize, config: &Config) -> (done: (Vec<u8>, Tally))
    requires
        stride > 0,
    ensures
        fulfils(Outcome::Read(done.0, done.1), Experiment::FixedStride { stride }, *config),
{
    let buffer = vec![0u8; config.capacity];
    let tally = repeat_strided_read(buffer.as_slice(), stride, config.sweep_turns);
    proof {
        assert(buffer@ =~= filled(config.capacity as nat, 0));
        lemma_stride_positions(buffer@.len(), stride as nat);
        lemma_constant_sum(
            buffer@,
            stride as nat,
            stride_positions(buffer@.len(), stride as nat),
            0,
        );
        assert(config.sweep_turns * 0 == 0);
    }
    (buffer, tally)
}

/// The byte-stride experiment: a buffer of ones of the configured length,
/// the same for every stride, read at every `stride`-th byte for the
/// configured number of passes.
pub fn run_byte_stride(stride: usize, config: &Config) -> (done: (Vec<u8>, Tally))
    requires
        stride > 0,
    ensures
        fulfils(Outcome::Read(done.0, done.1), Experiment::ByteStride { stride }, *config),
{
    let buffer = vec![1u8; config.stride_buffer];
    let tally = repeat_strided_read(buffer.as_slice(), stride, config.stride_turns);
    proof {
        assert(buffer@ =~= filled(config.stride_buffer as nat, 1));
        let reads = stride_positions(buffer@.len(), stride as nat);
        lemma_stride_positions(buffer@.len(), stride as nat);
        lemma_constant_sum(buffer@, stride as nat, reads, 1);
        assert(reads * 1 == reads);
    }
    (buffer, tally)
}

/// Runs one experiment to completion.
pub fn execute(experiment: Experiment, config: &Config) -> (outcome: Outcome)
    requires
        admissible(experiment, *config),
    ensures
        fulfils(outcome, experiment, *config),
{
    match experiment {
        Experiment::Layout { kind } => Outcome::Written(kind, run_layout(kind, config)),
        Experiment::Blocks { size } => {
            let (blocks, tally) = run_blocks(size, config);
            Outcome::Swept(blocks, tally)
        },
        Experiment::FixedStride { stride } => {
            let (buffer, tally) = run_fixed_stride(stride, config);
            Outcome::Read(buffer, tally)
        },
        Experiment::ByteStride { stride } => {
            let (buffer, tally) = run_byte_stride(stride, config);
            Outcome::Read(buffer, tally)
        },
    }
}

/// Runs the experiment of `family` that the argument `token` asks for, or
/// refuses the argument before anything is built.
pub fn run_family(family: Family, token: &str, config: &Config) -> (result: Result<
    Outcome,
    ExperimentError,
>)
    requires
        experiment_of(family, token@) matches Ok(experiment) ==> admissible(experiment, *config),
    ensures
        ran(result, experiment_of(family, token@), *config),
{
    match plan(family, token) {
        Ok(experiment) => Ok(execute(experiment, config)),
        Err(error) => Err(error),
    }
}

/// The layout-alignment family. The command line holds the alignment kind
/// after the version token. A line too short to hold it is refused for its
/// count of arguments and a token that names no kind for the token, both
/// before anything is built; any other token selects the dataset that
/// [`run_layout`] builds and writes.
pub fn run_v1(args: &[String], config: &Config) -> (result: Result<Outcome, ExperimentError>)
    requires
        args@.len() > 2 ==> (experiment_of(Family::LayoutAlignment, args@[2]@) matches Ok(
            experiment,
        ) ==> admissible(experiment, *config)),
    ensures
        args@.len() <= 2 ==> (result matches Err(error) && error@ == (Fault::ArgumentCount {
            given: args@.len(),
        })),
        args@.len() > 2 ==> ran(
            result,
            experiment_of(Family::LayoutAlignment, args@[2]@),
            *config,
        ),
{
    if args.len() <= 2 {
        return Err(ExperimentError::ArgumentCount { given: args.len() });
    }
    run_family(Family::LayoutAlignment, args[2].as_str(), config)
}

/// The element-size family. The command line holds the block size after the
/// version token. A line too short to hold it is refused for its count of
/// arguments, zero and what is no number for the argument, all before
/// anything is built; any other size selects the blocks that [`run_blocks`]
/// builds and reads.
pub fn run_v2(args: &[String], config: &Config) -> (result: Result<Outcome, ExperimentError>)
    ensures
        args@.len() <= 2 ==> (result matches Err(error) && error@ == (Fault::ArgumentCount {
            given: args@.len(),
        })),
        args@.len() > 2 ==> ran(result, experiment_of(Family::ElementSize, args@[2]@), *config),
{
    if args.len() <= 2 {
        return Err(ExperimentError::ArgumentCount { given: args.len() });
    }
    run_family(Family::ElementSize, args[2].as_str(), config)
}

/// The fixed-stride family. The command line holds the stride after the
/// version token. A line too short to hold it is refused for its count of
/// arguments, zero and what is no number for the argument, all before
/// anything is built; any other stride selects the reads of
/// [`run_fixed_stride`].
pub fn run_v3(args: &[String], config: &Config) -> (result: Result<Outcome, ExperimentError>)
    ensures
        args@.len() <= 2 ==> (result matches Err(error) && error@ == (Fault::ArgumentCount {
            given: args@.len(),
        })),
        args@.len() > 2 ==> ran(result, experiment_of(Family::FixedStride, args@[2]@), *config),
{
    if args.len() <= 2 {
        return Err(ExperimentError::ArgumentCount { given: args.len() });
    }
    run_family(Family::FixedStride, args[2].as_str(), config)
}

/// The byte-stride family. The command line holds the stride after the
/// version token. A line too short to hold it is refused for its count of
/// arguments, zero and what is no number for the argument, all before
/// anything is built; any other stride selects the reads of
/// [`run_byte_stride`].
pub fn run_v4(args: &[String], config: &Config) -> (result: Result<Outcome, ExperimentError>)
    ensures
        args@.len() <= 2 ==> (result matches Err(error) && error@ == (Fault::ArgumentCount {
            given: args@.len(),
        })),
        args@.len() > 2 ==> ran(result, experiment_of(Family::ByteStride, args@[2]@), *config),
{
    if args.len() <= 2 {
        return Err(ExperimentError::ArgumentCount { given: args.len() });
    }
    run_family(Family::ByteStride, args[2].as_str(), config)
}

/// One whole run, from the command line to the outcome: tests the number of
/// arguments, then the version token, then hands the line to the family it
/// selects.
pub fn run(args: &[String], config: &Config) -> (result: Result<Outcome, ExperimentError>)
    requires
        selection(texts(args@)) matches Ok(experiment) ==> admissible(experiment, *config),
    ensures
        ran(result, selection(texts(args@)), *config),
{
    if args.len() != 3 {
        return Err(ExperimentError::ArgumentCount { given: args.len() });
    }
    match Family::from_token(args[1].as_str()) {
        None => Err(ExperimentError::UnknownVersion { token: args[1].clone() }),
        Some(Family::LayoutAlignment) => run_v1(args, config),
        Some(Family::ElementSize) => run_v2(args, config),
        Some(Family::FixedStride) => run_v3(args, config),
        Some(Family::ByteStride) => run_v4(args, config),
    }
}

/// Computes [`status_of`].
pub fn exit_status(result: &Result<Outcome, ExperimentError>) -> (code: i32)
    ensures
        code == status_of(*result),
{
    match result {
        Ok(_) => 0,
        Err(error) => error.exit_code(),
    }
}

/// Whether [`admissible`] holds.
pub fn is_admissible(experiment: &Experiment, config: &Config) -> (ok: bool)
    ensures
        ok == admissible(*experiment, *config),
{
    match experiment {
        Experiment::Layout { kind } => config.is_supported(*kind),
        Experiment::Blocks { size } => *size > 0,
        Experiment::FixedStride { stride } => *stride > 0,
        Experiment::ByteStride { stride } => *stride > 0,
    }
}

impl Outcome {
    /// The notice to write to the error stream once the run is over, if the
    /// experiment has one: computes [`notice_text`].
    pub fn notice(&self) -> (text: Option<String>)
        ensures
            match text {
                Some(text) => notice_text(*self) == Some(text@),
                None => notice_text(*self) is None,
            },
    {
        match self {
            Outcome::Written(kind, _) => Some(kind.completion_notice()),
            _ => None,
        }
    }
}

/// Under a valid configuration every command line can be run: whatever it
/// selects is admissible.
pub proof fn lemma_valid_admits(args: Seq<Seq<char>>, config: Config)
    requires
        config.valid(),
    ensures
        selection(args) matches Ok(experiment) ==> admissible(experiment, config),
{
}

/// The dataset of a finished layout experiment never exceeds the capacity,
/// and falls short of it by less than one element.
pub proof fn lemma_written_fills_capacity(dataset: &Dataset, kind: AlignmentKind, config: Config)
    requires
        config.supports(kind),
        written(dataset, kind, config),
    ensures
        dataset.count() * dataset.shape().size <= config.capacity,
        config.capacity < dataset.count() * dataset.shape().size + dataset.shape().size,
{
    config.lemma_shapes(kind);
    lemma_fill_bounds(config.capacity as nat, config.shape_of(kind).size as nat);
}

/// The blocks of a finished element-size experiment never exceed the
/// capacity, and fall short of it by less than one block.
pub proof fn lemma_swept_fills_capacity(blocks: &Blocks, size: usize, config: Config)
    requires
        size > 0,
        swept(blocks, size, config),
    ensures
        blocks.count() * size <= config.capacity,
        config.capacity < blocks.count() * size + size,
{
    lemma_fill_bounds(config.capacity as nat, size as nat);
}

/// Every element of a finished layout experiment of the explicit kind begins
/// on a cache-line boundary.
pub proof fn lemma_written_alignment(dataset: &Dataset, config: Config, index: nat)
    requires
        config.supports(AlignmentKind::Explicit),
        written(dataset, AlignmentKind::Explicit, config),
        index < dataset.count(),
    ensures
        dataset.element_address(index) % (config.cache_line as int) == 0,
{
    config.lemma_shapes(AlignmentKind::Explicit);
    dataset.lemma_geometry();
}

/// The reads of a finished strided experiment fall on the multiples of the
/// stride below the length of its buffer, which no stride changes: a pass
/// reads one byte for each, the last of them at the greatest such multiple,
/// and a stride that is no shorter than the buffer leaves a single read at
/// its start.
pub proof fn lemma_stride_decides_offsets(tally: Tally, len: nat, stride: nat)
    requires
        stride > 0,
        len <= usize::MAX,
        tally.reads == stride_positions(len, stride),
        tally.last == last_position(len, stride),
    ensures
        len <= tally.reads * stride,
        len > 0 ==> (tally.last matches Some(offset) && offset == (tally.reads - 1) * stride
            && offset < len && len <= offset + stride),
        len == 0 ==> tally.reads == 0 && tally.last is None,
        0 < len <= stride ==> tally.reads == 1 && tally.last == Some(0usize),
{
    lemma_stride_positions(len, stride);
    let reads = stride_positions(len, stride);
    if len > 0 {
        assert(reads >= 1 && (reads - 1) * stride + stride == reads * stride && (reads - 1)
            * stride >= 0) by (nonlinear_arith)
            requires
                len > 0,
                len <= reads * stride,
                stride > 0,
        ;
        if len <= stride {
            assert(reads == 1) by (nonlinear_arith)
                requires
                    reads >= 1,
                    (reads - 1) * stride < len,
                    len <= stride,
            ;
            assert((reads - 1) * stride == 0) by (nonlinear_arith)
                requires
                    reads == 1,
            ;
        }
    }
}

/// The notice of a finished layout experiment names the kind that was run,
/// and the reading experiments have none.
pub proof fn lemma_notice_names_kind(outcome: Outcome, experiment: Experiment, config: Config)
    requires
        fulfils(outcome, experiment, config),
    ensures
        experiment matches Experiment::Layout { kind } ==> notice_text(outcome) == Some(
            completion_text(kind),
        ),
        !(experiment is Layout) ==> notice_text(outcome) is None,
{
}

/// Two runs of one command line under one configuration end alike: in the
/// same refusal, or in outcomes that agree in everything but the address at
/// which a dataset was allocated. Nothing is carried from one run to the
/// next.
pub proof fn lemma_runs_agree(
    first: Result<Outcome, ExperimentError>,
    second: Result<Outcome, ExperimentError>,
    args: Seq<Seq<char>>,
    config: Config,
)
    requires
        ran(first, selection(args), config),
        ran(second, selection(args), config),
    ensures
        match (first, second) {
            (Ok(a), Ok(b)) => same_outcome(a, b),
            (Err(a), Err(b)) => a@ == b@,
            _ => false,
        },
{
}

/// A refusal comes before any dataset: a run ends in a refusal exactly when
/// its command line selects nothing, it then has no outcome, and its status
/// is one. A command line with an argument missing is among them, whatever
/// its version token.
pub proof fn lemma_refused_has_no_outcome(
    result: Result<Outcome, ExperimentError>,
    args: Seq<Seq<char>>,
    config: Config,
)
    requires
        ran(result, selection(args), config),
    ensures
        selection(args) is Err <==> result is Err,
        selection(args) is Err <==> status_of(result) == 1,
        selection(args) is Ok <==> status_of(result) == 0,
        args.len() != 3 ==> status_of(result) == 1,
{
}

} // verus!
