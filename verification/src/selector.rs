//! From command-line tokens to the experiment they select.

use vstd::prelude::*;
use vstd::string::StringExecFns;
use crate::config::AlignmentKind;
use crate::decimal::{parse_usize, parsed};
use crate::error::{ExperimentError, Fault};
use crate::family::{family_of, Family};
use crate::text::same_text;

verus! {

/// One experiment, with the argument it was asked for.
#[derive(Clone, Copy, Debug, PartialEq, Eq, Structural)]
pub enum Experiment {
    /// Packed elements of the given alignment kind, touched by write cycles.
    Layout { kind: AlignmentKind },
    /// Heap blocks of `size` bytes, every byte read.
    Blocks { size: usize },
    /// A buffer of the configured capacity, read at every `stride`-th byte.
    FixedStride { stride: usize },
    /// A buffer of the length configured for it, read at every `stride`-th
    /// byte.
    ByteStride { stride: usize },
}

/// The alignment kind that an alignment token names.
pub open spec fn alignment_of(token: Seq<char>) -> Option<AlignmentKind> {
    if token == "explicit"@ {
        Some(AlignmentKind::Explicit)
    } else if token == "implicit"@ {
        Some(AlignmentKind::Implicit)
    } else if token == "none"@ {
        Some(AlignmentKind::Unaligned)
    } else {
        None
    }
}

/// The token that names an alignment kind.
pub open spec fn alignment_token(kind: AlignmentKind) -> Seq<char> {
    match kind {
        AlignmentKind::Explicit => "explicit"@,
        AlignmentKind::Implicit => "implicit"@,
        AlignmentKind::Unaligned => "none"@,
    }
}

/// The notice that a layout experiment of `kind` has run all its passes.
pub open spec fn completion_text(kind: AlignmentKind) -> Seq<char> {
    "Benchmark for "@ + alignment_token(kind) + " complete"@
}

/// The positive number that `token` gives for `family`: a fault where the
/// token is no number, and another where the number is zero.
pub open spec fn positive_of(family: Family, token: Seq<char>) -> Result<usize, Fault> {
    match parsed(token) {
        None => Err(Fault::NotANumber { family, token }),
        Some(value) => if value == 0 {
            Err(Fault::Zero { family })
        } else {
            Ok(value)
        },
    }
}

/// The experiment of `family` that the argument `token` asks for.
pub open spec fn experiment_of(family: Family, token: Seq<char>) -> Result<Experiment, Fault> {
    match family {
        Family::LayoutAlignment => match alignment_of(token) {
            Some(kind) => Ok(Experiment::Layout { kind }),
            None => Err(Fault::UnknownAlignment { token }),
        },
        Family::ElementSize => match positive_of(family, token) {
            Ok(size) => Ok(Experiment::Blocks { size }),
            Err(fault) => Err(fault),
        },
        Family::FixedStride => match positive_of(family, token) {
            Ok(stride) => Ok(Experiment::FixedStride { stride }),
            Err(fault) => Err(fault),
        },
        Family::ByteStride => match positive_of(family, token) {
            Ok(stride) => Ok(Experiment::ByteStride { stride }),
            Err(fault) => Err(fault),
        },
    }
}

/// The experiment that a command line selects. The line holds the program's
/// name, a version token and one argument; the count is tested first, then
/// the version, then the argument.
pub open spec fn selection(args: Seq<Seq<char>>) -> Result<Experiment, Fault> {
    if args.len() != 3 {
        Err(Fault::ArgumentCount { given: args.len() })
    } else {
        match family_of(args[1]) {
            None => Err(Fault::UnknownVersion { token: args[1] }),
            Some(family) => experiment_of(family, args[2]),
        }
    }
}

/// The character sequences of a list of strings.
pub open spec fn texts(args: Seq<String>) -> Seq<Seq<char>> {
    Seq::new(args.len(), |i: int| args[i]@)
}

/// A result with its refusal, if it is one, taken by its view.
pub open spec fn refused<T>(result: Result<T, ExperimentError>) -> Result<T, Fault> {
    match result {
        Ok(value) => Ok(value),
        Err(error) => Err(error@),
    }
}

impl AlignmentKind {
    /// The alignment kind that `token` names; a refusal that carries the
    /// token where it names none.
    pub fn from_token(token: &str) -> (kind: Result<AlignmentKind, ExperimentError>)
        ensures
            refused(kind) == match alignment_of(token@) {
                Some(kind) => Ok::<AlignmentKind, Fault>(kind),
                None => Err(Fault::UnknownAlignment { token: token@ }),
            },
    {
        if same_text(token, "explicit") {
            Ok(AlignmentKind::Explicit)
        } else if same_text(token, "implicit") {
            Ok(AlignmentKind::Implicit)
        } else if same_text(token, "none") {
            Ok(AlignmentKind::Unaligned)
        } else {
            Err(ExperimentError::UnknownAlignment { token: String::from_str(token) })
        }
    }

    /// The token that names this kind.
    pub fn token(&self) -> (token: &'static str)
        ensures
            token@ == alignment_token(*self),
    {
        match self {
            AlignmentKind::Explicit => "explicit",
            AlignmentKind::Implicit => "implicit",
            AlignmentKind::Unaligned => "none",
        }
    }

    /// The notice for the error stream that a layout experiment of this kind
    /// has run all its passes.
    pub fn completion_notice(&self) -> (text: String)
        ensures
            text@ == completion_text(*self),
    {
        let mut text = String::from_str("Benchmark for ");
        text.append(self.token());
        text.append(" complete");
        text
    }
}

/// Reads the numeric argument of `family`: a positive number, or the refusal
/// that says why it is none.
pub fn parse_positive(family: Family, token: &str) -> (value: Result<usize, ExperimentError>)
    ensures
        refused(value) == positive_of(family, token@),
{
    match parse_usize(token) {
        None => Err(ExperimentError::NotANumber { family, token: String::from_str(token) }),
        Some(value) => if value == 0 {
            Err(ExperimentError::Zero { family })
        } else {
            Ok(value)
        },
    }
}

/// The experiment of `family` that the argument `token` asks for.
pub fn plan(family: Family, token: &str) -> (experiment: Result<Experiment, ExperimentError>)
    ensures
        refused(experiment) == experiment_of(family, token@),
{
    match family {
        Family::LayoutAlignment => match AlignmentKind::from_token(token) {
            Ok(kind) => Ok(Experiment::Layout { kind }),
            Err(error) => Err(error),
        },
        Family::ElementSize => match parse_positive(family, token) {
            Ok(size) => Ok(Experiment::Blocks { size }),
            Err(error) => Err(error),
        },
        Family::FixedStride => match parse_positive(family, token) {
            Ok(stride) => Ok(Experiment::FixedStride { stride }),
            Err(error) => Err(error),
        },
        Family::ByteStride => match parse_positive(family, token) {
            Ok(stride) => Ok(Experiment::ByteStride { stride }),
            Err(error) => Err(error),
        },
    }
}

/// The dispatcher: maps a command line to exactly one experiment, or to the
/// refusal that names what is wrong with it.
pub fn select(args: &[String]) -> (experiment: Result<Experiment, ExperimentError>)
    ensures
        refused(experiment) == selection(texts(args@)),
{
    if args.len() != 3 {
        return Err(ExperimentError::ArgumentCount { given: args.len() });
    }
    match Family::from_token(args[1].as_str()) {
        None => Err(ExperimentError::UnknownVersion { token: args[1].clone() }),
        Some(family) => plan(family, args[2].as_str()),
    }
}

/// Every alignment kind is named by its own token, and by no other.
pub proof fn lemma_alignment_tokens(kind: AlignmentKind, token: Seq<char>)
    ensures
        alignment_of(token) == Some(kind) <==> token == alignment_token(kind),
{
    reveal_strlit("explicit");
    reveal_strlit("implicit");
    reveal_strlit("none");
    assert("explicit"@[0] == 'e' && "implicit"@[0] == 'i' && "none"@[0] == 'n');
}

/// A refusal over a number names a family that takes one.
pub proof fn lemma_numeric_refusals(args: Seq<Seq<char>>)
    ensures
        selection(args) matches Err(Fault::NotANumber { family, .. }) ==> family
            != Family::LayoutAlignment,
        selection(args) matches Err(Fault::Zero { family }) ==> family != Family::LayoutAlignment,
{
}

/// A valid version token with its argument missing, or with more than one,
/// is refused for the count of arguments, whatever the tokens are.
pub proof fn lemma_wrong_count_refused(args: Seq<Seq<char>>)
    requires
        args.len() != 3,
    ensures
        selection(args) == Err::<Experiment, Fault>(Fault::ArgumentCount { given: args.len() }),
{
}

/// A numeric argument is accepted exactly when it is a decimal number above
/// zero; zero and every text that is no number have a refusal of their own.
pub proof fn lemma_numeric_argument(family: Family, token: Seq<char>)
    ensures
        positive_of(family, token) is Ok <==> (parsed(token) matches Some(value) && value > 0),
        parsed(token) == Some(0usize) ==> positive_of(family, token) == Err::<usize, Fault>(
            Fault::Zero { family },
        ),
        parsed(token) is None ==> positive_of(family, token) == Err::<usize, Fault>(
            Fault::NotANumber { family, token },
        ),
{
}

} // verus!
