//! Why an experiment was refused before any dataset was built.

use vstd::prelude::*;
use vstd::string::StringExecFns;
use crate::family::{family_token, Family};

verus! {

/// A refusal. Every one is final: nothing is retried, and no dataset exists
/// when one is returned.
#[derive(Debug, PartialEq, Eq)]
pub enum ExperimentError {
    /// The command line does not hold exactly a program name, a version and
    /// one argument for it.
    ArgumentCount { given: usize },
    /// The version token names no experiment family.
    UnknownVersion { token: String },
    /// The alignment token names no alignment kind.
    UnknownAlignment { token: String },
    /// The numeric argument of `family`, one of the families that take a
    /// size or a stride, is no unsigned decimal number that fits the machine
    /// word.
    NotANumber { family: Family, token: String },
    /// The numeric argument of `family`, one of the families that take a
    /// size or a stride, is zero.
    Zero { family: Family },
}

/// The mathematical view of an [`ExperimentError`]: the same cases over
/// character sequences.
pub enum Fault {
    ArgumentCount { given: nat },
    UnknownVersion { token: Seq<char> },
    UnknownAlignment { token: Seq<char> },
    NotANumber { family: Family, token: Seq<char> },
    Zero { family: Family },
}

impl View for ExperimentError {
    type V = Fault;

    open spec fn view(&self) -> Fault {
        match *self {
            ExperimentError::ArgumentCount { given } => Fault::ArgumentCount {
                given: given as nat,
            },
            ExperimentError::UnknownVersion { token } => Fault::UnknownVersion { token: token@ },
            ExperimentError::UnknownAlignment { token } => Fault::UnknownAlignment {
                token: token@,
            },
            ExperimentError::NotANumber { family, token } => Fault::NotANumber {
                family,
                token: token@,
            },
            ExperimentError::Zero { family } => Fault::Zero { family },
        }
    }
}

/// What the numeric argument of a family is called in a usage line.
pub open spec fn parameter_name(family: Family) -> Seq<char> {
    match family {
        Family::ElementSize => "struct-size"@,
        _ => "stride length"@,
    }
}

/// The diagnostic for a fault, given the name the program was started under.
pub open spec fn message_text(fault: Fault, program: Seq<char>) -> Seq<char> {
    match fault {
        Fault::ArgumentCount { .. } => "Usage: "@ + program + " <version> <version args>"@,
        Fault::UnknownVersion { token } => "Invalid version: "@ + token,
        Fault::UnknownAlignment { token } => "Invalid alignment type: "@ + token,
        Fault::NotANumber { family, .. } => "Usage: "@ + program + " "@ + family_token(family)
            + " <"@ + parameter_name(family) + ": usize>"@,
        Fault::Zero { family } => match family {
            Family::ElementSize => "Size of struct must be greater than 0"@,
            _ => "Stride length must be greater than 0"@,
        },
    }
}

impl Family {
    /// What this family's numeric argument is called in a usage line.
    pub fn parameter(&self) -> (name: &'static str)
        ensures
            name@ == parameter_name(*self),
    {
        match self {
            Family::ElementSize => "struct-size",
            _ => "stride length",
        }
    }
}

impl ExperimentError {
    /// The status with which a process that was refused an experiment ends.
    /// It is the same for every refusal, and never the zero of success.
    pub fn exit_code(&self) -> (code: i32)
        ensures
            code == 1,
    {
        1
    }

    /// The diagnostic for this refusal, for the error stream.
    pub fn message(&self, program: &str) -> (text: String)
        ensures
            text@ == message_text(self@, program@),
    {
        match self {
            ExperimentError::ArgumentCount { .. } => {
                let mut text = String::from_str("Usage: ");
                text.append(program);
                text.append(" <version> <version args>");
                text
            },
            ExperimentError::UnknownVersion { token } => {
                let mut text = String::from_str("Invalid version: ");
                text.append(token.as_str());
                text
            },
            ExperimentError::UnknownAlignment { token } => {
                let mut text = String::from_str("Invalid alignment type: ");
                text.append(token.as_str());
                text
            },
            ExperimentError::NotANumber { family, .. } => {
                let mut text = String::from_str("Usage: ");
                text.append(program);
                text.append(" ");
                text.append(family.token());
                text.append(" <");
                text.append(family.parameter());
                text.append(": usize>");
                text
            },
            ExperimentError::Zero { family } => match family {
                Family::ElementSize => String::from_str("Size of struct must be greater than 0"),
                _ => String::from_str("Stride length must be greater than 0"),
            },
        }
    }
}

} // verus!
