use vstd::prelude::*;

use crate::types::SudachiSplitMode;

verus! {

/// The error of the earlier, flat binding interface.
#[derive(Debug)]
pub enum WrappedSudachiError {
    Error(String),
}

/// A morpheme of the earlier, flat binding interface.
#[derive(Debug)]
pub struct WrappedMorpheme {
    pub surface: String,
    pub pos: Vec<String>,
    pub normalized_form: String,
    pub dictionary_form: String,
    pub reading_form: String,
}

/// The split mode of the earlier, flat binding interface.
#[derive(Clone, Copy, Debug, PartialEq, Eq, Structural)]
pub enum WrappedMode {
    A,
    B,
    C,
}

impl WrappedMode {
    /// The split mode that the flat interface's mode stands for.
    pub fn split_mode(self) -> (r: SudachiSplitMode)
        ensures
            r == (match self {
                WrappedMode::A => SudachiSplitMode::A,
                WrappedMode::B => SudachiSplitMode::B,
                WrappedMode::C => SudachiSplitMode::C,
            }),
    {
        match self {
            WrappedMode::A => SudachiSplitMode::A,
            WrappedMode::B => SudachiSplitMode::B,
            WrappedMode::C => SudachiSplitMode::C,
        }
    }
}

/// The answer of the flat interface to a tokenization: its morphemes, or none at all where the
/// analysis failed.
pub fn morphemes_or_empty(outcome: Result<Vec<WrappedMorpheme>, WrappedSudachiError>) -> (r: Vec<
    WrappedMorpheme,
>)
    ensures
        r@ == (match outcome {
            Ok(ms) => ms@,
            Err(_) => Seq::empty(),
        }),
{
    match outcome {
        Ok(ms) => ms,
        Err(_) => Vec::new(),
    }
}

} // verus!
