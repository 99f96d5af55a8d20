//! Verified core of the Swift bindings for the Sudachi Japanese tokenizer.
//!
//! The library models every value that the bindings expose (morpheme lists,
//! morphemes, part-of-speech matchers, tokenizer settings) as plain data and
//! proves the logic that the bindings perform on it: surface projection,
//! splitting a morpheme into finer units, part-of-speech matching and the
//! set algebra of matchers.  Loading a dictionary and running the analyser
//! itself is the job of the surrounding application, which hands the results
//! to this library as plain values.
pub mod error;
pub mod types;
pub mod matcher;
pub mod input;
pub mod state;
pub mod objects;
pub mod wrapped;
pub mod laws;

pub use error::SudachiError;
pub use input::InputText;
pub use matcher::PosMatcher;
pub use objects::{
    SudachiDictionary, SudachiMorpheme, SudachiMorphemeList, SudachiPosMatcher, SudachiTokenizer,
};
pub use state::{Analysis, DictionaryState, LookupEntry, MorphemeListSnapshot, MorphemeNodeSnapshot, ResultNode};
pub use types::{
    InfoSubset, SudachiInfoField, SudachiPartOfSpeech, SudachiPartialPartOfSpeech,
    SudachiProjection, SudachiSplitMode, SudachiWordInfo, WordId, WordInfo,
};
pub use wrapped::{WrappedMode, WrappedMorpheme, WrappedSudachiError};
