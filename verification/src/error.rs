use vstd::prelude::*;

verus! {

/// Errors reported by the bindings.
#[derive(Debug, Clone)]
pub enum SudachiError {
    /// The configuration could not be read or is invalid.
    Config(String),
    /// The dictionary could not be loaded or read.
    Dictionary(String),
    /// The input text could not be analysed.
    Tokenization(String),
    /// An argument handed to the bindings was rejected.
    InvalidArgument(String),
    /// Data handed over by the analyser was inconsistent.
    Internal(String),
}

impl SudachiError {
    /// A dictionary error carrying `message`.
    pub fn dictionary(message: String) -> (r: Self)
        ensures
            r == SudachiError::Dictionary(message),
    {
        SudachiError::Dictionary(message)
    }

    /// A tokenization error carrying `message`.
    pub fn tokenization(message: String) -> (r: Self)
        ensures
            r == SudachiError::Tokenization(message),
    {
        SudachiError::Tokenization(message)
    }

    /// An invalid-argument error carrying `message`.
    pub fn invalid_argument(message: String) -> (r: Self)
        ensures
            r == SudachiError::InvalidArgument(message),
    {
        SudachiError::InvalidArgument(message)
    }

    /// A configuration error carrying `message`.
    pub fn config(message: String) -> (r: Self)
        ensures
            r == SudachiError::Config(message),
    {
        SudachiError::Config(message)
    }

    /// The message that the error carries.
    pub open spec fn message_of(self) -> Seq<char> {
        match self {
            SudachiError::Config(m) => m@,
            SudachiError::Dictionary(m) => m@,
            SudachiError::Tokenization(m) => m@,
            SudachiError::InvalidArgument(m) => m@,
            SudachiError::Internal(m) => m@,
        }
    }

    /// The prefix with which the error is displayed, by variant.
    pub open spec fn display_prefix(self) -> Seq<char> {
        match self {
            SudachiError::Config(_) => "Configuration error: "@,
            SudachiError::Dictionary(_) => "Dictionary error: "@,
            SudachiError::Tokenization(_) => "Tokenization error: "@,
            SudachiError::InvalidArgument(_) => "Invalid argument: "@,
            SudachiError::Internal(_) => "Internal error: "@,
        }
    }

    /// The human-readable text of the error: its variant's prefix followed by its message.
    pub fn to_display_string(&self) -> (r: String)
        ensures
            r@ == self.display_prefix() + self.message_of(),
    {
        let (prefix, message) = match self {
            SudachiError::Config(m) => ("Configuration error: ", m),
            SudachiError::Dictionary(m) => ("Dictionary error: ", m),
            SudachiError::Tokenization(m) => ("Tokenization error: ", m),
            SudachiError::InvalidArgument(m) => ("Invalid argument: ", m),
            SudachiError::Internal(m) => ("Internal error: ", m),
        };
        let mut r = String::from_str(prefix);
        r.append(message.as_str());
        r
    }
}

} // verus!
