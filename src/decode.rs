use vstd::prelude::*;

verus! {

/// A type that can be built from a command line by its own usage grammar.
///
/// A malformed command line does not come back as an error: the decoder
/// reports it and ends the process.
pub trait Decode: Sized {
    /// Decodes `args` against the type's usage grammar.
    fn decode(args: Vec<String>) -> Self;

    /// Like `decode`, and lets `--version` print `version`.
    fn decode_with_version<S: Into<String>>(args: Vec<String>, version: S) -> Self;
}

} // verus!
