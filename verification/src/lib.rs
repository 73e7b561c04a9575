//! Conversion of compiled protocol-buffer schema metadata into a SCIP
//! code-indexing document: a type registry built over every input file, a
//! decoder that reads integer source-location paths against the descriptor
//! structure, a resolver for cross-file type references, and an assembler
//! that collects symbol definitions and occurrences per file.

pub mod assemble;
pub mod decode;
pub mod laws;
pub mod model;
pub mod registry;
pub mod resolve;
pub mod text;

use vstd::prelude::*;

verus! {

/// The error kinds the conversion pipeline can report. Every one of them is
/// fatal to the whole run: no partial index is ever produced.
#[derive(Clone, Copy, Debug, PartialEq, Eq, Structural)]
pub enum IndexError {
    /// The input descriptor set is malformed: a required name field is
    /// missing, or a source-location path indexes past the end of a
    /// collection.
    MalformedInput,
    /// An external type reference names a package or a declaration that the
    /// global registry does not contain.
    UnresolvedReference,
    /// A plugin parameter string does not hold exactly two tokens.
    InvalidParameters,
}

/// Splits a compiler-plugin parameter string into its project-root path and
/// its output-file path: exactly two whitespace-separated tokens, in that
/// order. Any other token count is a fatal configuration error.
pub fn parse_plugin_parameter(s: &str) -> (r: Result<(String, String), IndexError>)
    ensures
        match r {
            Result::Ok(pair) => {
                &&& text::tokens(s@).len() == 2
                &&& pair.0@ == text::tokens(s@)[0]
                &&& pair.1@ == text::tokens(s@)[1]
            },
            Result::Err(e) => e == IndexError::InvalidParameters && text::tokens(s@).len() != 2,
        },
{
    let mut toks = text::tokens_of(s);
    if toks.len() == 2 {
        let second = toks.remove(1);
        let first = toks.remove(0);
        Ok((first, second))
    } else {
        Err(IndexError::InvalidParameters)
    }
}

} // verus!
