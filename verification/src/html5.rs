//! HTML5 parsing: the tokenizer, and what a parser that builds documents
//! offers to the harness that runs recorded cases against it.

pub mod tokenizer;

use crate::types::Error;
use vstd::prelude::*;

verus! {

/// A parser that turns a text into a document of type `T`.
pub trait Document<'i, T>: Sized {
    /// Parses a whole document.
    fn parse_document(data: &'i str, scripting_enabled: bool) -> Result<T, Error>;

    /// Parses a fragment that stands inside an element named `context`. A
    /// parser that knows no fragments parses the text as a whole document.
    fn parse_fragment(data: &'i str, scripting_enabled: bool, context: &'i str) -> (r: Result<
        T,
        Error,
    >)
        default_ensures
            call_ensures(Self::parse_document, (data, scripting_enabled), r),
    {
        Self::parse_document(data, scripting_enabled)
    }
}

} // verus!
