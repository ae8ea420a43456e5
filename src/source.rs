//! Where the lines to shorten come from.

use vstd::prelude::*;

verus! {

/// The one source of input lines.
#[derive(Debug, PartialEq, Eq)]
pub enum Source {
    /// Standard input
    Stdin,
    /// The file at this path
    File(String),
}

/// Why no source could be chosen.
#[derive(Debug, PartialEq, Eq, Structural)]
pub enum SourceError {
    /// Neither standard input nor a file was asked for
    NoSource,
    /// Both standard input and a file were asked for
    TooManySources,
}

/// Chooses the source of input lines: exactly one of standard input and a
/// file path must be asked for.
pub fn select_source(use_stdin: bool, input_path: Option<String>) -> (r: Result<Source, SourceError>)
    ensures
        use_stdin && input_path is Some <==> r == Err::<Source, SourceError>(
            SourceError::TooManySources,
        ),
        !use_stdin && input_path is None <==> r == Err::<Source, SourceError>(
            SourceError::NoSource,
        ),
        use_stdin && input_path is None <==> r == Ok::<Source, SourceError>(Source::Stdin),
        !use_stdin && input_path is Some ==> (r matches Ok(Source::File(p)) && p == input_path->0),
{
    match (use_stdin, input_path) {
        (false, None) => Err(SourceError::NoSource),
        (true, Some(_)) => Err(SourceError::TooManySources),
        (true, None) => Ok(Source::Stdin),
        (false, Some(path)) => Ok(Source::File(path)),
    }
}

} // verus!
