//! Front end of a small Scheme implementation: a lexical scanner that turns
//! source text into a token stream, the syntax-tree model the scanner feeds,
//! a reification operation that turns literal syntax into runtime data, and
//! the generation of globally unique identifiers for hygienic rewriting.

use vstd::prelude::*;

pub mod ast;
pub mod tokenizer;
pub mod types;

verus! {

/// Relies on String::push of std: it appends the given character at the end
/// of the string and changes nothing else.
pub assume_specification[ std::string::String::push ](s: &mut std::string::String, c: char)
    ensures
        final(s)@ == old(s)@.push(c),
;

/// Turns a `Result` of an `Option` inside out, keeping the payloads untouched.
pub fn transpose_result<T, E>(result: Result<Option<T>, E>) -> (r: Option<Result<T, E>>)
    ensures
        match result {
            Ok(Some(x)) => r matches Some(Ok(y)) && y == x,
            Ok(None) => r is None,
            Err(e) => r matches Some(Err(f)) && f == e,
        },
{
    match result {
        Ok(Some(x)) => Some(Ok(x)),
        Ok(None) => None,
        Err(e) => Some(Err(e)),
    }
}

/// Turns an `Option` of a `Result` inside out, keeping the payloads untouched.
pub fn transpose_option<T, E>(option: Option<Result<T, E>>) -> (r: Result<Option<T>, E>)
    ensures
        match option {
            Some(Ok(x)) => r matches Ok(Some(y)) && y == x,
            None => r matches Ok(n) && n is None,
            Some(Err(e)) => r matches Err(f) && f == e,
        },
{
    match option {
        Some(Ok(x)) => Ok(Some(x)),
        None => Ok(None),
        Some(Err(e)) => Err(e),
    }
}

} // verus!

