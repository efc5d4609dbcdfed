//! Validation of the generator's invocation argument.
//!
//! The generator takes exactly one string-literal token naming the directory
//! to embed. The caller at the build edge reduces each top-level token of the
//! invocation to an [`ArgToken`]: the literal's contents where the token is a
//! string literal, and [`ArgToken::Other`] for anything else.

use vstd::prelude::*;
use crate::errors::BuildError;

verus! {

/// One top-level token of the generator invocation, reduced to what the
/// validation logic reads: a string literal's contents, or anything else.
pub enum ArgToken {
    StrLiteral(String),
    Other,
}

/// Extracts the directory path from the generator's argument tokens.
///
/// Succeeds exactly when the invocation is a single string literal; every
/// other shape is a distinct fatal build error.
pub fn get_path_from_args(args: Vec<ArgToken>) -> (r: Result<String, BuildError>)
    ensures
        match r {
            Ok(path) => args@.len() == 1 && args@[0] == ArgToken::StrLiteral(path),
            Err(e) => match e {
                BuildError::EmptyArgument => args@.len() == 0,
                BuildError::NotStringLiteral => args@.len() == 1 && args@[0] is Other,
                BuildError::MultipleArguments => args@.len() >= 2,
                _ => false,
            },
        },
{
    if args.len() == 0 {
        Err(BuildError::EmptyArgument)
    } else if args.len() > 1 {
        Err(BuildError::MultipleArguments)
    } else {
        let mut args = args;
        match args.pop() {
            Some(ArgToken::StrLiteral(path)) => Ok(path),
            _ => Err(BuildError::NotStringLiteral),
        }
    }
}

} // verus!
