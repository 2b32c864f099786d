use vstd::prelude::*;
use crate::error::SortError;

verus! {

/// The options of a run. There are none: a run is told its source directory
/// and nothing else, and nothing about it is read from the process's state.
#[derive(Clone, Copy, Debug, PartialEq, Eq, Structural)]
pub struct PathArgs {}

/// The source directory that a command line names: its first argument.
/// `args` is the whole line, the program's own name first. What follows
/// the first argument is not looked at.
pub fn parse_path_args(args: &Vec<String>) -> (r: Result<String, SortError>)
    ensures
        match r {
            Ok(path) => args@.len() >= 2 && path@ == args@[1]@,
            Err(e) => args@.len() < 2 && e == SortError::Argument,
        },
{
    if args.len() < 2 {
        Err(SortError::Argument)
    } else {
        Ok(args[1].clone())
    }
}

/// Accepts `path` as the source of a run where `is_dir` says that it names
/// an existing directory, and refuses it as `InvalidPath` where not.
pub fn accept_source(path: String, is_dir: bool) -> (r: Result<String, SortError>)
    ensures
        is_dir ==> r == Ok::<String, SortError>(path),
        !is_dir ==> r == Err::<String, SortError>(SortError::InvalidPath),
{
    if is_dir {
        Ok(path)
    } else {
        Err(SortError::InvalidPath)
    }
}

} // verus!
