use vstd::prelude::*;
use vstd::string::*;
use crate::error::SortError;
use crate::file_type::{classify, FileType};

verus! {

/// The path of `name` inside the directory `dir`: the two with one `/`
/// between them, unless `dir` is empty or ends in `/` already.
pub open spec fn join(dir: Seq<char>, name: Seq<char>) -> Seq<char> {
    if dir.len() == 0 {
        name
    } else if dir.last() == '/' {
        dir + name
    } else {
        dir + seq!['/'] + name
    }
}

/// Where files of kind `kind` go when the home directory is `home`:
/// nowhere for `Other`, else the kind's folder inside `home`.
pub open spec fn destination(kind: FileType, home: Seq<char>) -> Option<Seq<char>> {
    match kind.folder() {
        Some(folder) => Some(join(home, folder)),
        None => None,
    }
}

/// Where the file called `name` goes. `home` is the home directory if the
/// platform gave one. Only a file that goes somewhere needs it.
pub open spec fn sorted_under(name: Seq<char>, home: Option<Seq<char>>) -> Result<
    Option<Seq<char>>,
    SortError,
> {
    match (classify(name), home) {
        (FileType::Other, _) => Ok(None),
        (_, None) => Err(SortError::HomeDirUnresolved),
        (kind, Some(h)) => Ok(destination(kind, h)),
    }
}

/// The path of `name` inside `dir`.
pub fn join_paths(dir: &str, name: &str) -> (r: String)
    ensures
        r@ == join(dir@, name@),
{
    proof {
        reveal_strlit("/");
        assert("/"@ =~= seq!['/']);
    }
    let n: usize = dir.unicode_len();
    let mut path = String::from_str(dir);
    if n > 0 && dir.get_char(n - 1) != '/' {
        path.append("/");
    }
    path.append(name);
    assert(path@ =~= join(dir@, name@));
    path
}

/// The directory that files of kind `kind` are moved to, if any.
pub fn resolve(kind: FileType, home: &str) -> (r: Option<String>)
    ensures
        match r {
            Some(to) => destination(kind, home@) == Some(to@),
            None => destination(kind, home@) is None,
        },
{
    match kind.base_dir() {
        Some(folder) => Some(join_paths(home, folder)),
        None => None,
    }
}

/// Calls `home::home_dir`, which asks the environment and the operating
/// system for the current user's home directory. `None` is the crate's own
/// "not known". `Some(None)` is a directory whose name is not valid Unicode
/// and so cannot be handed on as text. Nothing is claimed of the answer: it
/// may differ from one call to the next.
#[verifier::external_body]
fn home_dir() -> Option<Option<String>> {
    match home::home_dir() {
        Some(path) => Some(path.into_os_string().into_string().ok()),
        None => None,
    }
}

/// The home directory that a run works with, given what the platform
/// answered: the run has none unless the platform named one as text.
pub fn home_from(found: Option<Option<String>>) -> (r: Result<String, SortError>)
    ensures
        match found {
            Some(Some(path)) => r == Ok::<String, SortError>(path),
            _ => r == Err::<String, SortError>(SortError::HomeDirUnresolved),
        },
{
    match found {
        Some(Some(path)) => Ok(path),
        _ => Err(SortError::HomeDirUnresolved),
    }
}

/// The current user's home directory, or `HomeDirUnresolved`. Which of
/// the two is for the platform to say.
pub fn home_path() -> (r: Result<String, SortError>)
    ensures
        r matches Err(e) ==> e == SortError::HomeDirUnresolved,
{
    home_from(home_dir())
}

/// Where the file called `file_name` goes, for a home directory that the
/// caller has looked up, if there is one.
pub fn sort_under(file_name: &str, home: &Option<String>) -> (r: Result<Option<String>, SortError>)
    ensures
        match r {
            Ok(to) => sorted_under(file_name@, home.deep_view()) == Ok::<
                Option<Seq<char>>,
                SortError,
            >(to.deep_view()),
            Err(e) => sorted_under(file_name@, home.deep_view()) == Err::<
                Option<Seq<char>>,
                SortError,
            >(e),
        },
{
    let kind = FileType::file_type(file_name);
    match kind {
        FileType::Other => Ok(None),
        _ => match home {
            Some(h) => Ok(resolve(kind, h.as_str())),
            None => Err(SortError::HomeDirUnresolved),
        },
    }
}

/// Where the file called `file_name` goes under the current user's home
/// directory. A file of kind `Other` goes nowhere, and the home directory
/// is not asked for. For an image or a video it is, and the answer decides:
/// the kind's folder inside that directory, or `HomeDirUnresolved`.
pub fn sort_into(file_name: &str) -> (r: Result<Option<String>, SortError>)
    ensures
        match r {
            Ok(Some(to)) => exists|home: Seq<char>|
                #[trigger] destination(classify(file_name@), home) == Some(to@),
            Ok(None) => classify(file_name@) == FileType::Other,
            Err(e) => e == SortError::HomeDirUnresolved && classify(file_name@)
                != FileType::Other,
        },
{
    let kind = FileType::file_type(file_name);
    match kind {
        FileType::Other => Ok(None),
        _ => match home_path() {
            Ok(home) => {
                let to = resolve(kind, home.as_str());
                assert(to matches Some(path) ==> destination(kind, home@) == Some(path@));
                Ok(to)
            },
            Err(e) => Err(e),
        },
    }
}

} // verus!
