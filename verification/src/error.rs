use vstd::prelude::*;

verus! {

/// Everything that can go wrong while sorting a directory.
///
/// `Argument`, `InvalidPath`, `DirectoryRead` and `HomeDirUnresolved` end
/// the run. `MalformedName` and `Move` concern one file only: the run goes
/// on with the next one.
#[derive(Clone, Copy, Debug, PartialEq, Eq, Structural)]
pub enum SortError {
    /// No source directory was named on the command line.
    Argument,
    /// The argument does not name an existing directory.
    InvalidPath,
    /// The source directory could not be listed.
    DirectoryRead,
    /// A file name has no extension: no `.` in it, or nothing after the last one.
    MalformedName,
    /// One file could not be moved.
    Move,
    /// The platform knows no home directory for the current user.
    HomeDirUnresolved,
}

impl SortError {
    /// The text that tells the user of this error.
    pub open spec fn text(self) -> Seq<char> {
        match self {
            SortError::Argument => "No argument provided"@,
            SortError::InvalidPath => "Invalid path provided"@,
            SortError::DirectoryRead => "Problem reading dir"@,
            SortError::MalformedName => "File name has no extension"@,
            SortError::Move => "Problem moving file"@,
            SortError::HomeDirUnresolved => "Cannot get home dir"@,
        }
    }

    /// The text shown to the user for this error.
    pub fn message(&self) -> (r: &'static str)
        ensures
            r@ == self.text(),
    {
        match self {
            SortError::Argument => "No argument provided",
            SortError::InvalidPath => "Invalid path provided",
            SortError::DirectoryRead => "Problem reading dir",
            SortError::MalformedName => "File name has no extension",
            SortError::Move => "Problem moving file",
            SortError::HomeDirUnresolved => "Cannot get home dir",
        }
    }
}

} // verus!
