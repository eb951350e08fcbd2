use vstd::prelude::*;

verus! {

/// Why an operation on the tree was refused.
#[derive(Clone, Copy, Debug, PartialEq, Eq, Structural)]
pub enum FsError {
    /// The path has no component where at least one is needed.
    InvalidPath,
    /// A component of the path, intermediate or final, does not exist.
    NotFound,
    /// An intermediate component of the path is a file.
    NotADirectory,
    /// The entry is a directory where a file is needed or, for a listing, a
    /// file where a directory is needed.
    IsADirectory,
    /// The name is already taken by a sibling.
    AlreadyExists,
    /// The directory to delete still has entries.
    DirectoryNotEmpty,
    /// The file does not grant write permission.
    PermissionDenied,
}

impl FsError {
    /// The text of the message.
    pub open spec fn message_text(self) -> Seq<char> {
        match self {
            FsError::InvalidPath => "Invalid path provided."@,
            FsError::NotFound => "File or directory not found."@,
            FsError::NotADirectory => "Path component is not a directory."@,
            FsError::IsADirectory => "Path points to a directory."@,
            FsError::AlreadyExists => "File or directory already exists."@,
            FsError::DirectoryNotEmpty => "Directory is not empty."@,
            FsError::PermissionDenied => "Write permission denied."@,
        }
    }

    /// A human-readable message for the error.
    pub fn message(&self) -> (text: String)
        ensures
            text@ == self.message_text(),
    {
        match self {
            FsError::InvalidPath => "Invalid path provided.".to_owned(),
            FsError::NotFound => "File or directory not found.".to_owned(),
            FsError::NotADirectory => "Path component is not a directory.".to_owned(),
            FsError::IsADirectory => "Path points to a directory.".to_owned(),
            FsError::AlreadyExists => "File or directory already exists.".to_owned(),
            FsError::DirectoryNotEmpty => "Directory is not empty.".to_owned(),
            FsError::PermissionDenied => "Write permission denied.".to_owned(),
        }
    }
}

} // verus!
