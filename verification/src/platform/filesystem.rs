//! What the resolver learns from a file system, and the trait through which
//! it asks.
use vstd::prelude::*;
use super::host_path::HostPath;

verus! {

/// One entry as the file system reports it.
#[derive(Clone, Debug, Eq, PartialEq)]
pub struct FileSystemEntry {
    pub path: HostPath,
    pub file_name: String,
    pub is_directory: bool,
    pub is_file: bool,
}

#[derive(Clone, Copy, Debug, Eq, PartialEq, Structural)]
pub enum FileSystemErrorKind {
    Missing,
    PermissionDenied,
    Other,
}

#[derive(Clone, Debug, Eq, PartialEq)]
pub struct FileSystemError {
    pub kind: FileSystemErrorKind,
    pub message: String,
}

/// Read-only access to a host file system. Implementations decide what
/// exists; the resolver's contracts hold for every answer they give.
pub trait PlatformFileSystem {
    fn inspect(&self, path: &HostPath) -> Result<FileSystemEntry, FileSystemError>;

    /// The entries of a directory, ordered by file name.
    fn read_directory(&self, path: &HostPath) -> Result<Vec<FileSystemEntry>, FileSystemError>;

    /// The target of a symbolic link, resolved against the link's directory.
    fn read_link(&self, path: &HostPath) -> Result<HostPath, FileSystemError>;

    fn canonicalize(&self, path: &HostPath) -> Result<HostPath, FileSystemError>;

    fn modified_unix_seconds(&self, path: &HostPath) -> Result<u64, FileSystemError>;
}

} // verus!
