//! Identifiers handed to the kernel and the mapping of host errors to kernel
//! error numbers.

use vstd::prelude::*;
use vstd::std_specs::convert::FromSpecImpl;
use crate::convert::FileAttr;

verus! {

/// An inode number as the kernel sees it. Numbers are chosen by the
/// filesystem itself and have nothing to do with the host's inodes.
#[derive(Clone, Copy, Debug, Hash, PartialEq, Eq, Structural)]
pub struct INode {
    pub inode: u64,
}

impl View for INode {
    type V = u64;

    open spec fn view(&self) -> u64 {
        self.inode
    }
}

impl From<u64> for INode {
    fn from(inode: u64) -> (ino: INode) {
        INode { inode }
    }
}

impl FromSpecImpl<u64> for INode {
    open spec fn obeys_from_spec() -> bool {
        true
    }

    open spec fn from_spec(inode: u64) -> INode {
        INode { inode }
    }
}

impl From<INode> for u64 {
    fn from(ino: INode) -> (inode: u64) {
        ino.inode
    }
}

impl FromSpecImpl<INode> for u64 {
    open spec fn obeys_from_spec() -> bool {
        true
    }

    open spec fn from_spec(ino: INode) -> u64 {
        ino.inode
    }
}

impl INode {
    /// Steps to the next inode number.
    pub fn inc(&mut self)
        requires
            old(self).inode < u64::MAX,
        ensures
            final(self).inode == old(self).inode + 1,
    {
        self.inode += 1;
    }
}

/// The identifier of an open file, unique for the life of the mount.
#[derive(Clone, Copy, Debug, Hash, PartialEq, Eq, Structural)]
pub struct IFileHandle {
    pub index: u64,
}

impl View for IFileHandle {
    type V = u64;

    open spec fn view(&self) -> u64 {
        self.index
    }
}

impl From<u64> for IFileHandle {
    fn from(index: u64) -> (fh: IFileHandle) {
        IFileHandle { index }
    }
}

impl FromSpecImpl<u64> for IFileHandle {
    open spec fn obeys_from_spec() -> bool {
        true
    }

    open spec fn from_spec(index: u64) -> IFileHandle {
        IFileHandle { index }
    }
}

impl From<IFileHandle> for u64 {
    fn from(fh: IFileHandle) -> (index: u64) {
        fh.index
    }
}

impl FromSpecImpl<IFileHandle> for u64 {
    open spec fn obeys_from_spec() -> bool {
        true
    }

    open spec fn from_spec(fh: IFileHandle) -> u64 {
        fh.index
    }
}

impl IFileHandle {
    /// Steps to the next handle identifier.
    pub fn inc(&mut self)
        requires
            old(self).index < u64::MAX,
        ensures
            final(self).index == old(self).index + 1,
    {
        self.index += 1;
    }
}

/// What went wrong in a call to the host, as far as the kernel is told.
#[derive(Clone, Copy, Debug, Hash, PartialEq, Eq, Structural)]
pub enum HostErrorKind {
    NotFound,
    InvalidFilename,
    DirectoryNotEmpty,
    IsADirectory,
    PermissionDenied,
    /// Every kind that has no error number of its own.
    Other,
}

/// No such file or directory.
pub const ENOENT: i32 = 2;

/// Operation not permitted.
pub const EPERM: i32 = 1;

/// Is a directory.
pub const EISDIR: i32 = 21;

/// File name too long.
pub const ENAMETOOLONG: i32 = 36;

/// Function not implemented.
pub const ENOSYS: i32 = 38;

/// Directory not empty.
pub const ENOTEMPTY: i32 = 39;

impl HostErrorKind {
    /// The error number that the kernel is given for this kind, where the
    /// kind has one.
    pub open spec fn error_number(self) -> Option<i32> {
        match self {
            HostErrorKind::NotFound => Some(ENOENT),
            HostErrorKind::InvalidFilename => Some(ENAMETOOLONG),
            HostErrorKind::DirectoryNotEmpty => Some(ENOTEMPTY),
            HostErrorKind::IsADirectory => Some(EISDIR),
            HostErrorKind::PermissionDenied => Some(EPERM),
            HostErrorKind::Other => None,
        }
    }

    /// Whether the kind has an error number.
    pub fn is_mapped(&self) -> (mapped: bool)
        ensures
            mapped == self.error_number().is_some(),
    {
        match self {
            HostErrorKind::Other => false,
            _ => true,
        }
    }
}

/// The error number that the kernel is given for a failed call to the
/// host. A kind without a number of its own is a mistake of the caller.
pub fn parse_error_cint(error: HostErrorKind) -> (code: i32)
    requires
        error.error_number().is_some(),
    ensures
        Some(code) == error.error_number(),
{
    match error {
        HostErrorKind::NotFound => ENOENT,
        HostErrorKind::InvalidFilename => ENAMETOOLONG,
        HostErrorKind::DirectoryNotEmpty => ENOTEMPTY,
        HostErrorKind::IsADirectory => EISDIR,
        HostErrorKind::PermissionDenied => EPERM,
        HostErrorKind::Other => ENOSYS,
    }
}

/// What the kernel is told of a file that was created and opened.
#[derive(Clone, Copy, Debug, PartialEq, Eq)]
pub struct FileCreate {
    pub attr: FileAttr,
    pub fh: IFileHandle,
}

impl FileCreate {
    pub fn new(attr: FileAttr, fh: IFileHandle) -> (created: FileCreate)
        ensures
            created.attr == attr,
            created.fh == fh,
    {
        FileCreate { attr, fh }
    }
}

} // verus!
