//! What the filesystem remembers of an open file.
//!
//! The host's handle on the file stays with the caller. Kept here is what
//! the decisions rest on: the inode that the file was opened for, whether
//! writes pass through a buffer, and the position that the last operation
//! left the cursor at. The position is a hint; the host's cursor decides.

use vstd::prelude::*;
use crate::fuse::INode;

verus! {

/// Bytes that a buffered handle collects before it writes to the host.
pub const WRITE_BUFFER_CAPACITY: usize = 262144;

/// The record of one open file.
#[derive(Clone, Copy, Debug, PartialEq, Eq, Structural)]
pub struct FileHandler {
    /// The inode that the file was opened for.
    pub ino: INode,
    /// Where the next byte is read or written.
    pub offset: i64,
    /// Whether writes are collected in a buffer. Such a handle is for
    /// writing only.
    pub use_write_buffer: bool,
}

impl FileHandler {
    /// The record of a file just opened for `ino`.
    pub fn new(ino: INode, offset: i64, use_write_buffer: bool) -> (handler: FileHandler)
        ensures
            handler == (FileHandler { ino, offset, use_write_buffer }),
    {
        FileHandler { ino, offset, use_write_buffer }
    }

    /// Whether the handle can be read from: a buffered handle cannot.
    pub fn can_read(&self) -> (readable: bool)
        ensures
            readable == !self.use_write_buffer,
    {
        !self.use_write_buffer
    }

    /// Notes that the cursor now stands at `position`.
    pub fn seeked(&mut self, position: u64)
        requires
            position <= i64::MAX,
        ensures
            final(self).offset == position,
            final(self).ino == old(self).ino,
            final(self).use_write_buffer == old(self).use_write_buffer,
    {
        self.offset = position as i64;
    }

    /// Notes that `transferred` bytes were read or written at the cursor.
    pub fn advanced(&mut self, transferred: usize)
        requires
            0 <= old(self).offset,
            old(self).offset + transferred <= i64::MAX,
        ensures
            final(self).offset == old(self).offset + transferred,
            final(self).ino == old(self).ino,
            final(self).use_write_buffer == old(self).use_write_buffer,
    {
        self.offset = self.offset + (transferred as i64);
    }
}

} // verus!
