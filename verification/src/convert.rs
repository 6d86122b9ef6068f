//! From the host's vocabulary to the kernel's: file kinds, attributes and
//! open flags.

use vstd::prelude::*;

verus! {

/// The kind of a file, as the kernel is told.
#[derive(Clone, Copy, Debug, Hash, PartialEq, Eq, Structural)]
pub enum FileKind {
    NamedPipe,
    CharDevice,
    BlockDevice,
    Directory,
    RegularFile,
    Symlink,
    Socket,
}

/// What the host says of a file's type: the answer to each question that
/// it can be asked.
#[derive(Clone, Copy, Debug, PartialEq, Eq, Structural)]
pub struct HostFileType {
    pub is_file: bool,
    pub is_dir: bool,
    pub is_symlink: bool,
    pub is_block_device: bool,
    pub is_char_device: bool,
    pub is_fifo: bool,
    pub is_socket: bool,
}

impl HostFileType {
    /// The kind that the kernel is told for this type: that of the first
    /// question, in the order of the fields, that the host answered with
    /// yes. A type for which it answered every question with no has none.
    pub open spec fn kind(self) -> Option<FileKind> {
        if self.is_file {
            Some(FileKind::RegularFile)
        } else if self.is_dir {
            Some(FileKind::Directory)
        } else if self.is_symlink {
            Some(FileKind::Symlink)
        } else if self.is_block_device {
            Some(FileKind::BlockDevice)
        } else if self.is_char_device {
            Some(FileKind::CharDevice)
        } else if self.is_fifo {
            Some(FileKind::NamedPipe)
        } else if self.is_socket {
            Some(FileKind::Socket)
        } else {
            None
        }
    }

    /// Whether the type has a kind.
    pub fn is_known(&self) -> (known: bool)
        ensures
            known == self.kind().is_some(),
    {
        self.is_file || self.is_dir || self.is_symlink || self.is_block_device
            || self.is_char_device || self.is_fifo || self.is_socket
    }
}

/// The kind of a file of the given type. The type must be one that the
/// kernel knows.
pub fn convert_file_type(file_type: HostFileType) -> (kind: FileKind)
    requires
        file_type.kind().is_some(),
    ensures
        Some(kind) == file_type.kind(),
{
    if file_type.is_file {
        FileKind::RegularFile
    } else if file_type.is_dir {
        FileKind::Directory
    } else if file_type.is_symlink {
        FileKind::Symlink
    } else if file_type.is_block_device {
        FileKind::BlockDevice
    } else if file_type.is_char_device {
        FileKind::CharDevice
    } else if file_type.is_fifo {
        FileKind::NamedPipe
    } else {
        FileKind::Socket
    }
}

/// A point in time: seconds and nanoseconds since the Unix epoch.
#[derive(Clone, Copy, Debug, PartialEq, Eq, Structural)]
pub struct Timestamp {
    pub secs: i64,
    pub nanos: u32,
}

/// Nanoseconds in a second.
pub const NANOS_PER_SEC: u32 = 1_000_000_000;

impl Timestamp {
    /// The point as a whole number of nanoseconds since the epoch; negative
    /// before it.
    pub open spec fn nanoseconds(self) -> int {
        self.secs * NANOS_PER_SEC + self.nanos
    }

    /// The nanoseconds are less than a second.
    pub open spec fn wf(self) -> bool {
        self.nanos < NANOS_PER_SEC
    }

    /// The point that lies `secs` seconds and `nanos` nanoseconds after
    /// the epoch, or that far before it; none where the seconds do not fit.
    pub fn from_offset(before_epoch: bool, secs: u64, nanos: u32) -> (stamp: Option<Timestamp>)
        requires
            nanos < NANOS_PER_SEC,
        ensures
            stamp.is_some() == (secs <= i64::MAX),
            match stamp {
                Some(stamp) => stamp.wf() && stamp.nanoseconds() == (if before_epoch {
                    -(secs * NANOS_PER_SEC + nanos)
                } else {
                    secs * NANOS_PER_SEC + nanos
                }),
                None => true,
            },
    {
        if secs > 0x7fff_ffff_ffff_ffff {
            None
        } else if !before_epoch {
            Some(Timestamp { secs: secs as i64, nanos })
        } else if nanos == 0 {
            Some(Timestamp { secs: -(secs as i64), nanos: 0 })
        } else {
            Some(Timestamp { secs: -(secs as i64) - 1, nanos: NANOS_PER_SEC - nanos })
        }
    }

    /// How far from the epoch the point lies, in seconds and nanoseconds,
    /// and whether it lies before it.
    pub fn offset(&self) -> (distance: (bool, u64, u32))
        requires
            self.wf(),
        ensures
            distance.2 < NANOS_PER_SEC,
            distance.0 == (self.secs < 0),
            self.nanoseconds() == (if distance.0 {
                -(distance.1 * NANOS_PER_SEC + distance.2)
            } else {
                distance.1 * NANOS_PER_SEC + distance.2
            }),
    {
        if self.secs >= 0 {
            (false, self.secs as u64, self.nanos)
        } else if self.nanos == 0 {
            (true, (-(self.secs + 1)) as u64 + 1, 0)
        } else {
            (true, (-(self.secs + 1)) as u64, NANOS_PER_SEC - self.nanos)
        }
    }
}

/// The bits of a mode word that hold the permissions: read, write and
/// execute for owner, group and others, with set-user-id, set-group-id and
/// sticky.
pub const PERMISSION_BITS: u32 = 0o7777;

/// The permission bits of a mode word.
pub fn permission_bits(mode: u32) -> (perm: u16)
    ensures
        perm == mode & PERMISSION_BITS,
{
    let bits: u32 = mode & PERMISSION_BITS;
    assert(bits <= 0o7777) by (bit_vector)
        requires
            bits == mode & 0o7777u32,
    ;
    bits as u16
}

/// What the host knows of a file.
#[derive(Clone, Copy, Debug, PartialEq, Eq, Structural)]
pub struct HostMetadata {
    pub ino: u64,
    pub size: u64,
    pub blocks: u64,
    /// Time of last access, where the host keeps it.
    pub accessed: Option<Timestamp>,
    /// Time of last modification, where the host keeps it.
    pub modified: Option<Timestamp>,
    /// Time of creation, where the host keeps it.
    pub created: Option<Timestamp>,
    /// Time of the last change of the inode, in seconds since the epoch.
    pub ctime: i64,
    pub file_type: HostFileType,
    /// The mode word: type and permission bits.
    pub mode: u32,
    pub nlink: u64,
    pub uid: u32,
    pub gid: u32,
    pub rdev: u64,
    pub blksize: u64,
}

/// The attributes of a file, as the kernel is told.
#[derive(Clone, Copy, Debug, PartialEq, Eq, Structural)]
pub struct FileAttr {
    pub ino: u64,
    pub size: u64,
    pub blocks: u64,
    pub atime: Timestamp,
    pub mtime: Timestamp,
    pub ctime: Timestamp,
    pub crtime: Timestamp,
    pub kind: FileKind,
    pub perm: u16,
    pub nlink: u32,
    pub uid: u32,
    pub gid: u32,
    pub rdev: u32,
    pub blksize: u32,
    pub flags: u32,
}

impl HostMetadata {
    /// Whether the kernel can be told of the file: the host keeps all three
    /// times, the change time is not before the epoch, the type is known, and
    /// link count, device number and block size fit the kernel's fields.
    pub open spec fn convertible(self) -> bool {
        &&& self.accessed.is_some()
        &&& self.modified.is_some()
        &&& self.created.is_some()
        &&& self.ctime >= 0
        &&& self.file_type.kind().is_some()
        &&& self.nlink <= u32::MAX
        &&& self.rdev <= u32::MAX
        &&& self.blksize <= u32::MAX
    }

    /// The attributes that the kernel is told. Of the mode word only the
    /// permission bits are told as such; the file's type is told as its
    /// kind. The inode number is the host's; whoever answers the kernel puts
    /// the mount's own in its place.
    pub open spec fn attributes(self) -> FileAttr {
        FileAttr {
            ino: self.ino,
            size: self.size,
            blocks: self.blocks,
            atime: self.accessed.unwrap(),
            mtime: self.modified.unwrap(),
            ctime: Timestamp { secs: self.ctime, nanos: 0 },
            crtime: self.created.unwrap(),
            kind: self.file_type.kind().unwrap(),
            perm: (self.mode & PERMISSION_BITS) as u16,
            nlink: self.nlink as u32,
            uid: self.uid,
            gid: self.gid,
            rdev: self.rdev as u32,
            blksize: self.blksize as u32,
            flags: 0,
        }
    }

    /// Whether the kernel can be told of the file.
    pub fn is_convertible(&self) -> (fits: bool)
        ensures
            fits == self.convertible(),
    {
        self.accessed.is_some() && self.modified.is_some() && self.created.is_some() && self.ctime
            >= 0 && self.file_type.is_known() && self.nlink <= 0xffff_ffff && self.rdev
            <= 0xffff_ffff && self.blksize <= 0xffff_ffff
    }
}

/// The attributes of a file of which the host knows `metadata`.
pub fn convert_metadata(metadata: &HostMetadata) -> (attr: FileAttr)
    requires
        metadata.convertible(),
    ensures
        attr == metadata.attributes(),
{
    FileAttr {
        ino: metadata.ino,
        size: metadata.size,
        blocks: metadata.blocks,
        atime: metadata.accessed.unwrap(),
        mtime: metadata.modified.unwrap(),
        ctime: Timestamp { secs: metadata.ctime, nanos: 0 },
        crtime: metadata.created.unwrap(),
        kind: convert_file_type(metadata.file_type),
        perm: permission_bits(metadata.mode),
        nlink: metadata.nlink as u32,
        uid: metadata.uid,
        gid: metadata.gid,
        rdev: metadata.rdev as u32,
        blksize: metadata.blksize as u32,
        flags: 0,
    }
}

/// The bits of the open flags that hold the access mode.
pub const O_ACCMODE: i32 = 3;

/// Open for reading only.
pub const O_RDONLY: i32 = 0;

/// Open for writing only.
pub const O_WRONLY: i32 = 1;

/// Open for reading and writing.
pub const O_RDWR: i32 = 2;

/// The file is cut to length zero when it is opened.
pub const O_TRUNC: i32 = 512;

/// Writes go to the end of the file.
pub const O_APPEND: i32 = 1024;

/// How a file is opened on the host.
#[derive(Clone, Copy, Debug, PartialEq, Eq, Structural)]
pub enum OpenMode {
    Read,
    Write,
    ReadWrite,
    Append,
}

/// A way to open a file: the mode, and whether writes pass through a
/// buffer.
#[derive(Clone, Copy, Debug, PartialEq, Eq, Structural)]
pub struct OpenPlan {
    pub mode: OpenMode,
    pub use_write_buffer: bool,
}

/// How a file is opened for the given flags. Flags that ask to append
/// give an append handle, whatever their access mode. For all others the
/// access mode decides, and only a handle that is written and never read
/// gets a write buffer. Flags that ask to truncate the file, and flags that
/// do not ask to append and whose access mode is none of the three, have no
/// plan.
pub open spec fn open_plan(flags: i32) -> Option<OpenPlan> {
    let access = flags & O_ACCMODE;
    if flags & O_TRUNC != 0 {
        None
    } else if flags & O_APPEND != 0 {
        Some(OpenPlan { mode: OpenMode::Append, use_write_buffer: false })
    } else if access == O_RDONLY {
        Some(OpenPlan { mode: OpenMode::Read, use_write_buffer: false })
    } else if access == O_WRONLY {
        Some(OpenPlan { mode: OpenMode::Write, use_write_buffer: true })
    } else if access == O_RDWR {
        Some(OpenPlan { mode: OpenMode::ReadWrite, use_write_buffer: false })
    } else {
        None
    }
}

/// Whether the flags have a plan.
pub fn is_supported_flags(flags: i32) -> (supported: bool)
    ensures
        supported == open_plan(flags).is_some(),
{
    let access = flags & O_ACCMODE;
    flags & O_TRUNC == 0 && (flags & O_APPEND != 0 || access == O_RDONLY || access == O_WRONLY
        || access == O_RDWR)
}

/// How to open a file for the given flags. The flags must have a plan.
pub fn parse_flag_options(flags: i32) -> (plan: OpenPlan)
    requires
        open_plan(flags).is_some(),
    ensures
        Some(plan) == open_plan(flags),
{
    let access = flags & O_ACCMODE;
    if flags & O_APPEND != 0 {
        OpenPlan { mode: OpenMode::Append, use_write_buffer: false }
    } else if access == O_RDONLY {
        OpenPlan { mode: OpenMode::Read, use_write_buffer: false }
    } else if access == O_WRONLY {
        OpenPlan { mode: OpenMode::Write, use_write_buffer: true }
    } else {
        OpenPlan { mode: OpenMode::ReadWrite, use_write_buffer: false }
    }
}

} // verus!
