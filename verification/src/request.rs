//! Requests of the reactor: the request kinds, file-open modes, and the
//! bit set of open options.

use vstd::prelude::*;

verus! {

/// The kinds of request the reactor distinguishes.
#[allow(non_camel_case_types)]
#[derive(Debug, Clone, Copy, PartialEq, Eq, Structural)]
pub enum RequestType {
    UNKNOWN_REQ,
    REQ,
    CONNECT,
    WRITE,
    SHUTDOWN,
    UDP_SEND,
    FS,
    WORK,
    GETADDRINFO,
    GETNAMEINFO,
    RANDOM,
    REQ_TYPE_MAX,
}

/// The kinds of file-system request.
#[derive(Debug, Clone, Copy, PartialEq, Eq, Structural)]
pub enum FileSystemRequestType {
    UNKNOWN,
    CUSTOM,
    OPEN,
    CLOSE,
    READ,
    WRITE,
    SENDFILE,
    STAT,
    LSTAT,
    FSTAT,
    FTRUNCATE,
    UTIME,
    FUTIME,
    ACCESS,
    CHMOD,
    FCHMOD,
    FSYNC,
    FDATASYNC,
    UNLINK,
    RMDIR,
    MKDIR,
    MKDTEMP,
    RENAME,
    SCANDIR,
    LINK,
    SYMLINK,
    READLINK,
    CHOWN,
    FCHOWN,
    REALPATH,
    COPYFILE,
    LCHOWN,
    OPENDIR,
    READDIR,
    CLOSEDIR,
    STATFS,
    MKSTEMP,
    LUTIME,
}

/// Access mode a file is opened with.
#[allow(non_camel_case_types)]
#[derive(Debug, Clone, Copy, PartialEq, Eq, Structural)]
pub enum OpenMode {
    RDONLY,
    WRONLY,
    RDWR,
}

/// One open option, as the bit it occupies.
pub type OpenOption = u32;

pub const APPEND: OpenOption = 1024;

pub const CREAT: OpenOption = 64;

pub const DIRECT: OpenOption = 16384;

pub const DIRECTORY: OpenOption = 65536;

pub const DSYNC: OpenOption = 4096;

pub const EXCL: OpenOption = 128;

pub const NOCTTY: OpenOption = 256;

pub const NOFOLLOW: OpenOption = 131072;

pub const NONBLOCK: OpenOption = 2048;

pub const SYNC: OpenOption = 1052672;

pub const TRUNC: OpenOption = 512;

/// A set of open options, kept as a bit mask.
pub struct OpenOptionSet(u32);

impl OpenOptionSet {
    /// The bit mask held.
    pub closed spec fn spec_bits(&self) -> u32 {
        self.0
    }

    /// The empty option set.
    pub fn new() -> (r: Self)
        ensures
            r.spec_bits() == 0u32,
    {
        OpenOptionSet(0)
    }

    /// Adds the given option's bits to the set.
    pub fn set(&mut self, option: OpenOption)
        ensures
            final(self).spec_bits() == old(self).spec_bits() | option,
    {
        self.0 = self.0 | option;
    }

    /// Removes the given option's bits from the set.
    pub fn unset(&mut self, option: OpenOption)
        ensures
            final(self).spec_bits() == old(self).spec_bits() & !option,
    {
        self.0 = self.0 & !option;
    }

    /// Whether any bit of the given option is in the set.
    pub fn has(&self, option: OpenOption) -> (r: bool)
        ensures
            r == ((self.spec_bits() & option) != 0u32),
    {
        (self.0 & option) != 0
    }
}

} // verus!
