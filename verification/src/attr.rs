use vstd::prelude::*;

verus! {

/// A point in time, counted from the Unix epoch.
#[derive(Debug, Clone, Copy, PartialEq, Eq, Structural)]
pub struct Timestamp {
    pub secs: u64,
    pub nanos: u32,
}

impl Timestamp {
    /// The nanoseconds between the epoch and this point.
    pub open spec fn total_nanos(self) -> int {
        self.secs * 1_000_000_000 + self.nanos
    }

    /// The Unix epoch.
    pub fn epoch() -> (r: Timestamp)
        ensures
            r.secs == 0,
            r.nanos == 0,
    {
        Timestamp { secs: 0, nanos: 0 }
    }

    /// Whether at least `window_secs` seconds lie between this point and
    /// `now`.
    pub fn has_elapsed(&self, window_secs: u64, now: &Timestamp) -> (r: bool)
        ensures
            r == (self.total_nanos() + window_secs * 1_000_000_000 <= now.total_nanos()),
    {
        let start: u128 = (self.secs as u128) * 1_000_000_000 + (self.nanos as u128);
        let window: u128 = (window_secs as u128) * 1_000_000_000;
        let end: u128 = (now.secs as u128) * 1_000_000_000 + (now.nanos as u128);
        start + window <= end
    }
}

/// What an entry is: a folder or a file with a byte stream.
#[derive(Debug, Clone, Copy, PartialEq, Eq, Structural)]
pub enum EntryKind {
    Directory,
    RegularFile,
}

/// The POSIX attributes of an entry.
#[derive(Debug, Clone, Copy, PartialEq, Eq, Structural)]
pub struct FileAttr {
    pub ino: u64,
    pub size: u64,
    pub blocks: u64,
    pub atime: Timestamp,
    pub mtime: Timestamp,
    pub ctime: Timestamp,
    pub crtime: Timestamp,
    pub kind: EntryKind,
    pub perm: u16,
    pub nlink: u32,
    pub uid: u32,
    pub gid: u32,
    pub rdev: u32,
    pub blksize: u32,
    pub flags: u32,
}

/// The permission bits that policy gives an entry of a kind.
pub open spec fn default_perm(kind: EntryKind) -> u16 {
    match kind {
        EntryKind::Directory => 0o755,
        EntryKind::RegularFile => 0o644,
    }
}

} // verus!
