use vstd::prelude::*;
use vstd::std_specs::convert::FromSpecImpl;

verus! {

/// A kernel-visible inode number: a purely local alias for a remote id.
#[derive(Debug, Clone, Copy, PartialEq, Eq, Hash, Structural)]
pub struct Inode(pub u64);

impl Inode {
    /// The number behind this inode.
    pub open spec fn value(self) -> u64 {
        self.0
    }

    pub fn new(value: u64) -> (r: Self)
        ensures
            r.value() == value,
    {
        Inode(value)
    }

    pub fn get(&self) -> (r: u64)
        ensures
            r == self.value(),
    {
        self.0
    }

    /// The number as 32 bits, where it fits.
    pub fn try_into_u32(self) -> (r: Option<u32>)
        ensures
            self.value() <= u32::MAX ==> r == Some(self.value() as u32),
            self.value() > u32::MAX ==> r is None,
    {
        if self.0 <= 0xffff_ffff {
            Some(self.0 as u32)
        } else {
            None
        }
    }
}

impl From<u64> for Inode {
    fn from(value: u64) -> (r: Inode) {
        Inode(value)
    }
}

impl FromSpecImpl<u64> for Inode {
    open spec fn obeys_from_spec() -> bool {
        true
    }

    open spec fn from_spec(value: u64) -> Inode {
        Inode(value)
    }
}

impl From<u32> for Inode {
    fn from(value: u32) -> (r: Inode) {
        Inode(value as u64)
    }
}

impl FromSpecImpl<u32> for Inode {
    open spec fn obeys_from_spec() -> bool {
        true
    }

    open spec fn from_spec(value: u32) -> Inode {
        Inode(value as u64)
    }
}

impl From<Inode> for u64 {
    fn from(value: Inode) -> (r: u64) {
        value.0
    }
}

impl FromSpecImpl<Inode> for u64 {
    open spec fn obeys_from_spec() -> bool {
        true
    }

    open spec fn from_spec(value: Inode) -> u64 {
        value.0
    }
}

} // verus!
