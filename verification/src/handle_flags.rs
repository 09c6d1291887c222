use vstd::prelude::*;
use vstd::std_specs::convert::FromSpecImpl;

verus! {

/// The bits of the POSIX open flag word that a handle records.
pub struct OpenFlagBits {
    pub append: i32,
    pub dsync: i32,
    pub nonblock: i32,
    pub rsync: i32,
    pub sync: i32,
    pub accmode: i32,
    pub rdonly: i32,
    pub rdwr: i32,
    pub wronly: i32,
}

/// Reads the constants `O_APPEND`, `O_DSYNC`, `O_NONBLOCK`, `O_RSYNC`,
/// `O_SYNC`, `O_ACCMODE`, `O_RDONLY`, `O_RDWR` and `O_WRONLY` of the `libc`
/// crate. The contract gives the numbers that `libc` defines for Linux with
/// glibc on x86, x86-64, ARM, AArch64, RISC-V, PowerPC and s390x; it was not
/// proved, and it does not hold where `libc` numbers them otherwise (MIPS,
/// SPARC, musl, other systems).
#[verifier::external_body]
fn open_flag_bits() -> (bits: OpenFlagBits)
    ensures
        bits.append == 0x400,
        bits.dsync == 0x1000,
        bits.nonblock == 0x800,
        bits.rsync == 0x101000,
        bits.sync == 0x101000,
        bits.accmode == 3,
        bits.rdonly == 0,
        bits.rdwr == 2,
        bits.wronly == 1,
{
    OpenFlagBits {
        append: libc::O_APPEND,
        dsync: libc::O_DSYNC,
        nonblock: libc::O_NONBLOCK,
        rsync: libc::O_RSYNC,
        sync: libc::O_SYNC,
        accmode: libc::O_ACCMODE,
        rdonly: libc::O_RDONLY,
        rdwr: libc::O_RDWR,
        wronly: libc::O_WRONLY,
    }
}

/// The open flags of a handle, decoded once when the file is opened.
#[derive(Debug, Copy, Clone, PartialEq, Eq, Structural)]
pub struct HandleFlags {
    /// Append mode.
    pub o_append: bool,
    /// Writes complete with synchronized data integrity.
    pub o_dsync: bool,
    /// Non-blocking mode.
    pub o_nonblock: bool,
    /// Synchronized reads.
    pub o_rsync: bool,
    /// Writes complete with synchronized file integrity.
    pub o_sync: bool,
    /// Open for reading only.
    pub o_rdonly: bool,
    /// Open for reading and writing.
    pub o_rdwr: bool,
    /// Open for writing only.
    pub o_wronly: bool,
}

/// `bit` where `set` holds, no bit otherwise.
pub open spec fn bit_if(set: bool, bit: i32) -> i32 {
    if set {
        bit
    } else {
        0
    }
}

impl HandleFlags {
    /// The flags that the open flag word `value` stands for: each status
    /// flag is set where its bits are, and the access mode is the word's
    /// lowest two bits.
    pub open spec fn decoded(value: i32) -> HandleFlags {
        HandleFlags {
            o_append: value & 0x400 != 0,
            o_dsync: value & 0x1000 != 0,
            o_nonblock: value & 0x800 != 0,
            o_rsync: value & 0x101000 != 0,
            o_sync: value & 0x101000 != 0,
            o_rdonly: value & 3 == 0,
            o_rdwr: value & 3 == 2,
            o_wronly: value & 3 == 1,
        }
    }

    /// The flags of which none is set.
    pub open spec fn none() -> HandleFlags {
        HandleFlags {
            o_append: false,
            o_dsync: false,
            o_nonblock: false,
            o_rsync: false,
            o_sync: false,
            o_rdonly: false,
            o_rdwr: false,
            o_wronly: false,
        }
    }

    /// The open flag word with the bits of every flag that is set.
    pub open spec fn encoded(self) -> i32 {
        bit_if(self.o_append, 0x400) | bit_if(self.o_dsync, 0x1000) | bit_if(
            self.o_nonblock,
            0x800,
        ) | bit_if(self.o_rsync, 0x101000) | bit_if(self.o_sync, 0x101000) | bit_if(
            self.o_rdonly,
            0,
        ) | bit_if(self.o_rdwr, 2) | bit_if(self.o_wronly, 1)
    }

    pub open spec fn writable(self) -> bool {
        self.o_wronly || self.o_rdwr
    }

    pub open spec fn readable(self) -> bool {
        self.o_rdonly || self.o_rdwr
    }

    /// Whether the handle may be written through.
    pub fn can_write(&self) -> (r: bool)
        ensures
            r == self.writable(),
    {
        self.o_wronly || self.o_rdwr
    }

    /// Whether the handle may be read through.
    pub fn can_read(&self) -> (r: bool)
        ensures
            r == self.readable(),
    {
        self.o_rdonly || self.o_rdwr
    }

    /// The open flag word of these flags.
    pub fn bits(&self) -> (r: i32)
        ensures
            r == self.encoded(),
    {
        let bits = open_flag_bits();
        let mut flags: i32 = 0;
        assert(forall|x: i32| #[trigger] (0i32 | x) == x) by (bit_vector);
        if self.o_append {
            flags = flags | bits.append;
        }
        assert(forall|x: i32| #[trigger] (x | 0i32) == x) by (bit_vector);
        if self.o_dsync {
            flags = flags | bits.dsync;
        }
        if self.o_nonblock {
            flags = flags | bits.nonblock;
        }
        if self.o_rsync {
            flags = flags | bits.rsync;
        }
        if self.o_sync {
            flags = flags | bits.sync;
        }
        if self.o_rdonly {
            flags = flags | bits.rdonly;
        }
        if self.o_rdwr {
            flags = flags | bits.rdwr;
        }
        if self.o_wronly {
            flags = flags | bits.wronly;
        }
        flags
    }
}

impl Default for HandleFlags {
    fn default() -> (r: HandleFlags)
        ensures
            r == HandleFlags::none(),
    {
        HandleFlags {
            o_append: false,
            o_dsync: false,
            o_nonblock: false,
            o_rsync: false,
            o_sync: false,
            o_rdonly: false,
            o_rdwr: false,
            o_wronly: false,
        }
    }
}

impl From<i32> for HandleFlags {
    fn from(value: i32) -> (r: HandleFlags) {
        let bits = open_flag_bits();
        HandleFlags {
            o_append: value & bits.append != 0,
            o_dsync: value & bits.dsync != 0,
            o_nonblock: value & bits.nonblock != 0,
            o_rsync: value & bits.rsync != 0,
            o_sync: value & bits.sync != 0,
            o_rdonly: value & bits.accmode == bits.rdonly,
            o_rdwr: value & bits.accmode == bits.rdwr,
            o_wronly: value & bits.accmode == bits.wronly,
        }
    }
}

impl FromSpecImpl<i32> for HandleFlags {
    open spec fn obeys_from_spec() -> bool {
        true
    }

    open spec fn from_spec(value: i32) -> HandleFlags {
        HandleFlags::decoded(value)
    }
}

impl From<HandleFlags> for i32 {
    fn from(flags: HandleFlags) -> (r: i32) {
        flags.bits()
    }
}

impl FromSpecImpl<HandleFlags> for i32 {
    open spec fn obeys_from_spec() -> bool {
        true
    }

    open spec fn from_spec(flags: HandleFlags) -> i32 {
        flags.encoded()
    }
}

} // verus!
