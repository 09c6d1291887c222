use vstd::prelude::*;

verus! {

/// Why a request was refused.
#[derive(Debug, Clone, Copy, PartialEq, Eq, Structural)]
pub enum ErrorKind {
    /// An inode, an id or a name refers to nothing known.
    NotFound,
    /// A directory was asked for and the entry is a regular file.
    NotADirectory,
    /// A transport, local file or background task failure, or a handle that
    /// does not permit the operation.
    Io,
    /// The target name of a rename is taken.
    NameInUse,
    /// The operation is not offered.
    Unsupported,
    /// The remote refused or failed a metadata update.
    RemoteIo,
    /// An argument could not be converted.
    InvalidArgument,
}

/// The error numbers that the kernel is answered with.
pub struct ErrnoCodes {
    pub enoent: i32,
    pub enotdir: i32,
    pub eio: i32,
    pub eaddrinuse: i32,
    pub enosys: i32,
    pub eremoteio: i32,
    pub einval: i32,
}

/// Reads the constants `ENOENT`, `ENOTDIR`, `EIO`, `EADDRINUSE`, `ENOSYS`,
/// `EREMOTEIO` and `EINVAL` of the `libc` crate. The contract gives the
/// numbers that `libc` defines for Linux on x86, x86-64, ARM, AArch64,
/// RISC-V, PowerPC and s390x; it was not proved, and it does not hold where
/// `libc` numbers them otherwise (MIPS, SPARC, other systems).
#[verifier::external_body]
fn errno_codes() -> (codes: ErrnoCodes)
    ensures
        codes.enoent == 2,
        codes.enotdir == 20,
        codes.eio == 5,
        codes.eaddrinuse == 98,
        codes.enosys == 38,
        codes.eremoteio == 121,
        codes.einval == 22,
{
    ErrnoCodes {
        enoent: libc::ENOENT,
        enotdir: libc::ENOTDIR,
        eio: libc::EIO,
        eaddrinuse: libc::EADDRINUSE,
        enosys: libc::ENOSYS,
        eremoteio: libc::EREMOTEIO,
        einval: libc::EINVAL,
    }
}

impl ErrorKind {
    /// The error number that stands for this kind.
    pub open spec fn code(self) -> i32 {
        match self {
            ErrorKind::NotFound => 2,
            ErrorKind::NotADirectory => 20,
            ErrorKind::Io => 5,
            ErrorKind::NameInUse => 98,
            ErrorKind::Unsupported => 38,
            ErrorKind::RemoteIo => 121,
            ErrorKind::InvalidArgument => 22,
        }
    }

    /// The error number to answer the kernel with.
    pub fn errno(&self) -> (r: i32)
        ensures
            r == self.code(),
    {
        let codes = errno_codes();
        match self {
            ErrorKind::NotFound => codes.enoent,
            ErrorKind::NotADirectory => codes.enotdir,
            ErrorKind::Io => codes.eio,
            ErrorKind::NameInUse => codes.eaddrinuse,
            ErrorKind::Unsupported => codes.enosys,
            ErrorKind::RemoteIo => codes.eremoteio,
            ErrorKind::InvalidArgument => codes.einval,
        }
    }
}

} // verus!
