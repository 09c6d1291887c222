use crate::text::{opt_string_equals, opt_text};
use md5::Digest;
use vstd::prelude::*;

verus! {

/// How the checksum that the remote reports relates to the checksum of the
/// local file and to the checksum that the cache was last known to match.
#[derive(Debug, Clone, Copy, PartialEq, Eq, Structural)]
pub enum ChecksumMatch {
    /// All three agree.
    Match,
    /// The remote reports no checksum.
    Missing,
    /// Remote and local agree, the cached one differs: a change has just
    /// been uploaded.
    CacheMismatch,
    /// Remote and cached agree, the local one differs: the local file was
    /// edited.
    LocalMismatch,
    /// Local and cached agree, the remote one differs: the remote file was
    /// changed.
    RemoteMismatch,
    /// All three differ: the file was changed on both sides.
    Conflict,
}

/// The class of a triple of checksums.
pub open spec fn classify(
    remote: Option<Seq<char>>,
    local: Option<Seq<char>>,
    cache: Option<Seq<char>>,
) -> ChecksumMatch {
    if remote is None {
        ChecksumMatch::Missing
    } else if remote == local && remote == cache {
        ChecksumMatch::Match
    } else if remote == cache {
        ChecksumMatch::LocalMismatch
    } else if remote == local {
        ChecksumMatch::CacheMismatch
    } else if local == cache {
        ChecksumMatch::RemoteMismatch
    } else {
        ChecksumMatch::Conflict
    }
}

/// Compares the checksum reported by the remote with the local and the
/// cached one.
pub fn compare_checksums(
    remote: &Option<String>,
    local: &Option<String>,
    cache: &Option<String>,
) -> (r: ChecksumMatch)
    ensures
        r == classify(opt_text(*remote), opt_text(*local), opt_text(*cache)),
{
    if remote.is_none() {
        return ChecksumMatch::Missing;
    }
    let remote_is_local = opt_string_equals(remote, local);
    let remote_is_cache = opt_string_equals(remote, cache);
    if remote_is_local && remote_is_cache {
        ChecksumMatch::Match
    } else if remote_is_cache {
        ChecksumMatch::LocalMismatch
    } else if remote_is_local {
        ChecksumMatch::CacheMismatch
    } else if opt_string_equals(local, cache) {
        ChecksumMatch::RemoteMismatch
    } else {
        ChecksumMatch::Conflict
    }
}

/// The MD5 digest of a byte sequence, written as 32 lower-case hexadecimal
/// digits.
pub uninterp spec fn md5_hex(bytes: Seq<u8>) -> Seq<char>;

/// The checksum of the content of a cache file, in the form in which the
/// remote reports checksums. Calls `Md5::digest` of the `md-5` crate on the
/// bytes and formats the digest in lower-case hexadecimal. The contract only
/// gives the result a name; it was not proved.
#[verifier::external_body]
pub(crate) fn compute_md5_checksum(content: &[u8]) -> (r: String)
    ensures
        r@ == md5_hex(content@),
{
    format!("{:x}", md5::Md5::digest(content))
}

} // verus!
