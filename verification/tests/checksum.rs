use drive_syncer::checksum::{compare_checksums, ChecksumMatch};
use drive_syncer::errno::ErrorKind;

fn s(t: &str) -> Option<String> {
    Some(t.to_string())
}

#[test]
fn all_equal_is_a_match() {
    assert_eq!(compare_checksums(&s("a"), &s("a"), &s("a")), ChecksumMatch::Match);
}

#[test]
fn local_differs_is_a_local_mismatch() {
    assert_eq!(compare_checksums(&s("a"), &s("b"), &s("a")), ChecksumMatch::LocalMismatch);
    assert_eq!(compare_checksums(&s("a"), &None, &s("a")), ChecksumMatch::LocalMismatch);
}

#[test]
fn cache_differs_is_a_cache_mismatch() {
    assert_eq!(compare_checksums(&s("a"), &s("a"), &s("b")), ChecksumMatch::CacheMismatch);
    assert_eq!(compare_checksums(&s("a"), &s("a"), &None), ChecksumMatch::CacheMismatch);
}

#[test]
fn remote_differs_is_a_remote_mismatch() {
    assert_eq!(compare_checksums(&s("b"), &s("a"), &s("a")), ChecksumMatch::RemoteMismatch);
    assert_eq!(compare_checksums(&s("b"), &None, &None), ChecksumMatch::RemoteMismatch);
}

#[test]
fn all_different_is_a_conflict() {
    assert_eq!(compare_checksums(&s("a"), &s("b"), &s("c")), ChecksumMatch::Conflict);
    assert_eq!(compare_checksums(&s("a"), &s("b"), &None), ChecksumMatch::Conflict);
}

#[test]
fn missing_remote_checksum_is_missing() {
    assert_eq!(compare_checksums(&None, &s("a"), &s("a")), ChecksumMatch::Missing);
    assert_eq!(compare_checksums(&None, &None, &None), ChecksumMatch::Missing);
    assert_eq!(compare_checksums(&None, &s("a"), &s("b")), ChecksumMatch::Missing);
}

#[test]
fn error_numbers() {
    assert_eq!(ErrorKind::NotFound.errno(), 2);
    assert_eq!(ErrorKind::NotADirectory.errno(), 20);
    assert_eq!(ErrorKind::Io.errno(), 5);
    assert_eq!(ErrorKind::NameInUse.errno(), 98);
    assert_eq!(ErrorKind::Unsupported.errno(), 38);
    assert_eq!(ErrorKind::RemoteIo.errno(), 121);
    assert_eq!(ErrorKind::InvalidArgument.errno(), 22);
}
