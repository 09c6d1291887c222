use drive_syncer::attr::Timestamp;
use drive_syncer::inode::Inode;
use drive_syncer::settings::SyncSettings;
use std::time::Duration;

#[test]
fn settings_hold_their_durations() {
    let s = SyncSettings::new(Duration::from_secs(2), Duration::from_millis(5500));
    assert_eq!(s.time_to_live(), Duration::from_secs(2));
    assert_eq!(s.cache_time(), Duration::from_millis(5500));
    assert_eq!(s.clone(), s);
}

#[test]
fn inodes_hold_their_number() {
    assert_eq!(Inode::new(7).get(), 7);
    assert_eq!(Inode::new(u64::MAX).get(), u64::MAX);
    assert_eq!(Inode::new(7), Inode::new(7));
    assert_ne!(Inode::new(7), Inode::new(8));
}

#[test]
fn elapsed_time_counts_nanoseconds() {
    let start = Timestamp { secs: 10, nanos: 500 };
    assert!(start.has_elapsed(0, &start));
    assert!(start.has_elapsed(1, &Timestamp { secs: 11, nanos: 500 }));
    assert!(!start.has_elapsed(1, &Timestamp { secs: 11, nanos: 499 }));
    assert!(!start.has_elapsed(u64::MAX, &Timestamp { secs: u64::MAX, nanos: 0 }));
    assert!(!start.has_elapsed(0, &Timestamp { secs: 9, nanos: 999 }));
    assert_eq!(Timestamp::epoch(), Timestamp { secs: 0, nanos: 0 });
}

#[test]
fn inode_conversions() {
    assert_eq!(Inode::from(7u64), Inode::new(7));
    assert_eq!(Inode::from(7u32), Inode::new(7));
    let n: u64 = Inode::new(9).into();
    assert_eq!(n, 9);
    assert_eq!(Inode::new(9).try_into_u32(), Some(9));
    assert_eq!(Inode::new(u32::MAX as u64).try_into_u32(), Some(u32::MAX));
    assert_eq!(Inode::new(u32::MAX as u64 + 1).try_into_u32(), None);
}
