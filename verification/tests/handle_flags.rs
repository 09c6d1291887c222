use drive_syncer::handle_flags::HandleFlags;

#[test]
fn handle_flags_ro() {
    let flags = 0;
    let handle_flags = HandleFlags::from(flags);
    println!("flags: {:x} => {:?}", flags, handle_flags);
    assert!(handle_flags.can_read());
    assert!(!handle_flags.can_write());
    let flags = 32768;
    let handle_flags = HandleFlags::from(flags);
    println!("flags: {:x} => {:?}", flags, handle_flags);
    assert!(handle_flags.can_read());
    assert!(!handle_flags.can_write());
}

#[test]
fn handle_flags_wo() {
    let flags = 1;
    let handle_flags = HandleFlags::from(flags);
    println!("flags: {:x} => {:?}", flags, handle_flags);
    assert!(handle_flags.can_write());
    assert!(!handle_flags.can_read());
}

#[test]
fn handle_flags_rw() {
    let flags = 2;
    let handle_flags = HandleFlags::from(flags);
    println!("flags: {:x} => {:?}", flags, handle_flags);
    println!("test432");
    assert!(handle_flags.can_write());
    assert!(handle_flags.can_read());
}

#[test]
fn handle_flags_into_rw() {
    println!("test123");
    let mut x = HandleFlags::default();
    x.o_rdwr = true;
    assert!(x.can_write());
    assert!(x.can_read());
    let flags: i32 = x.into();
    assert_eq!(2, flags);
}

#[test]
fn handle_flags_status_bits() {
    let f = HandleFlags::from(0x400 | 0x800 | 1);
    assert!(f.o_append);
    assert!(f.o_nonblock);
    assert!(!f.o_dsync);
    assert!(!f.o_sync);
    assert!(f.o_wronly);
    assert!(!f.o_rdonly);
    assert!(!f.o_rdwr);
    let g = HandleFlags::from(0x101000);
    assert!(g.o_sync && g.o_rsync && g.o_dsync);
    assert!(g.o_rdonly);
}

#[test]
fn handle_flags_access_mode_three_is_no_mode() {
    let f = HandleFlags::from(3);
    assert!(!f.can_read());
    assert!(!f.can_write());
}

#[test]
fn handle_flags_encode_all() {
    let mut x = HandleFlags::default();
    x.o_append = true;
    x.o_nonblock = true;
    x.o_wronly = true;
    let word: i32 = x.into();
    assert_eq!(word, 0x400 | 0x800 | 1);
    assert_eq!(HandleFlags::from(word), x);
    let mut y = HandleFlags::default();
    y.o_dsync = true;
    assert_eq!(y.bits(), 0x1000);
    y.o_sync = true;
    assert_eq!(y.bits(), 0x101000);
}

#[test]
fn handle_flags_default_is_empty() {
    let x = HandleFlags::default();
    assert_eq!(x.bits(), 0);
    assert!(!x.can_read() && !x.can_write());
}
