use drive_syncer::attr::{EntryKind, Timestamp};
use drive_syncer::change::{Change, ChangeType};
use drive_syncer::checksum::ChecksumMatch;
use drive_syncer::common::LocalPath;
use drive_syncer::drive_id::DriveId;
use drive_syncer::errno::ErrorKind;
use drive_syncer::handle_flags::HandleFlags;
use drive_syncer::metadata::RemoteMetadata;
use drive_syncer::provider::changes::ChangeOutcome;
use drive_syncer::provider::files::{read_reply, OpenMode, ResizeTarget};
use drive_syncer::provider::{check_file_name, DriveFileProvider, ProviderCommand};
use drive_syncer::request::{
    ProviderLookupRequest, ProviderMetadataRequest, ProviderOpenFileRequest,
    ProviderReadContentRequest, ProviderReadDirRequest, ProviderReleaseFileRequest,
    ProviderRenameRequest, ProviderRequestStruct, ProviderSetAttrRequest,
    ProviderWriteContentRequest,
};
use drive_syncer::settings::SyncSettings;
use std::time::Duration;

const FOLDER: &str = "application/vnd.google-apps.folder";

fn id(s: &str) -> DriveId {
    DriveId::new(s)
}

fn ids(list: &[&str]) -> Vec<DriveId> {
    list.iter().map(|s| DriveId::new(s)).collect()
}

fn ts(secs: u64) -> Timestamp {
    Timestamp { secs, nanos: 0 }
}

fn record(i: &str, name: &str, mime: &str, parents: Option<&[&str]>) -> RemoteMetadata {
    let mut m = RemoteMetadata::empty();
    m.id = Some(id(i));
    m.name = Some(name.to_string());
    m.mime_type = Some(mime.to_string());
    m.parents = parents.map(ids);
    m
}

fn file(i: &str, name: &str, parents: Option<&[&str]>, size: i64, md5: &str) -> RemoteMetadata {
    let mut m = record(i, name, "text/plain", parents);
    m.size = Some(size);
    m.md5_checksum = Some(md5.to_string());
    m
}

fn root_record() -> RemoteMetadata {
    record("ROOT_ID_1", "R", FOLDER, None)
}

fn new_provider() -> DriveFileProvider {
    DriveFileProvider::new(LocalPath::new("/cache"), LocalPath::new("/perma"), Some("t0".to_string()))
}

/// A root with the file `hello.txt`, the folders `A` and `B`, and the file
/// `f` in `A`.
fn seeded() -> DriveFileProvider {
    let mut p = new_provider();
    let files = vec![
        file("F1", "hello.txt", Some(&["ROOT_ID_1"]), 12, "a1"),
        record("AID", "A", FOLDER, None),
        record("BID", "B", FOLDER, Some(&["root"])),
        file("FID", "f", Some(&["AID"]), 3, "ff"),
    ];
    assert_eq!(p.initialize_entries(root_record(), &files, ts(50)), Ok(()));
    p
}

fn lookup(p: &DriveFileProvider, parent: &str, name: &str) -> Option<DriveId> {
    p.lookup(&ProviderLookupRequest::new(id(parent), name.to_string())).map(|m| m.id)
}

fn open(p: &mut DriveFileProvider, file_id: &str, flags: i32) -> u64 {
    let request = ProviderOpenFileRequest::new(id(file_id), flags);
    let plan = p.open_file(&request).unwrap();
    let downloaded = if plan.download { Some(true) } else { None };
    let (fh, _) = p.finish_open(&request, downloaded).unwrap();
    fh
}

fn check_invariants(p: &DriveFileProvider, known: &[&str]) {
    assert!(p.entry(&DriveId::root()).is_none());
    assert!(p.children(&DriveId::root()).is_empty());
    assert!(p.parents(&DriveId::root()).is_empty());
    for a in known {
        assert!(!p.children(&id(a)).contains(&DriveId::root()));
        assert!(!p.parents(&id(a)).contains(&DriveId::root()));
        if let Some(e) = p.entry(&id(a)) {
            assert_eq!(e.id, id(a));
        }
        for b in known {
            let down = p.children(&id(a)).iter().filter(|x| **x == id(b)).count();
            let up = p.parents(&id(b)).iter().filter(|x| **x == id(a)).count();
            assert_eq!(down, up, "relation {} -> {}", a, b);
        }
    }
}

const ALL: [&str; 6] = ["ROOT_ID_1", "F1", "AID", "BID", "FID", "root"];

#[test]
fn new_provider_is_empty() {
    let p = new_provider();
    assert!(p.entry(&id("F1")).is_none());
    assert!(!p.check_id_exists(&id("ROOT_ID_1")));
    assert_eq!(p.get_correct_id(DriveId::root()), DriveId::root());
    assert_eq!(p.changes_start_token(), Some("t0".to_string()));
    assert!(p.file_handle(111).is_none());
    assert!(p.changes_due(&ts(10)));
    assert!(!p.changes_due(&ts(9)));
}

#[test]
fn startup_installs_entries_and_relations() {
    let p = seeded();
    assert_eq!(p.get_correct_id(DriveId::root()), id("ROOT_ID_1"));
    assert_eq!(p.get_correct_id(id("F1")), id("F1"));
    assert!(p.check_id_exists(&id("ROOT_ID_1")));
    assert_eq!(p.children(&id("ROOT_ID_1")), ids(&["F1", "AID", "BID"]));
    assert_eq!(p.children(&id("AID")), ids(&["FID"]));
    assert_eq!(p.parents(&id("FID")), ids(&["AID"]));
    assert_eq!(p.parents(&id("BID")), ids(&["ROOT_ID_1"]));
    assert!(p.parents(&id("ROOT_ID_1")).is_empty());
    let e = p.entry(&id("F1")).unwrap();
    assert_eq!(e.name, "hello.txt");
    assert_eq!(e.attr.size, 12);
    assert_eq!(e.attr.kind, EntryKind::RegularFile);
    assert_eq!(e.attr.perm, 0o644);
    assert_eq!(e.attr.ctime, ts(50));
    assert_eq!(e.upstream_md5.as_deref(), Some("a1"));
    assert!(e.local_md5.is_none());
    assert!(e.has_upstream_content_changes);
    assert!(!e.is_local && !e.perma && !e.conflict);
    assert!(e.pending_metadata.name.is_none());
    assert_eq!(e.original_metadata.name.as_deref(), Some("hello.txt"));
    assert_eq!(p.entry(&id("AID")).unwrap().attr.kind, EntryKind::Directory);
    assert_eq!(p.entry(&id("AID")).unwrap().attr.perm, 0o755);
    check_invariants(&p, &ALL);
}

#[test]
fn startup_fails_on_a_bad_root() {
    let mut p = new_provider();
    let mut no_id = root_record();
    no_id.id = None;
    assert_eq!(p.initialize_entries(no_id, &vec![], ts(0)), Err(ErrorKind::NotFound));
    assert_eq!(
        p.initialize_entries(record("root", "R", FOLDER, None), &vec![], ts(0)),
        Err(ErrorKind::InvalidArgument)
    );
    assert_eq!(
        p.initialize_entries(
            record("X", "R", "application/vnd.google-apps.document", None),
            &vec![],
            ts(0)
        ),
        Err(ErrorKind::Unsupported)
    );
    assert!(!p.check_id_exists(&id("X")));
    assert_eq!(p.get_correct_id(DriveId::root()), DriveId::root());
}

#[test]
fn startup_skips_what_it_cannot_take() {
    let mut p = new_provider();
    let mut no_id = file("", "x", None, 1, "m");
    no_id.id = None;
    let files = vec![
        record("DOC", "doc", "application/vnd.google-apps.document", None),
        no_id,
        file("root", "alias", None, 1, "m"),
        file("K", "first", None, 1, "m"),
        file("K", "second", None, 2, "m"),
        file("ROOT_ID_1", "again", None, 1, "m"),
    ];
    assert_eq!(p.initialize_entries(root_record(), &files, ts(0)), Ok(()));
    assert!(p.entry(&id("DOC")).is_none());
    assert_eq!(p.entry(&id("K")).unwrap().name, "first");
    assert_eq!(p.entry(&id("ROOT_ID_1")).unwrap().name, "R");
    assert_eq!(p.children(&id("ROOT_ID_1")), ids(&["K"]));
    check_invariants(&p, &["ROOT_ID_1", "K", "DOC", "root"]);
}

#[test]
fn records_are_passed_over_before_startup() {
    let mut p = new_provider();
    assert!(!p.add_drive_entry_to_entries(file("K", "k", None, 1, "m"), ts(0)));
    assert!(p.entry(&id("K")).is_none());
    assert_eq!(p.add_root_entry(root_record(), ts(0)), Ok(()));
    assert!(p.add_drive_entry_to_entries(file("K", "k", None, 1, "m"), ts(0)));
    assert!(!p.add_drive_entry_to_entries(file("K", "k", None, 1, "m"), ts(0)));
    assert_eq!(p.children(&id("ROOT_ID_1")), ids(&["K"]));
}

#[test]
fn entries_without_a_name_get_a_placeholder() {
    let mut p = new_provider();
    let mut m = file("K", "", None, 1, "m");
    m.name = None;
    assert_eq!(p.initialize_entries(root_record(), &vec![m], ts(0)), Ok(()));
    assert_eq!(p.entry(&id("K")).unwrap().name, "NO_NAME");
}

#[test]
fn lookup_finds_children_by_name() {
    let p = seeded();
    assert_eq!(lookup(&p, "root", "hello.txt"), Some(id("F1")));
    assert_eq!(lookup(&p, "ROOT_ID_1", "hello.txt"), Some(id("F1")));
    assert_eq!(lookup(&p, "root", "A"), Some(id("AID")));
    assert_eq!(lookup(&p, "AID", "f"), Some(id("FID")));
    assert_eq!(lookup(&p, "root", "f"), None);
    assert_eq!(lookup(&p, "BID", "f"), None);
    assert_eq!(lookup(&p, "nowhere", "f"), None);
    let m = p.lookup(&ProviderLookupRequest::new(id("root"), "hello.txt".to_string())).unwrap();
    assert_eq!(m.name, "hello.txt");
    assert_eq!(m.attr.size, 12);
}

#[test]
fn lookup_ignores_ascii_case() {
    let p = seeded();
    assert_eq!(lookup(&p, "root", "HELLO.TXT"), lookup(&p, "root", "hello.txt"));
    assert_eq!(lookup(&p, "root", "HeLLo.TxT"), Some(id("F1")));
    assert_eq!(lookup(&p, "root", "a"), Some(id("AID")));
    assert_eq!(lookup(&p, "root", "hello_txt"), None);
    assert_eq!(lookup(&p, "root", "hello.txt "), None);
}

#[test]
fn lookup_takes_the_first_of_two_names_that_differ_in_case() {
    let mut p = new_provider();
    let files = vec![file("X1", "Abc", None, 1, "m"), file("X2", "ABC", None, 1, "m")];
    assert_eq!(p.initialize_entries(root_record(), &files, ts(0)), Ok(()));
    assert_eq!(lookup(&p, "root", "ABC"), Some(id("X1")));
    assert_eq!(lookup(&p, "root", "abc"), Some(id("X1")));
    assert!(p.does_target_name_exist_under_parent(&id("ROOT_ID_1"), "aBC"));
    assert!(!p.does_target_name_exist_under_parent(&id("ROOT_ID_1"), "abcd"));
    assert_eq!(p.find_first_child_by_name("abc", &id("ROOT_ID_1")).unwrap().id, id("X1"));
}

#[test]
fn lookup_does_not_fold_other_characters() {
    let mut p = new_provider();
    let files = vec![file("X1", "straße", None, 1, "m"), file("X2", "@[`{", None, 1, "m")];
    assert_eq!(p.initialize_entries(root_record(), &files, ts(0)), Ok(()));
    assert_eq!(lookup(&p, "root", "STRAßE"), Some(id("X1")));
    assert_eq!(lookup(&p, "root", "STRASSE"), None);
    assert_eq!(lookup(&p, "root", "@[`{"), Some(id("X2")));
    assert_eq!(lookup(&p, "root", "`{@["), None);
    assert_eq!(lookup(&p, "root", "@{`["), None);
}

#[test]
fn metadata_of_known_and_unknown_entries() {
    let p = seeded();
    let m = p.metadata(&ProviderMetadataRequest::new(id("F1"))).unwrap();
    assert_eq!(m.id, id("F1"));
    assert_eq!(m.name, "hello.txt");
    assert_eq!(m.attr.size, 12);
    let r = p.metadata(&ProviderMetadataRequest::new(id("root"))).unwrap();
    assert_eq!(r.id, id("ROOT_ID_1"));
    assert_eq!(
        p.metadata(&ProviderMetadataRequest::new(id("nope"))).unwrap_err(),
        ErrorKind::NotFound
    );
}

fn names(p: &DriveFileProvider, dir: &str, offset: u64) -> Result<Vec<String>, ErrorKind> {
    p.read_dir(&ProviderReadDirRequest::new(id(dir), offset))
        .map(|list| list.into_iter().map(|m| m.name).collect())
}

#[test]
fn read_dir_lists_children_in_insertion_order() {
    let p = seeded();
    assert_eq!(names(&p, "root", 0).unwrap(), vec!["hello.txt", "A", "B"]);
    assert_eq!(names(&p, "root", 1).unwrap(), vec!["A", "B"]);
    assert_eq!(names(&p, "root", 2).unwrap(), vec!["B"]);
    assert_eq!(names(&p, "AID", 0).unwrap(), vec!["f"]);
    assert_eq!(names(&p, "BID", 0).unwrap(), Vec::<String>::new());
}

#[test]
fn read_dir_past_the_end_is_empty() {
    let p = seeded();
    assert_eq!(names(&p, "root", 3).unwrap(), Vec::<String>::new());
    assert_eq!(names(&p, "root", 4).unwrap(), Vec::<String>::new());
    assert_eq!(names(&p, "root", u64::MAX).unwrap(), Vec::<String>::new());
}

#[test]
fn read_dir_errors() {
    let p = seeded();
    assert_eq!(names(&p, "F1", 0), Err(ErrorKind::NotADirectory));
    assert_eq!(names(&p, "nope", 0), Err(ErrorKind::NotFound));
}

#[test]
fn set_attr_without_size_needs_no_resize() {
    let mut p = seeded();
    let request =
        ProviderSetAttrRequest::new(id("F1"), Some(0o100600), Some(7), Some(8), None, Some(9), None);
    let plan = p.set_attr_plan(&request).unwrap();
    assert!(!plan.wait_first);
    assert!(plan.resize.is_none());
    let m = p.set_attr(&request, false).unwrap();
    assert_eq!(m.attr.perm, 0o100600u32 as u16);
    assert_eq!(m.attr.uid, 7);
    assert_eq!(m.attr.gid, 8);
    assert_eq!(m.attr.flags, 9);
    assert_eq!(m.attr.size, 12);
    assert_eq!(p.entry(&id("F1")).unwrap().attr.perm, 0o100600u32 as u16);
}

#[test]
fn set_attr_size_is_reported_by_metadata() {
    let mut p = seeded();
    let request = ProviderSetAttrRequest::new(id("F1"), None, None, None, Some(5), None, None);
    let plan = p.set_attr_plan(&request).unwrap();
    match plan.resize {
        Some(ResizeTarget::Path(path)) => assert_eq!(path.as_str(), "/cache/F1"),
        other => panic!("unexpected target {:?}", other),
    }
    let m = p.set_attr(&request, true).unwrap();
    assert_eq!(m.attr.size, 5);
    assert_eq!(p.metadata(&ProviderMetadataRequest::new(id("F1"))).unwrap().attr.size, 5);
    // a read past the new size asks the file for nothing
    let fh = open(&mut p, "F1", 0);
    let plan = p.read_content(&ProviderReadContentRequest::new(id("F1"), 5, 10, fh)).unwrap();
    assert!(plan.io.is_none());
    let plan = p.read_content(&ProviderReadContentRequest::new(id("F1"), 3, 10, fh)).unwrap();
    assert_eq!(plan.io.unwrap().len, 2);
}

#[test]
fn set_attr_failures_leave_the_entry() {
    let mut p = seeded();
    let request = ProviderSetAttrRequest::new(id("F1"), Some(0o600), None, None, Some(5), None, None);
    assert_eq!(p.set_attr(&request, false).unwrap_err(), ErrorKind::Io);
    assert_eq!(p.entry(&id("F1")).unwrap().attr.size, 12);
    assert_eq!(p.entry(&id("F1")).unwrap().attr.perm, 0o644);
    let unknown = ProviderSetAttrRequest::new(id("nope"), None, None, None, Some(5), None, None);
    assert_eq!(p.set_attr_plan(&unknown).unwrap_err(), ErrorKind::NotFound);
    assert_eq!(p.set_attr(&unknown, true).unwrap_err(), ErrorKind::NotFound);
}

#[test]
fn set_attr_resizes_through_an_open_handle() {
    let mut p = seeded();
    let fh = open(&mut p, "F1", 2);
    let request = ProviderSetAttrRequest::new(id("F1"), None, None, None, Some(0), None, Some(fh));
    // the handle has not opened its file yet: resize by path
    match p.set_attr_plan(&request).unwrap().resize {
        Some(ResizeTarget::Path(path)) => assert_eq!(path.as_str(), "/cache/F1"),
        other => panic!("unexpected target {:?}", other),
    }
    p.mark_file_opened(fh);
    match p.set_attr_plan(&request).unwrap().resize {
        Some(ResizeTarget::OpenHandle(h)) => assert_eq!(h, fh),
        other => panic!("unexpected target {:?}", other),
    }
    let missing = ProviderSetAttrRequest::new(id("F1"), None, None, None, Some(0), None, Some(9999));
    assert!(matches!(p.set_attr_plan(&missing).unwrap().resize, Some(ResizeTarget::Path(_))));
}

#[test]
fn cache_paths() {
    let p = seeded();
    assert_eq!(p.construct_path(&id("F1")).unwrap().as_str(), "/cache/F1");
    assert_eq!(p.construct_path(&id("nope")).unwrap_err(), ErrorKind::NotFound);
}

#[test]
fn ids_that_cannot_name_a_file_have_no_cache_path() {
    let mut p = new_provider();
    let files = vec![
        file("a/b", "x", None, 1, "m"),
        file("..", "y", None, 1, "m"),
        file(".", "z", None, 1, "m"),
        file("...", "w", None, 1, "m"),
    ];
    assert_eq!(p.initialize_entries(root_record(), &files, ts(0)), Ok(()));
    assert_eq!(p.construct_path(&id("a/b")).unwrap_err(), ErrorKind::InvalidArgument);
    assert_eq!(p.construct_path(&id("..")).unwrap_err(), ErrorKind::InvalidArgument);
    assert_eq!(p.construct_path(&id(".")).unwrap_err(), ErrorKind::InvalidArgument);
    assert_eq!(p.construct_path(&id("...")).unwrap().as_str(), "/cache/...");
    let request = ProviderOpenFileRequest::new(id("a/b"), 0);
    assert_eq!(p.open_file(&request).unwrap_err(), ErrorKind::InvalidArgument);
    assert_eq!(p.finish_open(&request, None).unwrap_err(), ErrorKind::InvalidArgument);
}

#[test]
fn file_names() {
    assert!(check_file_name("F1"));
    assert!(check_file_name("..."));
    assert!(check_file_name(".a"));
    assert!(check_file_name("a."));
    assert!(check_file_name("a..b"));
    assert!(check_file_name("ü"));
    assert!(!check_file_name(""));
    assert!(!check_file_name("."));
    assert!(!check_file_name(".."));
    assert!(!check_file_name("a/b"));
    assert!(!check_file_name("/"));
    assert!(!check_file_name("a\0"));
}

#[test]
fn fresh_open_read() {
    let mut p = seeded();
    let request = ProviderOpenFileRequest::new(id("F1"), 0);
    let plan = p.open_file(&request).unwrap();
    assert!(plan.download);
    assert!(!plan.wait_first);
    assert_eq!(plan.path.as_str(), "/cache/F1");
    assert!(p.entry(&id("F1")).unwrap().is_local);
    let (fh, flags) = p.finish_open(&request, Some(true)).unwrap();
    assert_eq!(fh, 111);
    assert!(flags.can_read() && !flags.can_write());
    let e = p.entry(&id("F1")).unwrap();
    assert!(e.is_local && !e.has_upstream_content_changes);
    assert_eq!(e.local_md5.as_deref(), Some("a1"));
    let handle = p.file_handle(fh).unwrap();
    assert_eq!(handle.id, id("F1"));
    assert_eq!(handle.path.as_str(), "/cache/F1");
    assert!(handle.marked_for_open && !handle.has_content_changed && !handle.creating);

    let read = ProviderReadContentRequest::new(id("F1"), 0, 4096, fh);
    let plan = p.read_content(&read).unwrap();
    let io = plan.io.unwrap();
    assert_eq!(io.path.as_str(), "/cache/F1");
    assert_eq!(io.open, Some(OpenMode { read: true, write: false }));
    assert_eq!(io.offset, 0);
    assert_eq!(io.len, 12);
    p.mark_file_opened(fh);
    let content = b"hello world\n".to_vec();
    assert_eq!(read_reply(Some(content.clone()), io.len), Ok(content));
    // once the file is open it is not opened again
    let plan = p.read_content(&read).unwrap();
    assert_eq!(plan.io.unwrap().open, None);
}

#[test]
fn a_second_open_does_not_download_again() {
    let mut p = seeded();
    let first = ProviderOpenFileRequest::new(id("F1"), 0);
    let plan = p.open_file(&first).unwrap();
    assert!(plan.download);
    let (fh1, _) = p.finish_open(&first, Some(true)).unwrap();
    let second = ProviderOpenFileRequest::new(id("F1"), 0);
    let plan = p.open_file(&second).unwrap();
    assert!(!plan.download);
    let (fh2, _) = p.finish_open(&second, None).unwrap();
    assert_eq!(fh1, 111);
    assert_eq!(fh2, 112);
    assert!(p.file_handle(fh1).is_some() && p.file_handle(fh2).is_some());
}

#[test]
fn a_failed_download_fails_the_open() {
    let mut p = seeded();
    let request = ProviderOpenFileRequest::new(id("F1"), 0);
    assert!(p.open_file(&request).unwrap().download);
    assert_eq!(p.finish_open(&request, Some(false)).unwrap_err(), ErrorKind::Io);
    assert!(!p.entry(&id("F1")).unwrap().is_local);
    assert!(p.file_handle(111).is_none());
    assert!(p.open_file(&request).unwrap().download);
}

#[test]
fn open_of_an_unknown_entry() {
    let mut p = seeded();
    let request = ProviderOpenFileRequest::new(id("nope"), 0);
    assert_eq!(p.open_file(&request).unwrap_err(), ErrorKind::NotFound);
    assert_eq!(p.finish_open(&request, None).unwrap_err(), ErrorKind::NotFound);
}

#[test]
fn read_reply_hands_on_what_was_read() {
    assert_eq!(read_reply(None, 4), Err(ErrorKind::Io));
    assert_eq!(read_reply(Some(vec![1, 2, 3]), 4), Ok(vec![1, 2, 3]));
    assert_eq!(read_reply(Some(vec![1, 2, 3, 4]), 4), Ok(vec![1, 2, 3, 4]));
    assert_eq!(read_reply(Some(vec![1, 2, 3, 4, 5]), 4), Ok(vec![1, 2, 3, 4]));
    assert_eq!(read_reply(Some(vec![]), 0), Ok(vec![]));
}

#[test]
fn read_at_or_past_the_end_needs_no_access() {
    let mut p = seeded();
    let fh = open(&mut p, "F1", 0);
    for offset in [12u64, 13, 1 << 40, u64::MAX] {
        let plan = p.read_content(&ProviderReadContentRequest::new(id("F1"), offset, 10, fh));
        assert!(plan.unwrap().io.is_none(), "offset {}", offset);
    }
    let plan = p.read_content(&ProviderReadContentRequest::new(id("F1"), 11, 10, fh)).unwrap();
    assert_eq!(plan.io.unwrap().len, 1);
    let plan = p.read_content(&ProviderReadContentRequest::new(id("F1"), 2, 3, fh)).unwrap();
    let io = plan.io.unwrap();
    assert_eq!((io.offset, io.len), (2, 3));
    let plan = p.read_content(&ProviderReadContentRequest::new(id("F1"), 0, 0, fh)).unwrap();
    assert!(plan.io.is_none());
}

#[test]
fn reads_and_writes_need_a_fitting_handle() {
    let mut p = seeded();
    let ro = open(&mut p, "F1", 0);
    let wo = open(&mut p, "F1", 1);
    let rw = open(&mut p, "F1", 2);
    let other = open(&mut p, "FID", 2);
    let read = |p: &mut DriveFileProvider, fh| {
        p.read_content(&ProviderReadContentRequest::new(id("F1"), 0, 1, fh)).map(|_| ())
    };
    let write = |p: &mut DriveFileProvider, fh| {
        p.write_content(&ProviderWriteContentRequest::new(id("F1"), 0, fh, vec![1])).map(|_| ())
    };
    assert_eq!(read(&mut p, ro), Ok(()));
    assert_eq!(read(&mut p, wo), Err(ErrorKind::Io));
    assert_eq!(read(&mut p, rw), Ok(()));
    assert_eq!(read(&mut p, other), Err(ErrorKind::Io));
    assert_eq!(read(&mut p, 9999), Err(ErrorKind::Io));
    assert_eq!(write(&mut p, ro), Err(ErrorKind::Io));
    assert_eq!(write(&mut p, wo), Ok(()));
    assert_eq!(write(&mut p, rw), Ok(()));
    assert_eq!(write(&mut p, other), Err(ErrorKind::Io));
    assert_eq!(write(&mut p, 9999), Err(ErrorKind::Io));
}

#[test]
fn write_then_close_triggers_upload() {
    let mut p = seeded();
    let fh = open(&mut p, "F1", 1);
    // truncate
    let truncate = ProviderSetAttrRequest::new(id("F1"), None, None, None, Some(0), None, Some(fh));
    assert!(p.set_attr_plan(&truncate).unwrap().resize.is_some());
    assert_eq!(p.set_attr(&truncate, true).unwrap().attr.size, 0);
    // write one byte
    let write = ProviderWriteContentRequest::new(id("F1"), 0, fh, b"X".to_vec());
    let plan = p.write_content(&write).unwrap();
    let io = plan.io.unwrap();
    assert_eq!(io.path.as_str(), "/cache/F1");
    assert_eq!(io.open, Some(OpenMode { read: false, write: true }));
    assert_eq!((io.offset, io.len), (0, 1));
    p.mark_file_opened(fh);
    assert_eq!(p.complete_write(&write, Some(1), b"X", ts(77)), Ok(1));
    let e = p.entry(&id("F1")).unwrap();
    assert_eq!(e.attr.size, 1);
    assert_eq!(e.attr.mtime, ts(77));
    assert_eq!(e.attr.atime, ts(77));
    assert_eq!(e.local_md5.as_deref(), Some("02129bb861061d1a052c592e2dc6b383"));
    assert!(p.file_handle(fh).unwrap().has_content_changed);
    // release
    let plan = p.release_file(&ProviderReleaseFileRequest::new(id("F1"), fh)).unwrap();
    assert!(!plan.wait_first);
    let upload = plan.upload.unwrap();
    assert_eq!(upload.id, id("F1"));
    assert_eq!(upload.path.as_str(), "/cache/F1");
    assert_eq!(upload.mime_type, "text/plain");
    assert_eq!(upload.metadata.id, Some(id("F1")));
    assert_eq!(upload.metadata.mime_type.as_deref(), Some("text/plain"));
    assert!(upload.metadata.size.is_none() && upload.metadata.md5_checksum.is_none());
    assert!(upload.metadata.parents.is_none() && upload.metadata.name.is_none());
    assert!(upload.parents.add.is_empty() && upload.parents.remove.is_empty());
    assert!(p.file_handle(fh).is_none());
    assert!(p.is_running(&id("F1")));
    // the next request for the object waits for the upload
    let request = ProviderOpenFileRequest::new(id("F1"), 0);
    let plan = p.open_file(&request).unwrap();
    assert!(plan.wait_first);
    assert!(!p.is_running(&id("F1")));
}

#[test]
fn local_checksum_is_the_md5_of_the_content() {
    let mut p = seeded();
    let fh = open(&mut p, "F1", 2);
    let write = ProviderWriteContentRequest::new(id("F1"), 0, fh, b"hello".to_vec());
    assert_eq!(p.complete_write(&write, Some(5), b"hello", ts(1)), Ok(5));
    assert_eq!(
        p.entry(&id("F1")).unwrap().local_md5.as_deref(),
        Some("5d41402abc4b2a76b9719d911017c592")
    );
    assert_eq!(p.complete_write(&write, Some(0), b"", ts(1)), Ok(0));
    assert_eq!(
        p.entry(&id("F1")).unwrap().local_md5.as_deref(),
        Some("d41d8cd98f00b204e9800998ecf8427e")
    );
}

#[test]
fn write_grows_the_file_but_never_shrinks_it() {
    let mut p = seeded();
    let fh = open(&mut p, "F1", 2);
    let inside = ProviderWriteContentRequest::new(id("F1"), 2, fh, vec![0; 4]);
    assert_eq!(p.complete_write(&inside, Some(4), b"", ts(1)), Ok(4));
    assert_eq!(p.entry(&id("F1")).unwrap().attr.size, 12);
    let at_end = ProviderWriteContentRequest::new(id("F1"), 12, fh, vec![0; 3]);
    assert_eq!(p.complete_write(&at_end, Some(3), b"", ts(2)), Ok(3));
    assert_eq!(p.entry(&id("F1")).unwrap().attr.size, 15);
    let past_end = ProviderWriteContentRequest::new(id("F1"), 100, fh, vec![0; 5]);
    assert_eq!(p.complete_write(&past_end, Some(5), b"", ts(3)), Ok(5));
    assert_eq!(p.entry(&id("F1")).unwrap().attr.size, 105);
    let short = ProviderWriteContentRequest::new(id("F1"), 200, fh, vec![0; 5]);
    assert_eq!(p.complete_write(&short, Some(2), b"", ts(4)), Ok(2));
    assert_eq!(p.entry(&id("F1")).unwrap().attr.size, 202);
    let huge = ProviderWriteContentRequest::new(id("F1"), u64::MAX - 1, fh, vec![0; 5]);
    assert_eq!(p.complete_write(&huge, Some(5), b"", ts(5)), Ok(5));
    assert_eq!(p.entry(&id("F1")).unwrap().attr.size, u64::MAX);
}

#[test]
fn a_failed_write_changes_nothing() {
    let mut p = seeded();
    let fh = open(&mut p, "F1", 2);
    let write = ProviderWriteContentRequest::new(id("F1"), 0, fh, b"X".to_vec());
    assert_eq!(p.complete_write(&write, None, b"X", ts(77)), Err(ErrorKind::Io));
    let e = p.entry(&id("F1")).unwrap();
    assert_eq!(e.attr.size, 12);
    assert_eq!(e.local_md5.as_deref(), Some("a1"));
    assert!(!p.file_handle(fh).unwrap().has_content_changed);
    let ro = open(&mut p, "F1", 0);
    let write = ProviderWriteContentRequest::new(id("F1"), 0, ro, b"X".to_vec());
    assert_eq!(p.complete_write(&write, Some(1), b"X", ts(77)), Err(ErrorKind::Io));
}

#[test]
fn release_of_a_clean_handle_uploads_nothing() {
    let mut p = seeded();
    let fh = open(&mut p, "F1", 0);
    let plan = p.release_file(&ProviderReleaseFileRequest::new(id("F1"), fh)).unwrap();
    assert!(plan.upload.is_none());
    assert!(!p.is_running(&id("F1")));
    assert!(p.file_handle(fh).is_none());
    assert_eq!(
        p.release_file(&ProviderReleaseFileRequest::new(id("F1"), fh)).unwrap_err(),
        ErrorKind::Io
    );
}

#[test]
fn release_needs_the_handle_of_the_object() {
    let mut p = seeded();
    let fh = open(&mut p, "F1", 0);
    assert_eq!(
        p.release_file(&ProviderReleaseFileRequest::new(id("FID"), fh)).unwrap_err(),
        ErrorKind::Io
    );
    assert!(p.file_handle(fh).is_some());
}

#[test]
fn an_upload_is_not_started_twice() {
    let mut p = seeded();
    open(&mut p, "F1", 0);
    assert!(p.start_upload_call(id("F1")).is_ok());
    assert!(p.is_running(&id("F1")));
    assert_eq!(p.start_upload_call(id("F1")).unwrap_err(), ErrorKind::Io);
    assert!(p.wait_for_running_drive_request_if_exists(&id("F1")));
    assert!(!p.wait_for_running_drive_request_if_exists(&id("F1")));
    assert!(p.start_upload_call(id("F1")).is_ok());
    assert_eq!(p.start_upload_call(id("nope")).unwrap_err(), ErrorKind::NotFound);
}

#[test]
fn an_upload_needs_a_well_formed_media_type() {
    let mut p = new_provider();
    let files = vec![record("K", "k", "no media type", None)];
    assert_eq!(p.initialize_entries(root_record(), &files, ts(0)), Ok(()));
    assert_eq!(p.start_upload_call(id("K")).unwrap_err(), ErrorKind::InvalidArgument);
    assert!(!p.is_running(&id("K")));
}

fn rename(
    p: &mut DriveFileProvider,
    old_parent: &str,
    old_name: &str,
    new_parent: &str,
    new_name: &str,
) -> Result<drive_syncer::provider::rename::RenamePlan, ErrorKind> {
    p.rename(&ProviderRenameRequest::new(
        old_name.to_string(),
        id(old_parent),
        new_name.to_string(),
        id(new_parent),
    ))
}

#[test]
fn rename_across_directories() {
    let mut p = seeded();
    let plan = rename(&mut p, "AID", "f", "BID", "g").unwrap();
    assert_eq!(plan.id, id("FID"));
    assert!(!plan.wait_first);
    assert_eq!(plan.metadata.id, Some(id("FID")));
    assert_eq!(plan.metadata.name.as_deref(), Some("g"));
    assert!(plan.metadata.parents.is_none());
    assert_eq!(plan.parents.add, ids(&["BID"]));
    assert_eq!(plan.parents.remove, ids(&["AID"]));
    assert!(!p.children(&id("AID")).contains(&id("FID")));
    assert!(p.children(&id("BID")).contains(&id("FID")));
    assert_eq!(p.parents(&id("FID")), ids(&["BID"]));
    let e = p.entry(&id("FID")).unwrap();
    assert_eq!(e.name, "g");
    assert_eq!(e.pending_metadata.name.as_deref(), Some("g"));
    assert_eq!(e.pending_metadata.parents, Some(ids(&["BID"])));
    assert_eq!(e.original_metadata.name.as_deref(), Some("f"));
    assert_eq!(lookup(&p, "BID", "g"), Some(id("FID")));
    assert_eq!(lookup(&p, "AID", "f"), None);
    check_invariants(&p, &ALL);
    // the remote confirms
    assert_eq!(p.finish_rename(&id("FID"), true), Ok(()));
    let e = p.entry(&id("FID")).unwrap();
    assert_eq!(e.original_metadata.name.as_deref(), Some("g"));
    assert_eq!(e.original_metadata.parents, Some(ids(&["BID"])));
    assert!(e.pending_metadata.name.is_none() && e.pending_metadata.parents.is_none());
    assert_eq!(e.name, "g");
}

#[test]
fn a_failed_metadata_update_is_a_remote_error() {
    let mut p = seeded();
    rename(&mut p, "AID", "f", "BID", "g").unwrap();
    assert_eq!(p.finish_rename(&id("FID"), false), Err(ErrorKind::RemoteIo));
    let e = p.entry(&id("FID")).unwrap();
    assert_eq!(e.pending_metadata.name.as_deref(), Some("g"));
    assert_eq!(e.original_metadata.name.as_deref(), Some("f"));
}

#[test]
fn rename_errors() {
    let mut p = seeded();
    assert_eq!(rename(&mut p, "AID", "nope", "BID", "g").unwrap_err(), ErrorKind::NotFound);
    assert_eq!(rename(&mut p, "nowhere", "f", "BID", "g").unwrap_err(), ErrorKind::NotFound);
    assert_eq!(rename(&mut p, "AID", "f", "nowhere", "g").unwrap_err(), ErrorKind::NotFound);
    assert_eq!(rename(&mut p, "AID", "f", "root", "HELLO.txt").unwrap_err(), ErrorKind::NameInUse);
    assert_eq!(rename(&mut p, "root", "A", "root", "b").unwrap_err(), ErrorKind::NameInUse);
    assert_eq!(p.entry(&id("FID")).unwrap().name, "f");
    assert_eq!(p.children(&id("AID")), ids(&["FID"]));
    assert_eq!(p.children(&id("ROOT_ID_1")), ids(&["F1", "AID", "BID"]));
    check_invariants(&p, &ALL);
}

#[test]
fn rename_to_itself_is_a_no_op() {
    let mut p = seeded();
    let plan = rename(&mut p, "AID", "f", "AID", "f").unwrap();
    assert!(plan.metadata.name.is_none());
    assert!(plan.parents.add.is_empty() && plan.parents.remove.is_empty());
    let e = p.entry(&id("FID")).unwrap();
    assert_eq!(e.name, "f");
    assert!(e.pending_metadata.name.is_none() && e.pending_metadata.parents.is_none());
    assert_eq!(p.children(&id("AID")), ids(&["FID"]));
    assert_eq!(p.parents(&id("FID")), ids(&["AID"]));
    // twice is the same as once
    rename(&mut p, "root", "hello.txt", "root", "hello.txt").unwrap();
    rename(&mut p, "root", "hello.txt", "root", "hello.txt").unwrap();
    assert_eq!(p.children(&id("ROOT_ID_1")), ids(&["F1", "AID", "BID"]));
    assert_eq!(p.entry(&id("F1")).unwrap().name, "hello.txt");
    check_invariants(&p, &ALL);
}

#[test]
fn rename_can_change_the_case_of_a_name() {
    let mut p = seeded();
    rename(&mut p, "AID", "f", "AID", "F").unwrap();
    assert_eq!(p.entry(&id("FID")).unwrap().name, "F");
    assert_eq!(p.children(&id("AID")), ids(&["FID"]));
}

#[test]
fn rename_there_and_back_restores_location_and_name() {
    let mut p = seeded();
    rename(&mut p, "root", "hello.txt", "AID", "moved").unwrap();
    assert_eq!(p.children(&id("ROOT_ID_1")), ids(&["AID", "BID"]));
    assert_eq!(p.children(&id("AID")), ids(&["FID", "F1"]));
    rename(&mut p, "AID", "moved", "root", "hello.txt").unwrap();
    assert_eq!(p.entry(&id("F1")).unwrap().name, "hello.txt");
    assert_eq!(p.parents(&id("F1")), ids(&["ROOT_ID_1"]));
    assert_eq!(p.children(&id("AID")), ids(&["FID"]));
    // the entry is a child of the root again, now at the end of the list
    assert_eq!(p.children(&id("ROOT_ID_1")), ids(&["AID", "BID", "F1"]));
    assert_eq!(lookup(&p, "root", "hello.txt"), Some(id("F1")));
    check_invariants(&p, &ALL);
}

#[test]
fn rename_back_can_be_blocked_by_a_shadowed_name() {
    let mut p = new_provider();
    let files = vec![
        file("X1", "X", None, 1, "m"),
        file("X2", "x", None, 1, "m"),
        record("D", "d", FOLDER, None),
    ];
    assert_eq!(p.initialize_entries(root_record(), &files, ts(0)), Ok(()));
    rename(&mut p, "root", "x", "D", "y").unwrap();
    assert_eq!(p.children(&id("D")), ids(&["X1"]));
    assert_eq!(rename(&mut p, "D", "y", "root", "x").unwrap_err(), ErrorKind::NameInUse);
}

#[test]
fn rename_waits_for_a_running_upload() {
    let mut p = seeded();
    p.start_upload_call(id("FID")).unwrap();
    let plan = rename(&mut p, "AID", "f", "BID", "g").unwrap();
    assert!(plan.wait_first);
    assert!(!p.is_running(&id("FID")));
}

fn change(i: &str, kind: ChangeType) -> Change {
    Change { id: id(i), kind, time: ts(0) }
}

#[test]
fn changes_are_due_after_the_cache_window() {
    let mut p = seeded();
    assert!(p.changes_due(&ts(10)));
    let out = p.check_and_apply_changes(&vec![], Some("t1".to_string()), ts(100));
    assert!(out.is_empty());
    assert_eq!(p.changes_start_token(), Some("t1".to_string()));
    assert!(!p.changes_due(&ts(100)));
    assert!(!p.changes_due(&ts(109)));
    assert!(!p.changes_due(&Timestamp { secs: 109, nanos: 999_999_999 }));
    assert!(p.changes_due(&ts(110)));
    assert!(!p.changes_due(&ts(5)));
    p.check_and_apply_changes(&vec![], None, Timestamp { secs: 200, nanos: 5 });
    assert_eq!(p.changes_start_token(), Some("t1".to_string()));
    assert!(!p.changes_due(&Timestamp { secs: 210, nanos: 4 }));
    assert!(p.changes_due(&Timestamp { secs: 210, nanos: 5 }));
}

#[test]
fn the_cache_window_comes_from_the_settings() {
    let mut p = seeded();
    p.apply_settings(&SyncSettings::new(Duration::from_secs(2), Duration::from_secs(5)));
    p.check_and_apply_changes(&vec![], None, ts(100));
    assert!(!p.changes_due(&ts(104)));
    assert!(p.changes_due(&ts(105)));
}

#[test]
fn remote_change_is_propagated() {
    let mut p = seeded();
    let fh = open(&mut p, "F1", 0);
    assert!(!p.entry(&id("F1")).unwrap().has_upstream_content_changes);
    let mut m = RemoteMetadata::empty();
    m.md5_checksum = Some("b2".to_string());
    m.size = Some(20);
    let out = p.check_and_apply_changes(&vec![change("F1", ChangeType::File(m))], None, ts(60));
    assert!(matches!(out[0], ChangeOutcome::Merged(ChecksumMatch::RemoteMismatch)));
    let e = p.entry(&id("F1")).unwrap();
    assert!(e.has_upstream_content_changes);
    assert!(!e.conflict);
    assert_eq!(e.upstream_md5.as_deref(), Some("b2"));
    assert_eq!(e.attr.size, 20);
    // the next open downloads again
    let request = ProviderOpenFileRequest::new(id("F1"), 0);
    assert!(p.open_file(&request).unwrap().download);
    p.finish_open(&request, Some(true)).unwrap();
    let e = p.entry(&id("F1")).unwrap();
    assert!(!e.has_upstream_content_changes);
    assert_eq!(e.local_md5.as_deref(), Some("b2"));
    assert!(p.file_handle(fh).is_some());
}

#[test]
fn conflict_is_surfaced_as_an_error() {
    let mut p = seeded();
    let fh = open(&mut p, "F1", 2);
    let write = ProviderWriteContentRequest::new(id("F1"), 0, fh, b"X".to_vec());
    assert_eq!(p.complete_write(&write, Some(1), b"X", ts(60)), Ok(1));
    let mut m = RemoteMetadata::empty();
    m.md5_checksum = Some("b2".to_string());
    let out = p.check_and_apply_changes(&vec![change("F1", ChangeType::File(m))], None, ts(61));
    assert!(matches!(out[0], ChangeOutcome::Merged(ChecksumMatch::Conflict)));
    assert!(p.entry(&id("F1")).unwrap().conflict);
    // the dirty handle is released without an upload
    assert_eq!(
        p.release_file(&ProviderReleaseFileRequest::new(id("F1"), fh)).unwrap_err(),
        ErrorKind::Io
    );
    assert!(p.file_handle(fh).is_none());
    assert!(!p.is_running(&id("F1")));
    // a fresh handle cannot write or read
    let fresh = {
        let request = ProviderOpenFileRequest::new(id("F1"), 2);
        p.open_file(&request).unwrap();
        p.finish_open(&request, None).unwrap().0
    };
    let write = ProviderWriteContentRequest::new(id("F1"), 0, fresh, b"Y".to_vec());
    assert_eq!(p.write_content(&write).unwrap_err(), ErrorKind::Io);
    assert_eq!(p.complete_write(&write, Some(1), b"Y", ts(62)), Err(ErrorKind::Io));
    assert_eq!(
        p.read_content(&ProviderReadContentRequest::new(id("F1"), 0, 1, fresh)).unwrap_err(),
        ErrorKind::Io
    );
    assert_eq!(p.start_upload_call(id("F1")).unwrap_err(), ErrorKind::Io);
}

#[test]
fn merged_changes_follow_the_checksum_table() {
    let mut p = seeded();
    open(&mut p, "F1", 0);
    let with_md5 = |md5: Option<&str>| {
        let mut m = RemoteMetadata::empty();
        m.md5_checksum = md5.map(|s| s.to_string());
        change("F1", ChangeType::File(m))
    };
    // all equal
    let out = p.check_and_apply_changes(&vec![with_md5(Some("a1"))], None, ts(1));
    assert!(matches!(out[0], ChangeOutcome::Merged(ChecksumMatch::Match)));
    assert!(!p.entry(&id("F1")).unwrap().has_upstream_content_changes);
    // missing
    let out = p.check_and_apply_changes(&vec![with_md5(None)], None, ts(1));
    assert!(matches!(out[0], ChangeOutcome::Merged(ChecksumMatch::Missing)));
    let e = p.entry(&id("F1")).unwrap();
    assert!(e.has_upstream_content_changes);
    assert!(e.upstream_md5.is_none());
    // remote agrees with local again, the last reported one differs
    let out = p.check_and_apply_changes(&vec![with_md5(Some("a1"))], None, ts(1));
    assert!(matches!(out[0], ChangeOutcome::Merged(ChecksumMatch::CacheMismatch)));
    let e = p.entry(&id("F1")).unwrap();
    assert!(!e.has_upstream_content_changes);
    assert_eq!(e.upstream_md5.as_deref(), Some("a1"));
    // a local edit alone
    let fh = open(&mut p, "F1", 2);
    let write = ProviderWriteContentRequest::new(id("F1"), 0, fh, b"X".to_vec());
    p.complete_write(&write, Some(1), b"X", ts(2)).unwrap();
    let out = p.check_and_apply_changes(&vec![with_md5(Some("a1"))], None, ts(3));
    assert!(matches!(out[0], ChangeOutcome::Merged(ChecksumMatch::LocalMismatch)));
    let e = p.entry(&id("F1")).unwrap();
    assert!(!e.has_upstream_content_changes && !e.conflict);
}

#[test]
fn a_change_merges_name_size_and_texts() {
    let mut p = seeded();
    let mut m = RemoteMetadata::empty();
    m.name = Some("renamed.txt".to_string());
    m.size = Some(99);
    m.description = Some("desc".to_string());
    m.thumbnail_link = Some("link".to_string());
    m.md5_checksum = Some("a1".to_string());
    p.check_and_apply_changes(&vec![change("F1", ChangeType::File(m))], None, ts(1));
    let e = p.entry(&id("F1")).unwrap();
    assert_eq!(e.name, "renamed.txt");
    assert_eq!(e.attr.size, 99);
    assert_eq!(e.original_metadata.name.as_deref(), Some("renamed.txt"));
    assert_eq!(e.original_metadata.size, Some(99));
    assert_eq!(e.original_metadata.description.as_deref(), Some("desc"));
    assert_eq!(e.original_metadata.thumbnail_link.as_deref(), Some("link"));
    let mut neg = RemoteMetadata::empty();
    neg.size = Some(-1);
    neg.md5_checksum = Some("a1".to_string());
    p.check_and_apply_changes(&vec![change("F1", ChangeType::File(neg))], None, ts(1));
    assert_eq!(p.entry(&id("F1")).unwrap().attr.size, 99);
    assert_eq!(p.entry(&id("F1")).unwrap().original_metadata.size, Some(99));
}

#[test]
fn a_remote_name_does_not_replace_a_staged_one() {
    let mut p = seeded();
    rename(&mut p, "AID", "f", "AID", "local").unwrap();
    let mut m = RemoteMetadata::empty();
    m.name = Some("remote".to_string());
    p.check_and_apply_changes(&vec![change("FID", ChangeType::File(m))], None, ts(1));
    let e = p.entry(&id("FID")).unwrap();
    assert_eq!(e.name, "local");
    assert_eq!(e.original_metadata.name.as_deref(), Some("remote"));
}

#[test]
fn a_change_of_parents_moves_the_entry() {
    let mut p = seeded();
    let mut m = RemoteMetadata::empty();
    m.parents = Some(ids(&["BID", "root"]));
    p.check_and_apply_changes(&vec![change("FID", ChangeType::File(m))], None, ts(1));
    assert!(p.children(&id("AID")).is_empty());
    assert_eq!(p.children(&id("BID")), ids(&["FID"]));
    assert_eq!(p.children(&id("ROOT_ID_1")), ids(&["F1", "AID", "BID", "FID"]));
    assert_eq!(p.parents(&id("FID")), ids(&["BID", "ROOT_ID_1"]));
    assert_eq!(p.entry(&id("FID")).unwrap().original_metadata.parents, Some(ids(&["BID", "root"])));
    check_invariants(&p, &ALL);
    // an entry that was filed under the root for want of parents leaves it
    let mut m = RemoteMetadata::empty();
    m.parents = Some(ids(&["BID"]));
    p.check_and_apply_changes(&vec![change("AID", ChangeType::File(m))], None, ts(1));
    assert_eq!(p.children(&id("ROOT_ID_1")), ids(&["F1", "BID", "FID"]));
    assert_eq!(p.children(&id("BID")), ids(&["FID", "AID"]));
    // no reported parents file the entry under the root
    let mut m = RemoteMetadata::empty();
    m.parents = Some(vec![]);
    p.check_and_apply_changes(&vec![change("AID", ChangeType::File(m))], None, ts(1));
    assert_eq!(p.parents(&id("AID")), ids(&["ROOT_ID_1"]));
    check_invariants(&p, &ALL);
}

#[test]
fn equal_parents_move_nothing() {
    let mut p = seeded();
    let mut m = RemoteMetadata::empty();
    m.parents = Some(ids(&["AID"]));
    p.check_and_apply_changes(&vec![change("FID", ChangeType::File(m))], None, ts(1));
    assert_eq!(p.children(&id("AID")), ids(&["FID"]));
    assert_eq!(p.parents(&id("FID")), ids(&["AID"]));
}

#[test]
fn a_removal_drops_the_entry_and_detaches_it() {
    let mut p = seeded();
    open(&mut p, "FID", 0);
    let out =
        p.check_and_apply_changes(&vec![change("AID", ChangeType::Removed)], None, ts(1));
    assert!(matches!(out[0], ChangeOutcome::Removed { cache_file: None }));
    assert!(p.entry(&id("AID")).is_none());
    assert_eq!(p.children(&id("ROOT_ID_1")), ids(&["F1", "BID"]));
    assert!(p.children(&id("AID")).is_empty());
    assert!(p.parents(&id("FID")).is_empty());
    assert!(p.entry(&id("FID")).is_some());
    check_invariants(&p, &ALL);
    let out =
        p.check_and_apply_changes(&vec![change("FID", ChangeType::Removed)], None, ts(1));
    match &out[0] {
        ChangeOutcome::Removed { cache_file: Some(path) } => assert_eq!(path.as_str(), "/cache/FID"),
        other => panic!("unexpected outcome {:?}", other),
    }
    assert_eq!(lookup(&p, "AID", "f"), None);
}

#[test]
fn a_handle_of_a_removed_entry_is_not_served() {
    let mut p = seeded();
    let fh = open(&mut p, "F1", 2);
    p.check_and_apply_changes(&vec![change("F1", ChangeType::Removed)], None, ts(1));
    assert_eq!(
        p.read_content(&ProviderReadContentRequest::new(id("F1"), 0, 1, fh)).unwrap_err(),
        ErrorKind::NotFound
    );
    let write = ProviderWriteContentRequest::new(id("F1"), 0, fh, vec![1]);
    assert_eq!(p.write_content(&write).unwrap_err(), ErrorKind::NotFound);
    assert_eq!(
        p.release_file(&ProviderReleaseFileRequest::new(id("F1"), fh)).unwrap_err(),
        ErrorKind::NotFound
    );
    assert!(p.file_handle(fh).is_none());
}

#[test]
fn unknown_objects_and_drive_changes_are_ignored() {
    let mut p = seeded();
    let out = p.check_and_apply_changes(
        &vec![
            change("nope", ChangeType::Removed),
            change("F1", ChangeType::Drive),
            change("F1", ChangeType::Unknown),
            change("nope", ChangeType::File(RemoteMetadata::empty())),
        ],
        None,
        ts(1),
    );
    assert_eq!(out.len(), 4);
    assert!(out.iter().all(|o| matches!(o, ChangeOutcome::Ignored)));
    assert!(p.entry(&id("F1")).is_some());
    assert_eq!(p.children(&id("ROOT_ID_1")), ids(&["F1", "AID", "BID"]));
}

#[test]
fn a_change_for_the_alias_reaches_the_root() {
    let mut p = seeded();
    let mut m = RemoteMetadata::empty();
    m.name = Some("My Drive".to_string());
    let out = p.process_change(&change("root", ChangeType::File(m)));
    assert!(matches!(out, ChangeOutcome::Merged(_)));
    assert_eq!(p.entry(&id("ROOT_ID_1")).unwrap().name, "My Drive");
}

#[test]
fn handles_are_numbered_from_111() {
    let mut p = seeded();
    let flags = HandleFlags::from(2);
    assert_eq!(p.create_fh(id("F1"), flags, LocalPath::new("/x"), true, false), Some(111));
    assert_eq!(p.create_fh(id("F1"), flags, LocalPath::new("/y"), false, true), Some(112));
    let h = p.file_handle(111).unwrap();
    assert!(h.creating && !h.marked_for_open && !h.has_content_changed);
    assert_eq!(h.path.as_str(), "/x");
    assert_eq!(h.flags, flags);
}

#[test]
fn provider_commands() {
    assert_ne!(ProviderCommand::Stop, ProviderCommand::PauseSync);
}

#[test]
fn stop_decisions() {
    assert!(DriveFileProvider::listen_for_stop(Some(ProviderCommand::Stop)));
    assert!(DriveFileProvider::listen_for_stop(None));
    assert!(!DriveFileProvider::listen_for_stop(Some(ProviderCommand::PauseSync)));
}

#[test]
fn full_paths_follow_the_first_parent() {
    let mut p = seeded();
    assert_eq!(p.get_full_path(&id("root")), Some(vec![]));
    assert_eq!(p.get_full_path(&id("ROOT_ID_1")), Some(vec![]));
    assert_eq!(p.get_full_path(&id("F1")), Some(vec!["hello.txt".to_string()]));
    assert_eq!(p.get_full_path(&id("FID")), Some(vec!["A".to_string(), "f".to_string()]));
    assert_eq!(p.get_full_path(&id("nope")), None);
    // a second parent does not change the path
    let mut m = RemoteMetadata::empty();
    m.parents = Some(ids(&["AID", "BID"]));
    p.process_change(&change("FID", ChangeType::File(m)));
    assert_eq!(p.parents(&id("FID")), ids(&["AID", "BID"]));
    assert_eq!(p.get_full_path(&id("FID")), Some(vec!["A".to_string(), "f".to_string()]));
    // an entry whose parent is gone has only its own name
    p.process_change(&change("AID", ChangeType::Removed));
    assert_eq!(p.get_full_path(&id("FID")), Some(vec!["B".to_string(), "f".to_string()]));
    p.process_change(&change("BID", ChangeType::Removed));
    assert_eq!(p.get_full_path(&id("FID")), Some(vec!["f".to_string()]));
}

#[test]
fn full_paths_end_in_cycles() {
    let mut p = new_provider();
    let files = vec![
        record("X", "x", FOLDER, Some(&["Y"])),
        record("Y", "y", FOLDER, Some(&["X"])),
        record("Z", "z", FOLDER, Some(&["GONE"])),
    ];
    assert_eq!(p.initialize_entries(root_record(), &files, ts(0)), Ok(()));
    assert_eq!(p.get_full_path(&id("X")), None);
    assert_eq!(p.get_full_path(&id("Y")), None);
    assert_eq!(p.get_full_path(&id("Z")), None);
}

#[test]
fn pinned_entries_lie_in_the_persistent_directory() {
    let mut p = seeded();
    p.set_perma(&id("F1"), true);
    assert!(p.entry(&id("F1")).unwrap().perma);
    assert_eq!(p.construct_path(&id("F1")).unwrap().as_str(), "/perma/F1");
    let request = ProviderOpenFileRequest::new(id("F1"), 0);
    assert_eq!(p.open_file(&request).unwrap().path.as_str(), "/perma/F1");
    p.set_perma(&id("F1"), false);
    assert_eq!(p.construct_path(&id("F1")).unwrap().as_str(), "/cache/F1");
    p.set_perma(&id("nope"), true);
    assert!(p.entry(&id("nope")).is_none());
}

#[test]
fn a_deleted_cache_file_is_forgotten() {
    let mut p = seeded();
    open(&mut p, "F1", 0);
    assert!(p.entry(&id("F1")).unwrap().is_local);
    assert!(p.entry(&id("F1")).unwrap().local_md5.is_some());
    p.forget_cache_file(&id("F1"));
    let e = p.entry(&id("F1")).unwrap();
    assert!(!e.is_local);
    assert!(e.local_md5.is_none());
    let request = ProviderOpenFileRequest::new(id("F1"), 0);
    assert!(p.open_file(&request).unwrap().download);
}

/// Carries out a planned write on a byte vector that stands for the cache
/// file, as a file system would: the file grows to the end of the write and
/// a gap is filled with zeros.
fn write_to(file: &mut Vec<u8>, offset: u64, data: &[u8]) -> u32 {
    let start = offset as usize;
    if file.len() < start + data.len() {
        file.resize(start + data.len(), 0);
    }
    file[start..start + data.len()].copy_from_slice(data);
    data.len() as u32
}

fn write_through(p: &mut DriveFileProvider, file: &mut Vec<u8>, fh: u64, offset: u64, data: &[u8]) {
    let request = ProviderWriteContentRequest::new(id("F1"), offset, fh, data.to_vec());
    let io = p.write_content(&request).unwrap().io.unwrap();
    let written = write_to(file, io.offset, data);
    p.mark_file_opened(fh);
    assert_eq!(p.complete_write(&request, Some(written), file, ts(9)), Ok(written));
}

fn read_through(p: &mut DriveFileProvider, file: &[u8], fh: u64, offset: u64, size: usize) -> Vec<u8> {
    let request = ProviderReadContentRequest::new(id("F1"), offset, size, fh);
    match p.read_content(&request).unwrap().io {
        None => read_reply(Some(vec![]), 0).unwrap(),
        Some(io) => {
            let start = io.offset as usize;
            let end = (start + io.len).min(file.len());
            read_reply(Some(file[start..end].to_vec()), io.len).unwrap()
        }
    }
}

#[test]
fn what_was_written_is_read_back() {
    let mut p = seeded();
    let fh = open(&mut p, "F1", 2);
    let mut file = b"hello world\n".to_vec();
    write_through(&mut p, &mut file, fh, 6, b"WORLD");
    assert_eq!(read_through(&mut p, &file, fh, 6, 5), b"WORLD");
    assert_eq!(read_through(&mut p, &file, fh, 0, 100), b"hello WORLD\n");
    // a write past the end extends the file, and the gap reads as zeros
    write_through(&mut p, &mut file, fh, 15, b"xy");
    assert_eq!(p.entry(&id("F1")).unwrap().attr.size, 17);
    assert_eq!(read_through(&mut p, &file, fh, 15, 2), b"xy");
    assert_eq!(read_through(&mut p, &file, fh, 12, 3), vec![0, 0, 0]);
    assert_eq!(read_through(&mut p, &file, fh, 10, 100), b"D\n\0\0\0xy");
    assert_eq!(read_through(&mut p, &file, fh, 17, 4), Vec::<u8>::new());
    assert_eq!(read_through(&mut p, &file, fh, 16, 4), b"y");
}

#[test]
fn requests_name_their_object() {
    use_request_trait();
}

fn use_request_trait() {
    let r = ProviderMetadataRequest::new(id("a"));
    assert_eq!(ProviderRequestStruct::get_file_id(&r), &id("a"));
    let r = ProviderReadContentRequest::new(id("b"), 1, 2, 3);
    assert_eq!(r.get_file_id(), &id("b"));
    let r = ProviderReadDirRequest::new(id("c"), 0);
    assert_eq!(r.get_file_id(), &id("c"));
    let r = ProviderWriteContentRequest::new(id("d"), 0, 1, vec![]);
    assert_eq!(r.get_file_id(), &id("d"));
}

#[test]
fn local_paths_of_entries() {
    let p = seeded();
    let e = p.entry(&id("FID")).unwrap();
    assert_eq!(e.get_id(), id("FID"));
    assert_eq!(e.build_local_path(None).as_str(), "");
    assert_eq!(e.build_local_path(Some(&LocalPath::new("A"))).as_str(), "A/f");
}

#[test]
fn a_recorded_write_keeps_the_given_checksum() {
    let mut p = seeded();
    let fh = open(&mut p, "F1", 2);
    let write = ProviderWriteContentRequest::new(id("F1"), 20, fh, vec![0; 4]);
    assert_eq!(p.record_write(&write, Some(4), "c0ffee".to_string(), ts(8)), Ok(4));
    let e = p.entry(&id("F1")).unwrap();
    assert_eq!(e.local_md5.as_deref(), Some("c0ffee"));
    assert_eq!(e.attr.size, 24);
    assert_eq!(e.attr.mtime, ts(8));
    assert_eq!(p.record_write(&write, None, "x".to_string(), ts(9)), Err(ErrorKind::Io));
    assert_eq!(p.entry(&id("F1")).unwrap().local_md5.as_deref(), Some("c0ffee"));
}

#[test]
fn the_cache_window_can_be_set() {
    let mut p = seeded();
    p.set_cache_time(0);
    p.check_and_apply_changes(&vec![], None, ts(100));
    assert!(p.changes_due(&ts(100)));
    p.set_cache_time(u64::MAX);
    assert!(!p.changes_due(&ts(u64::MAX)));
}

#[test]
fn a_local_edit_is_kept_when_the_remote_reports_the_known_checksum() {
    let mut p = seeded();
    let flags = HandleFlags::from(2);
    let fh = p.create_fh(id("F1"), flags, LocalPath::new("/cache/F1"), false, true).unwrap();
    let write = ProviderWriteContentRequest::new(id("F1"), 0, fh, vec![1]);
    assert_eq!(p.record_write(&write, Some(1), "b".to_string(), ts(1)), Ok(1));
    let e = p.entry(&id("F1")).unwrap();
    assert!(e.has_upstream_content_changes);
    assert_eq!(e.upstream_md5.as_deref(), Some("a1"));
    assert_eq!(e.local_md5.as_deref(), Some("b"));
    let mut m = RemoteMetadata::empty();
    m.md5_checksum = Some("a1".to_string());
    let out = p.process_change(&change("F1", ChangeType::File(m)));
    assert!(matches!(out, ChangeOutcome::Merged(ChecksumMatch::LocalMismatch)));
    let e = p.entry(&id("F1")).unwrap();
    assert!(!e.has_upstream_content_changes);
    assert!(!e.conflict);
    assert_eq!(e.local_md5.as_deref(), Some("b"));
    assert_eq!(e.upstream_md5.as_deref(), Some("a1"));
    // the next open does not download over the edit
    let request = ProviderOpenFileRequest::new(id("F1"), 2);
    assert!(!p.open_file(&request).unwrap().download);
}

#[test]
fn rename_is_refused_when_another_sibling_has_the_name() {
    let mut p = new_provider();
    let files = vec![file("E", "a", None, 1, "m"), file("F", "A", None, 1, "m")];
    assert_eq!(p.initialize_entries(root_record(), &files, ts(0)), Ok(()));
    // the first match for the new name is the source itself; the other sibling counts
    assert_eq!(rename(&mut p, "root", "a", "root", "A").unwrap_err(), ErrorKind::NameInUse);
    let e = p.entry(&id("E")).unwrap();
    assert_eq!(e.name, "a");
    assert!(e.pending_metadata.name.is_none() && e.pending_metadata.parents.is_none());
    assert_eq!(p.entry(&id("F")).unwrap().name, "A");
    assert_eq!(p.children(&id("ROOT_ID_1")), ids(&["E", "F"]));
    assert_eq!(p.parents(&id("E")), ids(&["ROOT_ID_1"]));
    // the same holds for a rename onto its own name beside such a sibling
    assert_eq!(rename(&mut p, "root", "a", "root", "a").unwrap_err(), ErrorKind::NameInUse);
    assert_eq!(rename(&mut p, "root", "a", "root", "b").map(|plan| plan.id), Ok(id("E")));
    assert_eq!(p.entry(&id("E")).unwrap().name, "b");
}

#[test]
fn names_used_by_other_children() {
    let mut p = new_provider();
    let files = vec![
        file("E", "a", None, 1, "m"),
        file("F", "A", None, 1, "m"),
        file("G", "g", None, 1, "m"),
    ];
    assert_eq!(p.initialize_entries(root_record(), &files, ts(0)), Ok(()));
    let root = id("ROOT_ID_1");
    assert!(p.is_name_used_by_other("a", &root, &id("E")));
    assert!(p.is_name_used_by_other("A", &root, &id("F")));
    assert!(!p.is_name_used_by_other("G", &root, &id("G")));
    assert!(p.is_name_used_by_other("G", &root, &id("E")));
    assert!(!p.is_name_used_by_other("x", &root, &id("E")));
    assert!(!p.is_name_used_by_other("a", &id("nowhere"), &id("E")));
}

#[test]
fn a_second_root_record_keeps_what_is_known() {
    let mut p = seeded();
    let mut again = root_record();
    again.name = Some("My Drive".to_string());
    assert_eq!(p.add_root_entry(again, ts(60)), Ok(()));
    assert_eq!(p.entry(&id("ROOT_ID_1")).unwrap().name, "My Drive");
    assert!(p.entry(&id("F1")).is_some());
    assert_eq!(p.children(&id("ROOT_ID_1")), ids(&["F1", "AID", "BID"]));
    assert_eq!(p.children(&id("AID")), ids(&["FID"]));
    // starting again offers the records again: what is known is passed over
    let files = vec![file("F1", "other", None, 1, "zz"), file("NEW", "new", None, 1, "m")];
    assert_eq!(p.initialize_entries(root_record(), &files, ts(61)), Ok(()));
    assert_eq!(p.entry(&id("F1")).unwrap().name, "hello.txt");
    assert_eq!(p.children(&id("ROOT_ID_1")), ids(&["F1", "AID", "BID", "NEW"]));
    check_invariants(&p, &ALL);
}

#[test]
fn every_entry_but_the_root_lies_under_a_parent_after_startup() {
    let p = seeded();
    for k in ["F1", "AID", "BID", "FID"] {
        let parents = p.parents(&id(k));
        assert!(!parents.is_empty(), "{}", k);
        assert!(p.children(&parents[0]).contains(&id(k)), "{}", k);
    }
    assert!(p.parents(&id("ROOT_ID_1")).is_empty());
}
