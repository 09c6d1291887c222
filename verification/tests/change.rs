use drive_syncer::attr::Timestamp;
use drive_syncer::change::{
    get_changes, get_changes_since, list_all_files, Change, ChangeError, ChangeList, ChangeType,
    DriveChange, FileList, PageStep,
};
use drive_syncer::drive_id::DriveId;
use drive_syncer::errno::ErrorKind;
use drive_syncer::metadata::RemoteMetadata;

fn raw(file_id: Option<&str>, change_type: Option<&str>) -> DriveChange {
    DriveChange {
        file_id: file_id.map(DriveId::new),
        change_type: change_type.map(|s| s.to_string()),
        removed: None,
        time: Some(Timestamp { secs: 5, nanos: 6 }),
        file: Some(RemoteMetadata::empty()),
        has_drive: true,
    }
}

fn error_of(c: DriveChange) -> ChangeError {
    match Change::try_from(c) {
        Ok(c) => panic!("unexpected change {:?}", c),
        Err(e) => e,
    }
}

#[test]
fn a_file_change() {
    let mut c = raw(Some("F1"), Some("file"));
    let mut m = RemoteMetadata::empty();
    m.name = Some("n".to_string());
    c.file = Some(m);
    let change = Change::try_from(c).unwrap();
    assert_eq!(change.id, DriveId::new("F1"));
    assert_eq!(change.time, Timestamp { secs: 5, nanos: 6 });
    match change.kind {
        ChangeType::File(m) => assert_eq!(m.name.as_deref(), Some("n")),
        other => panic!("unexpected kind {:?}", other),
    }
}

#[test]
fn a_drive_change() {
    let change = Change::try_from(raw(Some("D"), Some("drive"))).unwrap();
    assert!(matches!(change.kind, ChangeType::Drive));
}

#[test]
fn a_removal_needs_no_type() {
    let mut c = raw(Some("F1"), None);
    c.removed = Some(true);
    c.file = None;
    assert!(matches!(Change::try_from(c).unwrap().kind, ChangeType::Removed));
    let mut c = raw(Some("F1"), Some("bogus"));
    c.removed = Some(true);
    assert!(matches!(Change::try_from(c).unwrap().kind, ChangeType::Removed));
    let mut c = raw(Some("F1"), Some("file"));
    c.removed = Some(false);
    assert!(matches!(Change::try_from(c).unwrap().kind, ChangeType::File(_)));
}

#[test]
fn unusable_records() {
    assert_eq!(error_of(raw(None, Some("file"))), ChangeError::MissingFileId);
    assert_eq!(error_of(raw(Some("F1"), None)), ChangeError::MissingChangeType);
    let mut c = raw(Some("F1"), Some("file"));
    c.file = None;
    assert_eq!(error_of(c), ChangeError::MissingFile);
    let mut c = raw(Some("F1"), Some("drive"));
    c.has_drive = false;
    assert_eq!(error_of(c), ChangeError::MissingDrive);
    let mut c = raw(Some("F1"), Some("file"));
    c.time = None;
    assert_eq!(error_of(c), ChangeError::MissingTime);
    // the first fault is the one reported
    let mut c = raw(None, None);
    c.time = None;
    assert_eq!(error_of(c), ChangeError::MissingFileId);
    let mut c = raw(Some("F1"), None);
    c.time = None;
    assert_eq!(error_of(c), ChangeError::MissingChangeType);
}

#[test]
fn kinds_from_raw_fields() {
    let file = Some(RemoteMetadata::empty());
    assert!(matches!(
        ChangeType::from_drive_change(Some("file".to_string()), file, false, false),
        Ok(ChangeType::File(_))
    ));
    assert!(matches!(
        ChangeType::from_drive_change(Some("drive".to_string()), None, true, false),
        Ok(ChangeType::Drive)
    ));
    assert!(matches!(ChangeType::from_drive_change(None, None, false, true), Ok(ChangeType::Removed)));
    assert!(matches!(
        ChangeType::from_drive_change(None, None, false, false),
        Err(ChangeError::MissingChangeType)
    ));
}

#[test]
fn a_feed_is_normalized_in_order() {
    let list = get_changes(vec![raw(Some("a"), Some("file")), raw(Some("b"), Some("drive"))]).unwrap();
    assert_eq!(list.len(), 2);
    assert_eq!(list[0].id, DriveId::new("a"));
    assert_eq!(list[1].id, DriveId::new("b"));
    assert!(get_changes(vec![]).unwrap().is_empty());
}

#[test]
fn a_feed_fails_with_its_first_fault() {
    let mut no_time = raw(Some("c"), Some("file"));
    no_time.time = None;
    let mut no_file = raw(Some("b"), Some("file"));
    no_file.file = None;
    let r = get_changes(vec![raw(Some("a"), Some("file")), no_file, no_time]);
    assert_eq!(r.unwrap_err(), ChangeError::MissingFile);
}

#[test]
fn an_unknown_type_is_kept_as_unknown() {
    assert!(matches!(
        Change::try_from(raw(Some("F1"), Some("folder"))).unwrap().kind,
        ChangeType::Unknown
    ));
    assert!(matches!(
        Change::try_from(raw(Some("F1"), Some("File"))).unwrap().kind,
        ChangeType::Unknown
    ));
    let list = get_changes(vec![raw(Some("a"), Some("bogus")), raw(Some("b"), Some("file"))]);
    assert_eq!(list.unwrap().len(), 2);
}

#[test]
fn pages_of_the_change_feed() {
    let mut collected = vec![];
    let mut token = Some("s0".to_string());
    let page = ChangeList {
        changes: Some(vec![raw(Some("a"), Some("file"))]),
        next_page_token: Some("p2".to_string()),
        new_start_page_token: Some("ignored".to_string()),
    };
    match get_changes_since(&mut collected, &mut token, page) {
        PageStep::More(t) => assert_eq!(t, "p2"),
        PageStep::Done => panic!("the feed has another page"),
    }
    assert_eq!(token.as_deref(), Some("s0"));
    assert_eq!(collected.len(), 1);
    let page = ChangeList {
        changes: Some(vec![raw(Some("b"), Some("file")), raw(Some("c"), Some("file"))]),
        next_page_token: None,
        new_start_page_token: Some("s1".to_string()),
    };
    assert!(matches!(get_changes_since(&mut collected, &mut token, page), PageStep::Done));
    assert_eq!(token.as_deref(), Some("s1"));
    let got: Vec<Option<DriveId>> = collected.iter().map(|c| c.file_id.clone()).collect();
    assert_eq!(
        got,
        vec![Some(DriveId::new("a")), Some(DriveId::new("b")), Some(DriveId::new("c"))]
    );
    let page = ChangeList { changes: None, next_page_token: None, new_start_page_token: None };
    assert!(matches!(get_changes_since(&mut collected, &mut token, page), PageStep::Done));
    assert_eq!(token.as_deref(), Some("s1"));
    assert_eq!(collected.len(), 3);
}

#[test]
fn pages_of_a_file_list() {
    let mut collected = vec![];
    let mut a = RemoteMetadata::empty();
    a.name = Some("a".to_string());
    let page = FileList { files: Some(vec![a]), next_page_token: Some("p2".to_string()) };
    assert!(matches!(list_all_files(&mut collected, page), Ok(PageStep::More(t)) if t == "p2"));
    let page =
        FileList { files: Some(vec![RemoteMetadata::empty()]), next_page_token: None };
    assert!(matches!(list_all_files(&mut collected, page), Ok(PageStep::Done)));
    assert_eq!(collected.len(), 2);
    assert_eq!(collected[0].name.as_deref(), Some("a"));
    let page = FileList { files: None, next_page_token: Some("p3".to_string()) };
    assert!(matches!(list_all_files(&mut collected, page), Err(ErrorKind::Io)));
    assert_eq!(collected.len(), 2);
}
