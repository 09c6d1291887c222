use drive_syncer::common::{LocalPath, VecExtension};
use drive_syncer::drive_id::DriveId;

#[test]
fn test_remove_first_element() {
    let mut ve = vec![10, 20, 30, 40];
    let r = ve.remove_first_element(&20);
    assert_eq!(r, Some(20));
    assert_eq!(ve, vec![10, 30, 40])
}

#[test]
fn remove_first_element_takes_only_the_first() {
    let mut ve = vec![1, 2, 1, 3, 1];
    assert_eq!(ve.remove_first_element(&1), Some(1));
    assert_eq!(ve, vec![2, 1, 3, 1]);
}

#[test]
fn remove_first_element_of_missing_value() {
    let mut ve = vec![1, 2, 3];
    assert_eq!(ve.remove_first_element(&9), None);
    assert_eq!(ve, vec![1, 2, 3]);
    let mut empty: Vec<i32> = vec![];
    assert_eq!(empty.remove_first_element(&9), None);
}

#[test]
fn remove_first_element_of_ids() {
    let mut ids = vec![DriveId::new("a"), DriveId::new("b"), DriveId::new("a")];
    let r = ids.remove_first_element(&DriveId::new("a"));
    assert_eq!(r, Some(DriveId::new("a")));
    assert_eq!(ids, vec![DriveId::new("b"), DriveId::new("a")]);
}

#[test]
fn local_path_join() {
    let dir = LocalPath::new("/tmp/cache");
    assert_eq!(dir.join("F1").as_str(), "/tmp/cache/F1");
    assert_eq!(dir.as_str(), "/tmp/cache");
    assert_eq!(dir.clone().as_str(), "/tmp/cache");
}

#[test]
fn drive_id_basics() {
    assert_eq!(DriveId::root().as_str(), "root");
    assert!(DriveId::root().is_root());
    assert!(DriveId::new("root").is_root());
    assert!(!DriveId::new("Root").is_root());
    assert_eq!(DriveId::new("abc").to_string(), "abc");
    assert_eq!(DriveId::from_string("abc".to_string()), DriveId::new("abc"));
    assert_ne!(DriveId::new("abc"), DriveId::new("abd"));
    assert_eq!(DriveId::new("x").clone(), DriveId::new("x"));
}

#[test]
fn drive_id_conversions() {
    assert_eq!(DriveId::from("abc"), DriveId::new("abc"));
    assert_eq!(DriveId::from("abc".to_string()), DriveId::new("abc"));
    assert_eq!(DriveId::from(&"abc".to_string()), DriveId::new("abc"));
    let id: DriveId = "root".into();
    assert!(id.is_root());
    assert_eq!(DriveId::from("").as_str(), "");
}
