use crate::attr::{default_perm, EntryKind, FileAttr, Timestamp};
use crate::drive_id::{
    clone_opt_id, clone_opt_ids, contains_id, id_views, opt_id_view, opt_ids_view, DriveId,
};
use crate::errno::ErrorKind;
use crate::lists::lemma_filter_push;
use crate::text::{clone_opt_string, opt_text, str_equals};
use vstd::prelude::*;

verus! {

/// What the remote reports of one object. Every field may be absent: a
/// change carries only what changed, and a staged update only what is to be
/// pushed.
#[derive(Debug)]
pub struct RemoteMetadata {
    pub id: Option<DriveId>,
    pub name: Option<String>,
    pub mime_type: Option<String>,
    pub size: Option<i64>,
    pub md5_checksum: Option<String>,
    pub parents: Option<Vec<DriveId>>,
    pub description: Option<String>,
    pub thumbnail_link: Option<String>,
    pub kind: Option<String>,
    pub trashed: Option<bool>,
    pub explicitly_trashed: Option<bool>,
    pub created_time: Option<Timestamp>,
    pub modified_time: Option<Timestamp>,
    pub modified_by_me_time: Option<Timestamp>,
    pub shared_with_me_time: Option<Timestamp>,
    pub trashed_time: Option<Timestamp>,
    pub viewed_by_me_time: Option<Timestamp>,
}

/// The mathematical value of a `RemoteMetadata`.
pub struct RemoteMetadataView {
    pub id: Option<Seq<char>>,
    pub name: Option<Seq<char>>,
    pub mime_type: Option<Seq<char>>,
    pub size: Option<i64>,
    pub md5_checksum: Option<Seq<char>>,
    pub parents: Option<Seq<Seq<char>>>,
    pub description: Option<Seq<char>>,
    pub thumbnail_link: Option<Seq<char>>,
    pub kind: Option<Seq<char>>,
    pub trashed: Option<bool>,
    pub explicitly_trashed: Option<bool>,
    pub created_time: Option<Timestamp>,
    pub modified_time: Option<Timestamp>,
    pub modified_by_me_time: Option<Timestamp>,
    pub shared_with_me_time: Option<Timestamp>,
    pub trashed_time: Option<Timestamp>,
    pub viewed_by_me_time: Option<Timestamp>,
}

impl View for RemoteMetadata {
    type V = RemoteMetadataView;

    open spec fn view(&self) -> RemoteMetadataView {
        RemoteMetadataView {
            id: opt_id_view(self.id),
            name: opt_text(self.name),
            mime_type: opt_text(self.mime_type),
            size: self.size,
            md5_checksum: opt_text(self.md5_checksum),
            parents: opt_ids_view(self.parents),
            description: opt_text(self.description),
            thumbnail_link: opt_text(self.thumbnail_link),
            kind: opt_text(self.kind),
            trashed: self.trashed,
            explicitly_trashed: self.explicitly_trashed,
            created_time: self.created_time,
            modified_time: self.modified_time,
            modified_by_me_time: self.modified_by_me_time,
            shared_with_me_time: self.shared_with_me_time,
            trashed_time: self.trashed_time,
            viewed_by_me_time: self.viewed_by_me_time,
        }
    }
}

impl RemoteMetadataView {
    /// The record in which every field is absent.
    pub open spec fn empty() -> RemoteMetadataView {
        RemoteMetadataView {
            id: None,
            name: None,
            mime_type: None,
            size: None,
            md5_checksum: None,
            parents: None,
            description: None,
            thumbnail_link: None,
            kind: None,
            trashed: None,
            explicitly_trashed: None,
            created_time: None,
            modified_time: None,
            modified_by_me_time: None,
            shared_with_me_time: None,
            trashed_time: None,
            viewed_by_me_time: None,
        }
    }

    /// The record without the fields that the remote derives itself or
    /// treats as read-only: the size, every timestamp, both trash marks, the
    /// checksum and the kind. The id, the name, the mime type, the parents,
    /// the description and the thumbnail link stay.
    pub open spec fn without_volatile(self) -> RemoteMetadataView {
        RemoteMetadataView {
            size: None,
            created_time: None,
            trashed_time: None,
            trashed: None,
            modified_by_me_time: None,
            modified_time: None,
            shared_with_me_time: None,
            viewed_by_me_time: None,
            explicitly_trashed: None,
            md5_checksum: None,
            kind: None,
            ..self
        }
    }

    /// The record as it is sent with an update for the object `id`.
    pub open spec fn prepared_for(self, id: Seq<char>) -> RemoteMetadataView {
        RemoteMetadataView { id: Some(id), ..self.without_volatile() }
    }
}

impl RemoteMetadata {
    /// The record in which every field is absent.
    pub fn empty() -> (r: RemoteMetadata)
        ensures
            r@ == RemoteMetadataView::empty(),
    {
        RemoteMetadata {
            id: None,
            name: None,
            mime_type: None,
            size: None,
            md5_checksum: None,
            parents: None,
            description: None,
            thumbnail_link: None,
            kind: None,
            trashed: None,
            explicitly_trashed: None,
            created_time: None,
            modified_time: None,
            modified_by_me_time: None,
            shared_with_me_time: None,
            trashed_time: None,
            viewed_by_me_time: None,
        }
    }
}

impl Clone for RemoteMetadata {
    fn clone(&self) -> (r: RemoteMetadata)
        ensures
            r@ == self@,
    {
        RemoteMetadata {
            id: clone_opt_id(&self.id),
            name: clone_opt_string(&self.name),
            mime_type: clone_opt_string(&self.mime_type),
            size: self.size,
            md5_checksum: clone_opt_string(&self.md5_checksum),
            parents: clone_opt_ids(&self.parents),
            description: clone_opt_string(&self.description),
            thumbnail_link: clone_opt_string(&self.thumbnail_link),
            kind: clone_opt_string(&self.kind),
            trashed: self.trashed,
            explicitly_trashed: self.explicitly_trashed,
            created_time: self.created_time,
            modified_time: self.modified_time,
            modified_by_me_time: self.modified_by_me_time,
            shared_with_me_time: self.shared_with_me_time,
            trashed_time: self.trashed_time,
            viewed_by_me_time: self.viewed_by_me_time,
        }
    }
}

/// Strips the fields that the remote derives itself or treats as read-only.
pub fn remove_volatile_metadata(metadata: &mut RemoteMetadata)
    ensures
        final(metadata)@ == old(metadata)@.without_volatile(),
{
    metadata.size = None;
    metadata.created_time = None;
    metadata.trashed_time = None;
    metadata.trashed = None;
    metadata.modified_by_me_time = None;
    metadata.modified_time = None;
    metadata.shared_with_me_time = None;
    metadata.viewed_by_me_time = None;
    metadata.explicitly_trashed = None;
    metadata.md5_checksum = None;
    metadata.kind = None;
}

/// Makes a staged record ready to be sent for the object `id`.
pub fn prepare_changed_metadata_for_upload(id: &DriveId, metadata: &mut RemoteMetadata)
    ensures
        final(metadata)@ == old(metadata)@.prepared_for(id@),
{
    metadata.id = Some(id.clone());
    remove_volatile_metadata(metadata);
}

/// The mime types of the remote's own document formats, which have no byte
/// stream.
pub open spec fn is_cloud_document(mime: Seq<char>) -> bool {
    ||| mime == "application/vnd.google-apps.document"@
    ||| mime == "application/vnd.google-apps.spreadsheet"@
    ||| mime == "application/vnd.google-apps.drawing"@
    ||| mime == "application/vnd.google-apps.form"@
    ||| mime == "application/vnd.google-apps.presentation"@
    ||| mime == "application/vnd.google-apps.drive-sdk"@
    ||| mime == "application/vnd.google-apps.script"@
}

/// The kind of entry that an object of a mime type becomes, if any: the
/// folder type gives a directory, the remote's own document formats give
/// nothing, everything else gives a regular file.
pub open spec fn kind_of_mime(mime: Seq<char>) -> Option<EntryKind> {
    if mime == "application/vnd.google-apps.folder"@ {
        Some(EntryKind::Directory)
    } else if is_cloud_document(mime) {
        None
    } else {
        Some(EntryKind::RegularFile)
    }
}

/// Decides what kind of entry an object of the given mime type becomes.
/// The remote's own document formats are refused as unsupported.
pub fn convert_mime_type_to_file_type(mime_type: &str) -> (r: Result<EntryKind, ErrorKind>)
    ensures
        r == match kind_of_mime(mime_type@) {
            Some(kind) => Ok::<EntryKind, ErrorKind>(kind),
            None => Err::<EntryKind, ErrorKind>(ErrorKind::Unsupported),
        },
{
    if str_equals(mime_type, "application/vnd.google-apps.folder") {
        Ok(EntryKind::Directory)
    } else if str_equals(mime_type, "application/vnd.google-apps.document") || str_equals(
        mime_type,
        "application/vnd.google-apps.spreadsheet",
    ) || str_equals(mime_type, "application/vnd.google-apps.drawing") || str_equals(
        mime_type,
        "application/vnd.google-apps.form",
    ) || str_equals(mime_type, "application/vnd.google-apps.presentation") || str_equals(
        mime_type,
        "application/vnd.google-apps.drive-sdk",
    ) || str_equals(mime_type, "application/vnd.google-apps.script") {
        Err(ErrorKind::Unsupported)
    } else {
        Ok(EntryKind::RegularFile)
    }
}

/// The mime type that stands for an object whose record names none.
pub open spec fn mime_or_none(mime: Option<Seq<char>>) -> Seq<char> {
    match mime {
        Some(m) => m,
        None => "NONE"@,
    }
}

/// The size that an entry of `kind` gets from a reported size: what was
/// reported for a regular file, and 0 for a directory, a missing size or a
/// negative one.
pub open spec fn entry_size(kind: EntryKind, size: Option<i64>) -> u64 {
    match (kind, size) {
        (EntryKind::RegularFile, Some(s)) => if s >= 0 {
            s as u64
        } else {
            0
        },
        _ => 0,
    }
}

/// A reported time, or the epoch where none was reported.
pub open spec fn time_or_epoch(t: Option<Timestamp>) -> Timestamp {
    match t {
        Some(t) => t,
        None => Timestamp { secs: 0, nanos: 0 },
    }
}

/// The attributes that an object of `kind` with the record `m` gets when it
/// is taken in at the time `now`.
pub open spec fn attr_of(kind: EntryKind, m: RemoteMetadataView, now: Timestamp) -> FileAttr {
    FileAttr {
        ino: 0,
        size: entry_size(kind, m.size),
        blocks: 0,
        atime: time_or_epoch(m.viewed_by_me_time),
        mtime: time_or_epoch(m.modified_time),
        ctime: now,
        crtime: time_or_epoch(m.created_time),
        kind,
        perm: default_perm(kind),
        nlink: 1,
        uid: 0,
        gid: 0,
        rdev: 0,
        blksize: 4096,
        flags: 0,
    }
}

fn or_epoch(t: Option<Timestamp>) -> (r: Timestamp)
    ensures
        r == time_or_epoch(t),
{
    match t {
        Some(t) => t,
        None => Timestamp::epoch(),
    }
}

/// Synthesizes the attributes of an object from its record. Objects in one
/// of the remote's own document formats are refused as unsupported.
pub fn create_file_attr_from_metadata(metadata: &RemoteMetadata, now: Timestamp) -> (r: Result<
    FileAttr,
    ErrorKind,
>)
    ensures
        r == match kind_of_mime(mime_or_none(metadata@.mime_type)) {
            Some(kind) => Ok::<FileAttr, ErrorKind>(attr_of(kind, metadata@, now)),
            None => Err::<FileAttr, ErrorKind>(ErrorKind::Unsupported),
        },
{
    let kind = match &metadata.mime_type {
        Some(m) => convert_mime_type_to_file_type(m.as_str()),
        None => convert_mime_type_to_file_type("NONE"),
    };
    let kind = match kind {
        Ok(k) => k,
        Err(e) => {
            return Err(e);
        },
    };
    let permissions: u16 = match kind {
        EntryKind::Directory => 0o755,
        EntryKind::RegularFile => 0o644,
    };
    let size: u64 = match (kind, metadata.size) {
        (EntryKind::RegularFile, Some(s)) => if s >= 0 {
            s as u64
        } else {
            0
        },
        _ => 0,
    };
    Ok(
        FileAttr {
            ino: 0,
            size,
            blocks: 0,
            atime: or_epoch(metadata.viewed_by_me_time),
            mtime: or_epoch(metadata.modified_time),
            ctime: now,
            crtime: or_epoch(metadata.created_time),
            kind,
            perm: permissions,
            nlink: 1,
            uid: 0,
            gid: 0,
            rdev: 0,
            blksize: 4096,
            flags: 0,
        },
    )
}

/// The ids of `list` that `other` does not hold, in the order of `list`.
pub open spec fn ids_not_in(list: Seq<Seq<char>>, other: Seq<Seq<char>>) -> Seq<Seq<char>> {
    list.filter(|id: Seq<char>| !other.contains(id))
}

fn ids_missing_from(list: &Vec<DriveId>, other: &Vec<DriveId>) -> (r: Vec<DriveId>)
    ensures
        id_views(r@) == ids_not_in(id_views(list@), id_views(other@)),
{
    let mut out: Vec<DriveId> = Vec::new();
    let mut i: usize = 0;
    let ghost keep = |id: Seq<char>| !id_views(other@).contains(id);
    assert(id_views(list@).take(0) =~= Seq::<Seq<char>>::empty());
    while i < list.len()
        invariant
            i <= list.len(),
            keep == |id: Seq<char>| !id_views(other@).contains(id),
            id_views(out@) == id_views(list@).take(i as int).filter(keep),
        decreases list.len() - i,
    {
        let ghost before = id_views(out@);
        let held = contains_id(other, &list[i]);
        proof {
            let views = id_views(list@);
            assert(views.take(i as int + 1) =~= views.take(i as int).push(views[i as int]));
            lemma_filter_push(views.take(i as int), views[i as int], keep);
        }
        if !held {
            out.push(list[i].clone());
            assert(id_views(out@) =~= before.push(id_views(list@)[i as int]));
        }
        i += 1;
    }
    assert(id_views(list@).take(list@.len() as int) =~= id_views(list@));
    out
}

/// The parents to add and the parents to remove that turn the confirmed
/// parents of an object into the staged ones. The remote takes a move only
/// in this form, never as a new list of parents.
#[derive(Debug)]
pub struct ParentDelta {
    pub add: Vec<DriveId>,
    pub remove: Vec<DriveId>,
}

/// The parents that a staged list adds to the confirmed ones; none where no
/// list is staged.
pub open spec fn parents_to_add(
    confirmed: Option<Seq<Seq<char>>>,
    pending: Option<Seq<Seq<char>>>,
) -> Seq<Seq<char>> {
    match pending {
        Some(p) => ids_not_in(
            p,
            match confirmed {
                Some(o) => o,
                None => Seq::empty(),
            },
        ),
        None => Seq::empty(),
    }
}

/// The confirmed parents that a staged list leaves out; none where no list
/// is staged.
pub open spec fn parents_to_remove(
    confirmed: Option<Seq<Seq<char>>>,
    pending: Option<Seq<Seq<char>>>,
) -> Seq<Seq<char>> {
    match (confirmed, pending) {
        (Some(o), Some(p)) => ids_not_in(o, p),
        _ => Seq::empty(),
    }
}

/// Computes the parents to add and to remove from the confirmed and the
/// staged parents of an object.
pub fn parent_delta(confirmed: &Option<Vec<DriveId>>, pending: &Option<Vec<DriveId>>) -> (r:
    ParentDelta)
    ensures
        id_views(r.add@) == parents_to_add(opt_ids_view(*confirmed), opt_ids_view(*pending)),
        id_views(r.remove@) == parents_to_remove(opt_ids_view(*confirmed), opt_ids_view(*pending)),
{
    let none: Vec<DriveId> = Vec::new();
    assert(id_views(none@) =~= Seq::<Seq<char>>::empty());
    match pending {
        Some(p) => {
            match confirmed {
                Some(o) => ParentDelta {
                    add: ids_missing_from(p, o),
                    remove: ids_missing_from(o, p),
                },
                None => {
                    let add = ids_missing_from(p, &none);
                    ParentDelta { add, remove: none }
                },
            }
        },
        None => {
            let add: Vec<DriveId> = Vec::new();
            assert(id_views(add@) =~= Seq::<Seq<char>>::empty());
            ParentDelta { add, remove: none }
        },
    }
}

/// Whether a text is a well-formed media type, as `mime::Mime::from_str`
/// judges it.
pub uninterp spec fn mime_is_valid(text: Seq<char>) -> bool;

/// Calls `mime::Mime::from_str` and reports whether it accepted the text.
/// The contract only gives the outcome a name; it was not proved.
#[verifier::external_body]
fn mime_parses(text: &str) -> (r: bool)
    ensures
        r == mime_is_valid(text@),
{
    <mime::Mime as std::str::FromStr>::from_str(text).is_ok()
}

/// The media type that an upload of a record is labelled with: the record's
/// own, or `*/*` where it names none.
pub open spec fn upload_mime(mime: Option<Seq<char>>) -> Seq<char> {
    match mime {
        Some(m) => m,
        None => "*/*"@,
    }
}

/// Decides what `get_mime_from_file_metadata` answers once it is known
/// whether the chosen media type is well formed.
pub fn checked_mime(text: String, valid: bool) -> (r: Result<String, ErrorKind>)
    ensures
        valid ==> r is Ok && r->Ok_0@ == text@,
        !valid ==> r == Err::<String, ErrorKind>(ErrorKind::InvalidArgument),
{
    if valid {
        Ok(text)
    } else {
        Err(ErrorKind::InvalidArgument)
    }
}

/// The media type to label an upload of `file` with. A record whose media
/// type is not well formed is refused as an invalid argument.
pub fn get_mime_from_file_metadata(file: &RemoteMetadata) -> (r: Result<String, ErrorKind>)
    ensures
        mime_is_valid(upload_mime(file@.mime_type)) ==> r is Ok && r->Ok_0@ == upload_mime(
            file@.mime_type,
        ),
        !mime_is_valid(upload_mime(file@.mime_type)) ==> r == Err::<String, ErrorKind>(
            ErrorKind::InvalidArgument,
        ),
{
    let text = match &file.mime_type {
        Some(m) => m.clone(),
        None => String::from_str("*/*"),
    };
    let valid = mime_parses(text.as_str());
    checked_mime(text, valid)
}

} // verus!
