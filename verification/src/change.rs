use crate::attr::Timestamp;
use crate::drive_id::{opt_id_view, DriveId};
use crate::metadata::{RemoteMetadata, RemoteMetadataView};
use crate::text::{opt_text, str_equals};
use vstd::prelude::*;

verus! {

/// What a change of the remote is about.
#[derive(Debug)]
pub enum ChangeType {
    /// A shared drive changed.
    Drive,
    /// An object changed; the record holds what the remote reports of it.
    File(RemoteMetadata),
    /// An object is gone.
    Removed,
    /// A change of a type that is not known.
    Unknown,
}

/// The mathematical value of a `ChangeType`.
pub enum ChangeTypeView {
    Drive,
    File(RemoteMetadataView),
    Removed,
    Unknown,
}

impl View for ChangeType {
    type V = ChangeTypeView;

    open spec fn view(&self) -> ChangeTypeView {
        match self {
            ChangeType::Drive => ChangeTypeView::Drive,
            ChangeType::File(m) => ChangeTypeView::File(m@),
            ChangeType::Removed => ChangeTypeView::Removed,
            ChangeType::Unknown => ChangeTypeView::Unknown,
        }
    }
}

/// One normalized record of the remote change feed.
#[derive(Debug)]
pub struct Change {
    pub id: DriveId,
    pub kind: ChangeType,
    pub time: Timestamp,
}

/// The mathematical value of a `Change`.
pub struct ChangeView {
    pub id: Seq<char>,
    pub kind: ChangeTypeView,
    pub time: Timestamp,
}

impl View for Change {
    type V = ChangeView;

    open spec fn view(&self) -> ChangeView {
        ChangeView { id: self.id@, kind: self.kind@, time: self.time }
    }
}

/// One record of the change feed as the remote sends it.
#[derive(Debug)]
pub struct DriveChange {
    pub file_id: Option<DriveId>,
    pub change_type: Option<String>,
    pub removed: Option<bool>,
    pub time: Option<Timestamp>,
    pub file: Option<RemoteMetadata>,
    /// Whether the record carries the description of a shared drive.
    pub has_drive: bool,
}

/// Why a record of the change feed cannot be used.
#[derive(Debug, Clone, Copy, PartialEq, Eq, Structural)]
pub enum ChangeError {
    /// The record names no object.
    MissingFileId,
    /// The record is about a shared drive and describes none.
    MissingDrive,
    /// The record is about an object and describes none.
    MissingFile,
    /// The record has no type.
    MissingChangeType,
    /// The record has no time.
    MissingTime,
}

/// The mathematical value of an optional record.
pub open spec fn opt_record_view(m: Option<RemoteMetadata>) -> Option<RemoteMetadataView> {
    match m {
        Some(m) => Some(m@),
        None => None,
    }
}

/// What a raw record is about: a removal where it says so, else what its
/// type names, provided the record describes it. A type that is neither
/// `drive` nor `file` gives a change of unknown type.
pub open spec fn kind_of_change(
    change_type: Option<Seq<char>>,
    file: Option<RemoteMetadataView>,
    has_drive: bool,
    removed: bool,
) -> Result<ChangeTypeView, ChangeError> {
    if removed {
        Ok(ChangeTypeView::Removed)
    } else if change_type is None {
        Err(ChangeError::MissingChangeType)
    } else if change_type->Some_0 == "drive"@ {
        if has_drive {
            Ok(ChangeTypeView::Drive)
        } else {
            Err(ChangeError::MissingDrive)
        }
    } else if change_type->Some_0 == "file"@ {
        match file {
            Some(m) => Ok(ChangeTypeView::File(m)),
            None => Err(ChangeError::MissingFile),
        }
    } else {
        Ok(ChangeTypeView::Unknown)
    }
}

/// The mathematical value of a result that holds a `ChangeType`.
pub open spec fn kind_result_view(r: Result<ChangeType, ChangeError>) -> Result<
    ChangeTypeView,
    ChangeError,
> {
    match r {
        Ok(k) => Ok(k@),
        Err(e) => Err(e),
    }
}

impl ChangeType {
    /// Decides what a raw record is about.
    pub fn from_drive_change(
        change_type: Option<String>,
        file: Option<RemoteMetadata>,
        has_drive: bool,
        removed: bool,
    ) -> (r: Result<ChangeType, ChangeError>)
        ensures
            kind_result_view(r) == kind_of_change(
                opt_text(change_type),
                opt_record_view(file),
                has_drive,
                removed,
            ),
    {
        if removed {
            return Ok(ChangeType::Removed);
        }
        match change_type {
            Some(change_type) => {
                if str_equals(change_type.as_str(), "drive") {
                    if has_drive {
                        Ok(ChangeType::Drive)
                    } else {
                        Err(ChangeError::MissingDrive)
                    }
                } else if str_equals(change_type.as_str(), "file") {
                    match file {
                        Some(m) => Ok(ChangeType::File(m)),
                        None => Err(ChangeError::MissingFile),
                    }
                } else {
                    Ok(ChangeType::Unknown)
                }
            },
            None => Err(ChangeError::MissingChangeType),
        }
    }
}

/// The normalized form of a raw record, or why it has none: the record must
/// name an object, be about something it describes, and have a time.
pub open spec fn normalized(
    file_id: Option<Seq<char>>,
    change_type: Option<Seq<char>>,
    removed: Option<bool>,
    time: Option<Timestamp>,
    file: Option<RemoteMetadataView>,
    has_drive: bool,
) -> Result<ChangeView, ChangeError> {
    let kind = kind_of_change(change_type, file, has_drive, removed == Some(true));
    if file_id is None {
        Err(ChangeError::MissingFileId)
    } else if kind is Err {
        Err(kind->Err_0)
    } else if time is None {
        Err(ChangeError::MissingTime)
    } else {
        Ok(ChangeView { id: file_id->Some_0, kind: kind->Ok_0, time: time->Some_0 })
    }
}

/// The mathematical value of a result that holds a `Change`.
pub open spec fn change_result_view(r: Result<Change, ChangeError>) -> Result<
    ChangeView,
    ChangeError,
> {
    match r {
        Ok(c) => Ok(c@),
        Err(e) => Err(e),
    }
}

impl Change {
    /// Normalizes a raw record of the change feed.
    pub fn try_from(drive_change: DriveChange) -> (r: Result<Change, ChangeError>)
        ensures
            change_result_view(r) == normalized(
                opt_id_view(drive_change.file_id),
                opt_text(drive_change.change_type),
                drive_change.removed,
                drive_change.time,
                opt_record_view(drive_change.file),
                drive_change.has_drive,
            ),
    {
        let removed = match drive_change.removed {
            Some(r) => r,
            None => false,
        };
        let id = match drive_change.file_id {
            Some(id) => id,
            None => {
                return Err(ChangeError::MissingFileId);
            },
        };
        let kind = match ChangeType::from_drive_change(
            drive_change.change_type,
            drive_change.file,
            drive_change.has_drive,
            removed,
        ) {
            Ok(k) => k,
            Err(e) => {
                return Err(e);
            },
        };
        let time = match drive_change.time {
            Some(t) => t,
            None => {
                return Err(ChangeError::MissingTime);
            },
        };
        Ok(Change { id, kind, time })
    }
}

/// One page of the change feed as the remote sends it.
#[derive(Debug)]
pub struct ChangeList {
    pub changes: Option<Vec<DriveChange>>,
    /// The token of the next page, where the feed has more.
    pub next_page_token: Option<String>,
    /// The token from which the feed continues later, on its last page.
    pub new_start_page_token: Option<String>,
}

/// What follows a page of a paged answer.
#[derive(Debug)]
pub enum PageStep {
    /// Ask for the page with this token.
    More(String),
    /// The answer is complete.
    Done,
}

/// The records that a page adds to those collected so far.
pub open spec fn page_records<A>(page: Option<Vec<A>>) -> Seq<A> {
    match page {
        Some(list) => list@,
        None => Seq::empty(),
    }
}

/// Takes one page of the change feed in: its records join those collected
/// so far. Where the page names a next page, that is asked for; otherwise
/// the feed is exhausted, and where the page names the token from which the
/// feed continues later, the start token advances to it.
pub fn get_changes_since(
    collected: &mut Vec<DriveChange>,
    start_page_token: &mut Option<String>,
    page: ChangeList,
) -> (r: PageStep)
    ensures
        final(collected)@ == old(collected)@ + page_records(page.changes),
        match page.next_page_token {
            Some(t) => r == PageStep::More(t) && *final(start_page_token) == *old(
                start_page_token,
            ),
            None => r is Done && *final(start_page_token) == (if page.new_start_page_token
                is Some {
                page.new_start_page_token
            } else {
                *old(start_page_token)
            }),
        },
{
    match page.changes {
        Some(mut list) => {
            collected.append(&mut list);
        },
        None => {
            assert(collected@ + Seq::<DriveChange>::empty() =~= collected@);
        },
    }
    match page.next_page_token {
        Some(token) => PageStep::More(token),
        None => {
            if page.new_start_page_token.is_some() {
                *start_page_token = page.new_start_page_token;
            }
            PageStep::Done
        },
    }
}

/// One page of a list of objects as the remote sends it.
#[derive(Debug)]
pub struct FileList {
    pub files: Option<Vec<RemoteMetadata>>,
    /// The token of the next page, where the list has more.
    pub next_page_token: Option<String>,
}

/// Takes one page of a list of objects in: its records join those
/// collected so far, and the next page is asked for where the page names
/// one. A page without a list of objects is an error and adds nothing.
pub fn list_all_files(collected: &mut Vec<RemoteMetadata>, page: FileList) -> (r: Result<
    PageStep,
    crate::errno::ErrorKind,
>)
    ensures
        page.files is None ==> r == Err::<PageStep, crate::errno::ErrorKind>(
            crate::errno::ErrorKind::Io,
        ) && final(collected)@ == old(collected)@,
        page.files is Some ==> final(collected)@ == old(collected)@ + page.files->Some_0@ && r
            == Ok::<PageStep, crate::errno::ErrorKind>(
            match page.next_page_token {
                Some(t) => PageStep::More(t),
                None => PageStep::Done,
            },
        ),
{
    match page.files {
        Some(mut list) => {
            collected.append(&mut list);
        },
        None => {
            return Err(crate::errno::ErrorKind::Io);
        },
    }
    match page.next_page_token {
        Some(token) => Ok(PageStep::More(token)),
        None => Ok(PageStep::Done),
    }
}

/// The normalized form of a raw record, or why it has none.
pub open spec fn normalized_record(c: DriveChange) -> Result<ChangeView, ChangeError> {
    normalized(
        opt_id_view(c.file_id),
        opt_text(c.change_type),
        c.removed,
        c.time,
        opt_record_view(c.file),
        c.has_drive,
    )
}

/// The normalized forms of the records of a feed, in order, or the error of
/// the first record that has none.
pub open spec fn normalized_all(raw: Seq<DriveChange>) -> Result<Seq<ChangeView>, ChangeError>
    decreases raw.len(),
{
    if raw.len() == 0 {
        Ok(Seq::empty())
    } else {
        match normalized_all(raw.drop_last()) {
            Err(e) => Err(e),
            Ok(init) => match normalized_record(raw.last()) {
                Ok(c) => Ok(init.push(c)),
                Err(e) => Err(e),
            },
        }
    }
}

/// A feed fails with the error with which one of its beginnings fails.
pub proof fn lemma_normalized_all_prefix(raw: Seq<DriveChange>, n: int)
    requires
        0 <= n <= raw.len(),
        normalized_all(raw.take(n)) is Err,
    ensures
        normalized_all(raw) == normalized_all(raw.take(n)),
    decreases raw.len() - n,
{
    if n < raw.len() {
        assert(raw.take(n + 1).drop_last() =~= raw.take(n));
        lemma_normalized_all_prefix(raw, n + 1);
    } else {
        assert(raw.take(n) =~= raw);
    }
}

/// The mathematical value of each change of a list.
pub open spec fn change_list_view(list: Seq<Change>) -> Seq<ChangeView> {
    list.map_values(|c: Change| c@)
}

/// The mathematical value of a result that holds a list of changes.
pub open spec fn changes_result_view(r: Result<Vec<Change>, ChangeError>) -> Result<
    Seq<ChangeView>,
    ChangeError,
> {
    match r {
        Ok(list) => Ok(change_list_view(list@)),
        Err(e) => Err(e),
    }
}

/// Normalizes the records of the change feed, in order. The first record
/// that cannot be used makes the whole feed fail with its error.
pub fn get_changes(raw: Vec<DriveChange>) -> (r: Result<Vec<Change>, ChangeError>)
    ensures
        changes_result_view(r) == normalized_all(raw@),
{
    let mut out: Vec<Change> = Vec::new();
    proof {
        assert(raw@.take(0) =~= Seq::<DriveChange>::empty());
        assert(change_list_view(out@) =~= Seq::<ChangeView>::empty());
    }
    for record in it: raw
        invariant
            it.seq() == raw@,
            normalized_all(raw@.take(it.index() as int)) == Ok::<Seq<ChangeView>, ChangeError>(
                change_list_view(out@),
            ),
    {
        let ghost before = change_list_view(out@);
        proof {
            assert(raw@.take(it.index() + 1).drop_last() =~= raw@.take(it.index() as int));
            assert(raw@.take(it.index() + 1).last() == record);
        }
        match Change::try_from(record) {
            Ok(c) => {
                out.push(c);
                assert(change_list_view(out@) =~= before.push(c@));
            },
            Err(e) => {
                proof {
                    lemma_normalized_all_prefix(raw@, it.index() + 1);
                }
                return Err(e);
            },
        }
    }
    proof {
        assert(raw@.take(raw@.len() as int) =~= raw@);
    }
    Ok(out)
}

} // verus!
