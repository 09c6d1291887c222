use crate::attr::{EntryKind, FileAttr};
use crate::drive_id::{root_alias, DriveId};
use crate::entry::FileMetadataView;
use crate::errno::ErrorKind;
use crate::provider::listing::metadata_views;
use crate::request::{
    ProviderLookupRequest, ProviderMetadataRequest, ProviderOpenFileRequest,
    ProviderReadContentRequest, ProviderReadDirRequest,
    ProviderReleaseFileRequest, ProviderRenameRequest, ProviderResponse, ProviderSetAttrRequest,
    ProviderWriteContentRequest,
};
use crate::settings::duration_secs;
use std::collections::HashMap;
use std::time::Duration;
use vstd::prelude::*;
use vstd::std_specs::iter::IteratorSpec;

verus! {

/// The bijective map of the `bimap` crate, whose inside Verus does not see.
#[verifier::external_type_specification]
#[verifier::external_body]
#[verifier::reject_recursive_types(L)]
#[verifier::reject_recursive_types(R)]
#[verifier::reject_recursive_types(LS)]
#[verifier::reject_recursive_types(RS)]
pub struct ExBiHashMap<L, R, LS, RS>(bimap::BiHashMap<L, R, LS, RS>);

/// The table that aliases inode numbers and remote ids.
pub type InoMap = bimap::BiHashMap<u64, String>;

/// The pairs that a bijective map holds, as a map from the left value to
/// the right one.
pub uninterp spec fn pairs_of(m: InoMap) -> Map<u64, Seq<char>>;

/// Whether some left value is paired with `right`.
pub open spec fn has_right(pairs: Map<u64, Seq<char>>, right: Seq<char>) -> bool {
    exists|l: u64| pairs.contains_key(l) && #[trigger] pairs[l] == right
}

/// The pairs without the one whose right value is `right`.
pub open spec fn without_right(pairs: Map<u64, Seq<char>>, right: Seq<char>) -> Map<
    u64,
    Seq<char>,
> {
    pairs.restrict(Set::new(|l: u64| pairs.contains_key(l) && pairs[l] != right))
}

/// Whether no two left values are paired with the same right value.
pub open spec fn one_to_one(pairs: Map<u64, Seq<char>>) -> bool {
    forall|a: u64, b: u64|
        pairs.contains_key(a) && pairs.contains_key(b) && #[trigger] pairs[a] == #[trigger] pairs[b]
            ==> a == b
}

/// Calls `BiHashMap::new` of the `bimap` crate, which makes a map without
/// pairs. Not proved.
#[verifier::external_body]
fn bimap_new() -> (m: InoMap)
    ensures
        pairs_of(m).dom() == Set::<u64>::empty(),
{
    bimap::BiHashMap::new()
}

/// Calls `BiHashMap::get_by_left` of the `bimap` crate, which hands out the
/// right value paired with `left`, if there is one. Not proved.
#[verifier::external_body]
fn bimap_get_by_left(m: &InoMap, left: u64) -> (r: Option<&String>)
    ensures
        r is Some == pairs_of(*m).contains_key(left),
        r is Some ==> r.unwrap()@ == pairs_of(*m)[left],
{
    m.get_by_left(&left)
}

/// Calls `BiHashMap::get_by_right` of the `bimap` crate, which hands out
/// the left value paired with `right`, if there is one. Not proved.
#[verifier::external_body]
fn bimap_get_by_right(m: &InoMap, right: &String) -> (r: Option<u64>)
    ensures
        r is Some == has_right(pairs_of(*m), right@),
        r is Some ==> pairs_of(*m).contains_key(r.unwrap()) && pairs_of(*m)[r.unwrap()] == right@,
{
    m.get_by_right(right).copied()
}

/// Calls `BiHashMap::remove_by_right` of the `bimap` crate, which takes out
/// the pair whose right value is `right` and hands out its left value, if
/// there is one. Not proved.
#[verifier::external_body]
fn bimap_remove_by_right(m: &mut InoMap, right: &String) -> (r: Option<u64>)
    ensures
        r is Some == has_right(pairs_of(*old(m)), right@),
        r is Some ==> pairs_of(*old(m)).contains_key(r.unwrap()) && pairs_of(*old(m))[r.unwrap()]
            == right@,
        pairs_of(*final(m)) == without_right(pairs_of(*old(m)), right@),
{
    m.remove_by_right(right).map(|pair| pair.0)
}

/// Calls `BiHashMap::insert` of the `bimap` crate, which pairs `left` with
/// `right` after taking out any pair that holds `left` or `right` already.
/// Not proved.
#[verifier::external_body]
fn bimap_insert(m: &mut InoMap, left: u64, right: String)
    ensures
        pairs_of(*final(m)) == without_right(pairs_of(*old(m)), right@).insert(left, right@),
{
    m.insert(left, right);
}

/// Reads the constant `FUSE_ROOT_ID` of the `fuser` crate, the inode number
/// that the kernel uses for the root of a mount, which is 1. Not proved.
#[verifier::external_body]
fn fuse_root_id() -> (r: u64)
    ensures
        r == 1,
{
    fuser::FUSE_ROOT_ID
}

/// One line of a directory listing as the kernel wants it.
#[derive(Debug)]
pub struct DirectoryEntry {
    pub ino: u64,
    /// The position after this line, from which a later listing continues.
    pub offset: i64,
    pub kind: EntryKind,
    pub name: String,
}

/// The answer that is given to the kernel.
#[derive(Debug)]
pub enum KernelReply {
    /// A directory entry was found.
    Entry { ttl: Duration, attr: FileAttr, generation: u64 },
    /// The attributes of an inode.
    Attr { ttl: Duration, attr: FileAttr },
    /// A file was opened.
    Opened { fh: u64, flags: u32 },
    /// Bytes that were read.
    Data(Vec<u8>),
    /// The number of bytes that were written.
    Written(u32),
    /// The lines of a directory listing; the caller hands them to the
    /// kernel until its buffer is full.
    Directory(Vec<DirectoryEntry>),
    /// Success without a value.
    Done,
    /// Failure with an error number.
    Error(i32),
}

/// The mathematical value of a `FuseAdapter`.
pub struct AdapterView {
    /// The remote id behind each inode number.
    pub ids: Map<u64, Seq<char>>,
    /// The handles that are open on each inode.
    pub handles: Map<u64, Seq<u64>>,
    /// The next inode number to hand out.
    pub next_ino: u64,
}

impl AdapterView {
    /// The invariant of the adapter: inode numbers and ids alias each other
    /// one to one, and every inode number in use lies below the next one,
    /// which lies above the number of the root.
    pub open spec fn valid(self) -> bool {
        &&& one_to_one(self.ids)
        &&& forall|ino: u64| #[trigger] self.ids.contains_key(ino) ==> ino < self.next_ino
        &&& self.next_ino > 1
    }

    /// The inode number of `id`, where it has one.
    pub open spec fn ino_of(self, id: Seq<char>) -> u64 {
        choose|ino: u64| self.ids.contains_key(ino) && #[trigger] self.ids[ino] == id
    }

    /// The adapter in which `id` has an inode number: its own where it had
    /// one, else the next one, unless the numbers have run out.
    pub open spec fn with_id(self, id: Seq<char>) -> AdapterView {
        if has_right(self.ids, id) || self.next_ino == u64::MAX {
            self
        } else {
            AdapterView {
                ids: self.ids.insert(self.next_ino, id),
                next_ino: (self.next_ino + 1) as u64,
                ..self
            }
        }
    }

    /// The inode number that `id` has after `with_id`, if any.
    pub open spec fn ino_for(self, id: Seq<char>) -> Option<u64> {
        if has_right(self.ids, id) {
            Some(self.ino_of(id))
        } else if self.next_ino == u64::MAX {
            None
        } else {
            Some(self.next_ino)
        }
    }

    /// Whether the handle `fh` is recorded under some inode.
    pub open spec fn knows_handle(self, fh: u64) -> bool {
        exists|ino: u64| self.handles.contains_key(ino) && (#[trigger] self.handles[ino]).contains(fh)
    }

    /// The adapter with the handle `fh` recorded under `ino`, after the
    /// handles recorded there before.
    pub open spec fn with_handle(self, ino: u64, fh: u64) -> AdapterView {
        AdapterView {
            handles: self.handles.insert(
                ino,
                if self.handles.contains_key(ino) {
                    self.handles[ino].push(fh)
                } else {
                    seq![fh]
                },
            ),
            ..self
        }
    }
}

/// The handles of each list, as a sequence.
pub open spec fn handle_lists(m: Map<u64, Vec<u64>>) -> Map<u64, Seq<u64>> {
    m.map_values(|v: Vec<u64>| v@)
}

/// The side of the filesystem that faces the kernel: it aliases remote ids
/// by inode numbers, remembers which handles are open on which inode, and
/// turns the provider's answers into answers for the kernel.
pub struct DriveFilesystem {
    entry_ids: InoMap,
    ino_to_file_handles: HashMap<u64, Vec<u64>>,
    next_ino: u64,
}

impl View for DriveFilesystem {
    type V = AdapterView;

    closed spec fn view(&self) -> AdapterView {
        AdapterView {
            ids: pairs_of(self.entry_ids),
            handles: handle_lists(self.ino_to_file_handles@),
            next_ino: self.next_ino,
        }
    }
}

/// The time for which the kernel may cache an answer, in seconds.
pub open spec fn ttl_secs() -> u64 {
    2
}

impl DriveFilesystem {
    /// The invariant of the adapter.
    pub open spec fn wf(&self) -> bool {
        self@.valid()
    }

    /// An adapter that knows no inode yet and hands out inode numbers from
    /// 222 on.
    pub fn new() -> (r: Self)
        ensures
            r.wf(),
            r@.ids == Map::<u64, Seq<char>>::empty(),
            r@.handles == Map::<u64, Seq<u64>>::empty(),
            r@.next_ino == 222,
    {
        let r = DriveFilesystem {
            entry_ids: bimap_new(),
            ino_to_file_handles: HashMap::new(),
            next_ino: 222,
        };
        proof {
            assert(r@.ids =~= Map::<u64, Seq<char>>::empty());
            assert(r@.handles =~= Map::<u64, Seq<u64>>::empty());
        }
        r
    }

    /// Reserves inode 1 for the root: it aliases the id `root`.
    pub fn init(&mut self)
        requires
            old(self).wf(),
        ensures
            final(self).wf(),
            final(self)@ == (AdapterView {
                ids: without_right(old(self)@.ids, root_alias()).insert(1, root_alias()),
                ..old(self)@
            }),
    {
        let root = fuse_root_id();
        bimap_insert(&mut self.entry_ids, root, DriveId::root().to_string());
        proof {
            let after = self@.ids;
            assert forall|a: u64, b: u64|
                after.contains_key(a) && after.contains_key(b) && #[trigger] after[a]
                    == #[trigger] after[b] implies a == b by {
                if a != 1 && b != 1 {
                    assert(old(self)@.ids[a] == old(self)@.ids[b]);
                }
            }
        }
    }

    /// Hands out the next inode number, which none has had before.
    fn generate_ino(&mut self) -> (r: u64)
        requires
            old(self).wf(),
            old(self)@.next_ino < u64::MAX,
        ensures
            final(self).wf(),
            r == old(self)@.next_ino,
            final(self)@ == (AdapterView {
                next_ino: (old(self)@.next_ino + 1) as u64,
                ..old(self)@
            }),
    {
        let ino = self.next_ino;
        self.next_ino = self.next_ino + 1;
        ino
    }

    /// The remote id that the inode `ino` aliases.
    pub fn get_id_from_ino(&self, ino: u64) -> (r: Option<DriveId>)
        ensures
            r is Some == self@.ids.contains_key(ino),
            r is Some ==> r.unwrap()@ == self@.ids[ino],
    {
        match bimap_get_by_left(&self.entry_ids, ino) {
            Some(id) => Some(DriveId::new(id.as_str())),
            None => None,
        }
    }

    /// Gives `id` the next inode number.
    fn add_id(&mut self, id: &DriveId) -> (r: u64)
        requires
            old(self).wf(),
            old(self)@.next_ino < u64::MAX,
            !has_right(old(self)@.ids, id@),
        ensures
            final(self).wf(),
            r == old(self)@.next_ino,
            final(self)@ == old(self)@.with_id(id@),
    {
        let ino = self.generate_ino();
        bimap_insert(&mut self.entry_ids, ino, id.to_string());
        proof {
            let before = old(self)@.ids;
            assert(without_right(before, id@) =~= before) by {
                assert forall|l: u64| before.contains_key(l) implies before[l] != id@ by {
                    if before[l] == id@ {
                        assert(has_right(before, id@));
                    }
                }
            }
            let after = self@.ids;
            assert forall|a: u64, b: u64|
                after.contains_key(a) && after.contains_key(b) && #[trigger] after[a]
                    == #[trigger] after[b] implies a == b by {
                if a != ino && b != ino {
                    assert(before[a] == before[b]);
                } else if a != b {
                    let other = if a == ino {
                        b
                    } else {
                        a
                    };
                    assert(before.contains_key(other) && before[other] == id@);
                    assert(has_right(before, id@));
                }
            }
        }
        ino
    }

    /// The inode number of `id`: the one it has, or a new one; none only
    /// where `id` has none and the numbers have run out.
    pub fn get_ino_from_id(&mut self, id: &DriveId) -> (r: Option<u64>)
        requires
            old(self).wf(),
        ensures
            final(self).wf(),
            final(self)@ == old(self)@.with_id(id@),
            r == old(self)@.ino_for(id@),
            r is Some ==> final(self)@.ids.contains_key(r.unwrap()) && final(self)@.ids[r.unwrap()]
                == id@,
    {
        let key = id.to_string();
        match bimap_get_by_right(&self.entry_ids, &key) {
            Some(ino) => {
                proof {
                    let found = self@.ino_of(id@);
                    assert(self@.ids.contains_key(found) && self@.ids[found] == id@);
                }
                Some(ino)
            },
            None => {
                if self.next_ino == u64::MAX {
                    None
                } else {
                    Some(self.add_id(id))
                }
            },
        }
    }

    /// Forgets the inode number of `id` and hands it out; an id without one
    /// is not found.
    pub fn remove_id(&mut self, id: &DriveId) -> (r: Result<u64, ErrorKind>)
        requires
            old(self).wf(),
        ensures
            final(self).wf(),
            final(self)@ == (AdapterView {
                ids: without_right(old(self)@.ids, id@),
                ..old(self)@
            }),
            has_right(old(self)@.ids, id@) ==> r == Ok::<u64, ErrorKind>(old(self)@.ino_of(id@)),
            !has_right(old(self)@.ids, id@) ==> r == Err::<u64, ErrorKind>(ErrorKind::NotFound),
    {
        let key = id.to_string();
        match bimap_remove_by_right(&mut self.entry_ids, &key) {
            Some(ino) => {
                proof {
                    let found = old(self)@.ino_of(id@);
                    assert(old(self)@.ids.contains_key(found) && old(self)@.ids[found] == id@);
                }
                Ok(ino)
            },
            None => Err(ErrorKind::NotFound),
        }
    }

    /// The handles that are open on the inode `ino`.
    pub fn get_fh_from_ino(&self, ino: u64) -> (r: Option<&Vec<u64>>)
        ensures
            r is Some == self@.handles.contains_key(ino),
            r is Some ==> r.unwrap()@ == self@.handles[ino],
    {
        self.ino_to_file_handles.get(&ino)
    }

    /// An inode on which the handle `fh` is open, if there is one.
    pub fn get_ino_from_fh(&self, fh: u64) -> (r: Option<u64>)
        ensures
            r is Some == self@.knows_handle(fh),
            r is Some ==> self@.handles.contains_key(r.unwrap()) && self@.handles[r.unwrap()].contains(
                fh,
            ),
    {
        broadcast use vstd::std_specs::hash::axiom_spec_keys_iter;

        let keys = self.ino_to_file_handles.keys();
        for ino in it: keys
            invariant
                it.seq().unref().to_set() == self.ino_to_file_handles@.dom(),
                forall|j: int|
                    0 <= j < it.index() ==> !self@.handles[*(#[trigger] it.seq()[j])].contains(fh),
                it.index() == it.seq().len() ==> !self@.knows_handle(fh),
        {
            assert(it.seq().unref()[it.index() as int] == *ino);
            assert(it.seq().unref().to_set().contains(*ino));
            assert(self.ino_to_file_handles@.contains_key(*ino));
            assert(self@.handles.contains_key(*ino));
            assert(self@.handles[*ino] == self.ino_to_file_handles@[*ino]@);
            match self.ino_to_file_handles.get(ino) {
                Some(fhs) => {
                    if contains_handle(fhs, fh) {
                        return Some(*ino);
                    }
                },
                None => {},
            }
            assert(!self@.handles[*it.seq()[it.index() as int]].contains(fh));
            assert(it.index() + 1 == it.seq().len() ==> !self@.knows_handle(fh)) by {
                if it.index() + 1 == it.seq().len() && self@.knows_handle(fh) {
                    let at = choose|at: u64|
                        self@.handles.contains_key(at) && (#[trigger] self@.handles[at]).contains(
                            fh,
                        );
                    assert(it.seq().unref().to_set().contains(at));
                    let j = choose|j: int|
                        0 <= j < it.seq().unref().len() && it.seq().unref()[j] == at;
                    assert(*it.seq()[j] == at);
                }
            }
        }
        None
    }

    /// Records that the handle `fh` is open on the inode `ino`.
    pub fn add_fh(&mut self, ino: u64, fh: u64)
        requires
            old(self).wf(),
        ensures
            final(self).wf(),
            final(self)@ == old(self)@.with_handle(ino, fh),
    {
        let mut list: Vec<u64> = match self.ino_to_file_handles.remove(&ino) {
            Some(list) => list,
            None => Vec::new(),
        };
        list.push(fh);
        self.ino_to_file_handles.insert(ino, list);
        proof {
            assert(self@.handles =~= old(self)@.with_handle(ino, fh).handles);
        }
    }

    /// Forgets that the handle `fh` is open; a handle that is recorded
    /// nowhere is not found. The handle leaves the list of one inode that
    /// holds it, entirely.
    pub fn remove_fh(&mut self, fh: u64) -> (r: Result<(), ErrorKind>)
        requires
            old(self).wf(),
        ensures
            final(self).wf(),
            final(self)@.ids == old(self)@.ids,
            final(self)@.next_ino == old(self)@.next_ino,
            !old(self)@.knows_handle(fh) ==> r == Err::<(), ErrorKind>(ErrorKind::NotFound)
                && final(self)@ == old(self)@,
            old(self)@.knows_handle(fh) ==> r is Ok && exists|ino: u64|
                #![trigger old(self)@.handles[ino]]
                old(self)@.handles.contains_key(ino) && old(self)@.handles[ino].contains(fh)
                    && final(self)@.handles == old(self)@.handles.insert(
                    ino,
                    old(self)@.handles[ino].filter(|h: u64| h != fh),
                ),
    {
        let ino = match self.get_ino_from_fh(fh) {
            Some(ino) => ino,
            None => {
                return Err(ErrorKind::NotFound);
            },
        };
        let list = match self.ino_to_file_handles.remove(&ino) {
            Some(list) => list,
            None => {
                return Err(ErrorKind::NotFound);
            },
        };
        let kept = handles_without(&list, fh);
        self.ino_to_file_handles.insert(ino, kept);
        proof {
            assert(self@.handles =~= old(self)@.handles.insert(
                ino,
                old(self)@.handles[ino].filter(|h: u64| h != fh),
            ));
        }
        Ok(())
    }
}

/// The mathematical value of a `DirectoryEntry`.
pub struct DirectoryEntryView {
    pub ino: u64,
    pub offset: i64,
    pub kind: EntryKind,
    pub name: Seq<char>,
}

impl View for DirectoryEntry {
    type V = DirectoryEntryView;

    open spec fn view(&self) -> DirectoryEntryView {
        DirectoryEntryView { ino: self.ino, offset: self.offset, kind: self.kind, name: self.name@ }
    }
}

/// The mathematical value of each line of a listing.
pub open spec fn line_views(lines: Seq<DirectoryEntry>) -> Seq<DirectoryEntryView> {
    lines.map_values(|l: DirectoryEntry| l@)
}

/// The mathematical value of a `KernelReply`; times to live are given in
/// whole seconds.
pub enum KernelReplyView {
    Entry { ttl: u64, attr: FileAttr, generation: u64 },
    Attr { ttl: u64, attr: FileAttr },
    Opened { fh: u64, flags: u32 },
    Data(Seq<u8>),
    Written(u32),
    Directory(Seq<DirectoryEntryView>),
    Done,
    Error(i32),
}

impl View for KernelReply {
    type V = KernelReplyView;

    open spec fn view(&self) -> KernelReplyView {
        match self {
            KernelReply::Entry { ttl, attr, generation } => KernelReplyView::Entry {
                ttl: duration_secs(*ttl),
                attr: *attr,
                generation: *generation,
            },
            KernelReply::Attr { ttl, attr } => KernelReplyView::Attr {
                ttl: duration_secs(*ttl),
                attr: *attr,
            },
            KernelReply::Opened { fh, flags } => KernelReplyView::Opened { fh: *fh, flags: *flags },
            KernelReply::Data(bytes) => KernelReplyView::Data(bytes@),
            KernelReply::Written(n) => KernelReplyView::Written(*n),
            KernelReply::Directory(lines) => KernelReplyView::Directory(line_views(lines@)),
            KernelReply::Done => KernelReplyView::Done,
            KernelReply::Error(code) => KernelReplyView::Error(*code),
        }
    }
}

/// The error number that answers the kernel when the provider did not give
/// the expected answer: the provider's own error where it reported one, an
/// I/O error for anything else.
pub open spec fn failure_code(response: ProviderResponse) -> i32 {
    match response {
        ProviderResponse::Error(kind) => kind.code(),
        _ => ErrorKind::Io.code(),
    }
}

/// The position from which the provider is asked to list, for the position
/// that the kernel names: a negative one counts as the start.
pub open spec fn listing_start(offset: i64) -> u64 {
    if offset < 0 {
        0
    } else {
        offset as u64
    }
}

/// The position after the line `i` of a listing that starts at `offset`;
/// it stays at the largest position once that is reached.
pub open spec fn next_offset(offset: i64, i: int) -> i64 {
    if listing_start(offset) + i + 1 > i64::MAX {
        i64::MAX
    } else {
        (listing_start(offset) + i + 1) as i64
    }
}

impl AdapterView {
    /// The adapter after each of `records` got an inode number, in order.
    pub open spec fn with_ids(self, records: Seq<FileMetadataView>) -> AdapterView
        decreases records.len(),
    {
        if records.len() == 0 {
            self
        } else {
            self.with_ids(records.drop_last()).with_id(records.last().id)
        }
    }

    /// Whether each of `records` gets an inode number when they are given
    /// numbers in order.
    pub open spec fn can_number(self, records: Seq<FileMetadataView>) -> bool
        decreases records.len(),
    {
        if records.len() == 0 {
            true
        } else {
            self.can_number(records.drop_last()) && self.with_ids(records.drop_last()).ino_for(
                records.last().id,
            ) is Some
        }
    }

    /// The lines of a listing of `records` that starts at `offset`.
    pub open spec fn lines(self, records: Seq<FileMetadataView>, offset: i64) -> Seq<
        DirectoryEntryView,
    >
        decreases records.len(),
    {
        if records.len() == 0 {
            Seq::empty()
        } else {
            let init = records.drop_last();
            self.lines(init, offset).push(
                DirectoryEntryView {
                    ino: self.with_ids(init).ino_for(records.last().id)->Some_0,
                    offset: next_offset(offset, init.len() as int),
                    kind: records.last().attr.kind,
                    name: records.last().name,
                },
            )
        }
    }
}

/// The answer to the kernel when the provider did not give the expected
/// answer.
pub fn failure_reply(response: &ProviderResponse) -> (r: KernelReply)
    ensures
        r@ == KernelReplyView::Error(failure_code(*response)),
{
    match response {
        ProviderResponse::Error(kind) => KernelReply::Error(kind.errno()),
        _ => KernelReply::Error(ErrorKind::Io.errno()),
    }
}

/// The position from which the provider is asked to list.
pub fn readdir_start(offset: i64) -> (r: u64)
    ensures
        r == listing_start(offset),
{
    if offset < 0 {
        0
    } else {
        offset as u64
    }
}

/// The answer to an access check: permitted, always.
pub fn access_reply() -> (r: KernelReply)
    ensures
        r@ == KernelReplyView::Done,
{
    KernelReply::Done
}

/// The answer to a read: the bytes, or the failure.
pub fn read_data_reply(response: ProviderResponse) -> (r: KernelReply)
    ensures
        r@ == match response {
            ProviderResponse::ReadContent(data) => KernelReplyView::Data(data@),
            _ => KernelReplyView::Error(failure_code(response)),
        },
{
    match response {
        ProviderResponse::ReadContent(data) => KernelReply::Data(data),
        other => failure_reply(&other),
    }
}

/// The answer to a write: the number of bytes written, or the failure.
pub fn write_size_reply(response: ProviderResponse) -> (r: KernelReply)
    ensures
        r@ == match response {
            ProviderResponse::WriteSize(n) => KernelReplyView::Written(n),
            _ => KernelReplyView::Error(failure_code(response)),
        },
{
    match response {
        ProviderResponse::WriteSize(n) => KernelReply::Written(n),
        other => failure_reply(&other),
    }
}

/// The answer to a rename: success, or the failure.
pub fn rename_reply(response: ProviderResponse) -> (r: KernelReply)
    ensures
        r@ == match response {
            ProviderResponse::Rename => KernelReplyView::Done,
            _ => KernelReplyView::Error(failure_code(response)),
        },
{
    match response {
        ProviderResponse::Rename => KernelReply::Done,
        other => failure_reply(&other),
    }
}

/// The answer to a request for attributes, which the provider answers with
/// the metadata of the entry: the attributes under the inode number `ino`.
pub fn getattr_reply(ino: u64, response: ProviderResponse) -> (r: KernelReply)
    ensures
        r@ == match response {
            ProviderResponse::Metadata(m) => KernelReplyView::Attr {
                ttl: ttl_secs(),
                attr: FileAttr { ino, ..m.attr },
            },
            _ => KernelReplyView::Error(failure_code(response)),
        },
{
    match response {
        ProviderResponse::Metadata(metadata) => {
            let mut attr = metadata.attr;
            attr.ino = ino;
            KernelReply::Attr { ttl: Duration::from_secs(2), attr }
        },
        other => failure_reply(&other),
    }
}

/// The answer to a change of attributes: the new attributes under the
/// inode number `ino`.
pub fn setattr_reply(ino: u64, response: ProviderResponse) -> (r: KernelReply)
    ensures
        r@ == match response {
            ProviderResponse::SetAttr(m) => KernelReplyView::Attr {
                ttl: ttl_secs(),
                attr: FileAttr { ino, ..m.attr },
            },
            _ => KernelReplyView::Error(failure_code(response)),
        },
{
    match response {
        ProviderResponse::SetAttr(metadata) => {
            let mut attr = metadata.attr;
            attr.ino = ino;
            KernelReply::Attr { ttl: Duration::from_secs(2), attr }
        },
        other => failure_reply(&other),
    }
}

impl DriveFilesystem {
    /// The answer to a lookup. The entry that was found gets an inode
    /// number if it has none yet, and is reported with it; nothing found is
    /// reported as not found, as is an entry for which no number is left.
    pub fn lookup_reply(&mut self, response: ProviderResponse) -> (r: KernelReply)
        requires
            old(self).wf(),
        ensures
            final(self).wf(),
            match response {
                ProviderResponse::Lookup(Some(m)) => final(self)@ == old(self)@.with_id(m.id@) && r@
                    == (match old(self)@.ino_for(m.id@) {
                    Some(ino) => KernelReplyView::Entry {
                        ttl: ttl_secs(),
                        attr: FileAttr { ino, ..m.attr },
                        generation: 0,
                    },
                    None => KernelReplyView::Error(ErrorKind::NotFound.code()),
                }),
                ProviderResponse::Lookup(None) => final(self)@ == old(self)@ && r@
                    == KernelReplyView::Error(ErrorKind::NotFound.code()),
                _ => final(self)@ == old(self)@ && r@ == KernelReplyView::Error(
                    failure_code(response),
                ),
            },
    {
        match response {
            ProviderResponse::Lookup(Some(metadata)) => {
                match self.get_ino_from_id(&metadata.id) {
                    Some(ino) => {
                        let mut attr = metadata.attr;
                        attr.ino = ino;
                        KernelReply::Entry { ttl: Duration::from_secs(2), attr, generation: 0 }
                    },
                    None => KernelReply::Error(ErrorKind::NotFound.errno()),
                }
            },
            ProviderResponse::Lookup(None) => KernelReply::Error(ErrorKind::NotFound.errno()),
            other => failure_reply(&other),
        }
    }

    /// The answer to an open: the new handle is recorded under the inode
    /// and reported with its open flag word.
    pub fn open_reply(&mut self, ino: u64, response: ProviderResponse) -> (r: KernelReply)
        requires
            old(self).wf(),
        ensures
            final(self).wf(),
            match response {
                ProviderResponse::OpenFile(fh, flags) => final(self)@ == old(self)@.with_handle(
                    ino,
                    fh,
                ) && r@ == (KernelReplyView::Opened { fh, flags: flags.encoded() as u32 }),
                _ => final(self)@ == old(self)@ && r@ == KernelReplyView::Error(
                    failure_code(response),
                ),
            },
    {
        match response {
            ProviderResponse::OpenFile(fh, flags) => {
                self.add_fh(ino, fh);
                let word: i32 = flags.bits();
                KernelReply::Opened { fh, flags: #[verifier::truncate] (word as u32) }
            },
            other => failure_reply(&other),
        }
    }

    /// The answer to a release: the handle is forgotten; a handle that was
    /// recorded nowhere is reported as not found.
    pub fn release_reply(&mut self, fh: u64, response: ProviderResponse) -> (r: KernelReply)
        requires
            old(self).wf(),
        ensures
            final(self).wf(),
            match response {
                ProviderResponse::ReleaseFile => r@ == (if old(self)@.knows_handle(fh) {
                    KernelReplyView::Done
                } else {
                    KernelReplyView::Error(ErrorKind::NotFound.code())
                }) && final(self)@.ids == old(self)@.ids && final(self)@.next_ino == old(
                    self,
                )@.next_ino,
                _ => final(self)@ == old(self)@ && r@ == KernelReplyView::Error(
                    failure_code(response),
                ),
            },
    {
        match response {
            ProviderResponse::ReleaseFile => {
                match self.remove_fh(fh) {
                    Ok(()) => KernelReply::Done,
                    Err(_) => KernelReply::Error(ErrorKind::NotFound.errno()),
                }
            },
            other => failure_reply(&other),
        }
    }

    /// The answer to a directory listing that starts at `offset`: one line
    /// for each entry that the provider reported, each with the inode
    /// number of the entry, which it gets if it has none yet, and with the
    /// position after it. Where the inode numbers run out, the answer is an
    /// I/O error.
    pub fn readdir_reply(&mut self, offset: i64, response: ProviderResponse) -> (r: KernelReply)
        requires
            old(self).wf(),
        ensures
            final(self).wf(),
            match response {
                ProviderResponse::ReadDir(listing) => final(self)@ == old(self)@.with_ids(
                    metadata_views(listing.entries@),
                ) && r@ == (if old(self)@.can_number(metadata_views(listing.entries@)) {
                    KernelReplyView::Directory(
                        old(self)@.lines(metadata_views(listing.entries@), offset),
                    )
                } else {
                    KernelReplyView::Error(ErrorKind::Io.code())
                }),
                _ => final(self)@ == old(self)@ && r@ == KernelReplyView::Error(
                    failure_code(response),
                ),
            },
    {
        let listing = match response {
            ProviderResponse::ReadDir(listing) => listing,
            other => {
                return failure_reply(&other);
            },
        };
        let ghost records = metadata_views(listing.entries@);
        let mut lines: Vec<DirectoryEntry> = Vec::new();
        let mut complete = true;
        let mut i: usize = 0;
        proof {
            assert(records.take(0) =~= Seq::<FileMetadataView>::empty());
            assert(line_views(lines@) =~= Seq::<DirectoryEntryView>::empty());
        }
        while i < listing.entries.len()
            invariant
                i <= listing.entries.len(),
                records == metadata_views(listing.entries@),
                self.wf(),
                self@ == old(self)@.with_ids(records.take(i as int)),
                complete == old(self)@.can_number(records.take(i as int)),
                complete ==> line_views(lines@) == old(self)@.lines(records.take(i as int), offset),
            decreases listing.entries.len() - i,
        {
            proof {
                assert(records.take(i as int + 1).drop_last() =~= records.take(i as int));
                assert(records.take(i as int + 1).last() == listing.entries@[i as int]@);
            }
            let ghost before = line_views(lines@);
            let entry = &listing.entries[i];
            match self.get_ino_from_id(&entry.id) {
                Some(ino) => {
                    if complete {
                        let end: u128 = (readdir_start(offset) as u128) + (i as u128) + 1;
                        let next: i64 = if end > 0x7fff_ffff_ffff_ffff {
                            i64::MAX
                        } else {
                            end as i64
                        };
                        let line = DirectoryEntry {
                            ino,
                            offset: next,
                            kind: entry.attr.kind,
                            name: entry.name.clone(),
                        };
                        lines.push(line);
                        assert(line_views(lines@) =~= before.push(line@));
                    }
                },
                None => {
                    complete = false;
                },
            }
            i += 1;
        }
        assert(records.take(listing.entries.len() as int) =~= records);
        if complete {
            KernelReply::Directory(lines)
        } else {
            KernelReply::Error(ErrorKind::Io.errno())
        }
    }
}

impl AdapterView {
    /// Why no request can be made for the inode `ino`, if so: it aliases no
    /// id.
    pub open spec fn inode_error(self, ino: u64) -> Option<i32> {
        if self.ids.contains_key(ino) {
            None
        } else {
            Some(ErrorKind::NotFound.code())
        }
    }

    /// Why no request can be made for the inode `ino` with the name `name`,
    /// if so: the inode aliases no id, or the name could not be converted
    /// to text.
    pub open spec fn named_error(self, ino: u64, name: Option<String>) -> Option<i32> {
        if !self.ids.contains_key(ino) {
            Some(ErrorKind::NotFound.code())
        } else if name is None {
            Some(ErrorKind::InvalidArgument.code())
        } else {
            None
        }
    }

    /// Why no request can be made for the inode `ino` at `offset`, if so:
    /// the inode aliases no id, or the offset is negative.
    pub open spec fn offset_error(self, ino: u64, offset: i64) -> Option<i32> {
        if !self.ids.contains_key(ino) {
            Some(ErrorKind::NotFound.code())
        } else if offset < 0 {
            Some(ErrorKind::InvalidArgument.code())
        } else {
            None
        }
    }
}

/// Whether a refused request is answered with the error number `code`.
pub open spec fn refused_with<T>(r: Result<T, KernelReply>, code: i32) -> bool {
    r is Err && r->Err_0@ == KernelReplyView::Error(code)
}

impl DriveFilesystem {
    /// The remote id behind the inode `ino`, or the answer to the kernel
    /// that the inode is not found.
    fn id_or_not_found(&self, ino: u64) -> (r: Result<DriveId, KernelReply>)
        ensures
            match self@.inode_error(ino) {
                Some(code) => refused_with(r, code),
                None => r is Ok && r->Ok_0@ == self@.ids[ino],
            },
    {
        match self.get_id_from_ino(ino) {
            Some(id) => Ok(id),
            None => Err(KernelReply::Error(ErrorKind::NotFound.errno())),
        }
    }

    /// The request for a lookup of `name` under the inode `parent`; `name`
    /// is absent where the kernel's name is no valid text.
    pub fn lookup(&self, parent: u64, name: Option<String>) -> (r: Result<
        ProviderLookupRequest,
        KernelReply,
    >)
        ensures
            match self@.named_error(parent, name) {
                Some(code) => refused_with(r, code),
                None => r is Ok && r->Ok_0.parent@ == self@.ids[parent] && r->Ok_0.name@
                    == name->Some_0@,
            },
    {
        let parent_id = match self.id_or_not_found(parent) {
            Ok(id) => id,
            Err(reply) => {
                return Err(reply);
            },
        };
        match name {
            Some(name) => Ok(ProviderLookupRequest::new(parent_id, name)),
            None => Err(KernelReply::Error(ErrorKind::InvalidArgument.errno())),
        }
    }

    /// The request for the attributes of the inode `ino`.
    pub fn getattr(&self, ino: u64) -> (r: Result<ProviderMetadataRequest, KernelReply>)
        ensures
            match self@.inode_error(ino) {
                Some(code) => refused_with(r, code),
                None => r is Ok && r->Ok_0.file_id@ == self@.ids[ino],
            },
    {
        match self.id_or_not_found(ino) {
            Ok(id) => Ok(ProviderMetadataRequest::new(id)),
            Err(reply) => Err(reply),
        }
    }

    /// The request to set attributes of the inode `ino`; times are not
    /// forwarded.
    pub fn setattr(
        &self,
        ino: u64,
        mode: Option<u32>,
        uid: Option<u32>,
        gid: Option<u32>,
        size: Option<u64>,
        fh: Option<u64>,
        flags: Option<u32>,
    ) -> (r: Result<ProviderSetAttrRequest, KernelReply>)
        ensures
            match self@.inode_error(ino) {
                Some(code) => refused_with(r, code),
                None => {
                    &&& r is Ok
                    &&& r->Ok_0.file_id@ == self@.ids[ino]
                    &&& r->Ok_0.mode == mode
                    &&& r->Ok_0.uid == uid
                    &&& r->Ok_0.gid == gid
                    &&& r->Ok_0.size == size
                    &&& r->Ok_0.flags == flags
                    &&& r->Ok_0.fh == fh
                },
            },
    {
        match self.id_or_not_found(ino) {
            Ok(id) => Ok(ProviderSetAttrRequest::new(id, mode, uid, gid, size, flags, fh)),
            Err(reply) => Err(reply),
        }
    }

    /// The request to open the inode `ino` with the open flag word `flags`.
    pub fn open(&self, ino: u64, flags: i32) -> (r: Result<ProviderOpenFileRequest, KernelReply>)
        ensures
            match self@.inode_error(ino) {
                Some(code) => refused_with(r, code),
                None => r is Ok && r->Ok_0.file_id@ == self@.ids[ino] && r->Ok_0.flags == flags,
            },
    {
        match self.id_or_not_found(ino) {
            Ok(id) => Ok(ProviderOpenFileRequest::new(id, flags)),
            Err(reply) => Err(reply),
        }
    }

    /// The request to read up to `size` bytes of the inode `ino` from
    /// `offset` on.
    pub fn read(&self, ino: u64, fh: u64, offset: i64, size: u32) -> (r: Result<
        ProviderReadContentRequest,
        KernelReply,
    >)
        ensures
            match self@.offset_error(ino, offset) {
                Some(code) => refused_with(r, code),
                None => {
                    &&& r is Ok
                    &&& r->Ok_0.file_id@ == self@.ids[ino]
                    &&& r->Ok_0.offset == offset
                    &&& r->Ok_0.size == size
                    &&& r->Ok_0.fh == fh
                },
            },
    {
        let id = match self.id_or_not_found(ino) {
            Ok(id) => id,
            Err(reply) => {
                return Err(reply);
            },
        };
        if offset < 0 {
            return Err(KernelReply::Error(ErrorKind::InvalidArgument.errno()));
        }
        Ok(ProviderReadContentRequest::new(id, offset as u64, size as usize, fh))
    }

    /// The request to write `data` into the inode `ino` at `offset`.
    pub fn write(&self, ino: u64, fh: u64, offset: i64, data: Vec<u8>) -> (r: Result<
        ProviderWriteContentRequest,
        KernelReply,
    >)
        ensures
            match self@.offset_error(ino, offset) {
                Some(code) => refused_with(r, code),
                None => {
                    &&& r is Ok
                    &&& r->Ok_0.file_id@ == self@.ids[ino]
                    &&& r->Ok_0.offset == offset
                    &&& r->Ok_0.fh == fh
                    &&& r->Ok_0.data@ == data@
                },
            },
    {
        let id = match self.id_or_not_found(ino) {
            Ok(id) => id,
            Err(reply) => {
                return Err(reply);
            },
        };
        if offset < 0 {
            return Err(KernelReply::Error(ErrorKind::InvalidArgument.errno()));
        }
        Ok(ProviderWriteContentRequest::new(id, offset as u64, fh, data))
    }

    /// The request to release the handle `fh` of the inode `ino`.
    pub fn release(&self, ino: u64, fh: u64) -> (r: Result<ProviderReleaseFileRequest, KernelReply>)
        ensures
            match self@.inode_error(ino) {
                Some(code) => refused_with(r, code),
                None => r is Ok && r->Ok_0.file_id@ == self@.ids[ino] && r->Ok_0.fh == fh,
            },
    {
        match self.id_or_not_found(ino) {
            Ok(id) => Ok(ProviderReleaseFileRequest::new(id, fh)),
            Err(reply) => Err(reply),
        }
    }

    /// The request to list the inode `ino` from the position `offset` on.
    pub fn readdir(&self, ino: u64, offset: i64) -> (r: Result<ProviderReadDirRequest, KernelReply>)
        ensures
            match self@.offset_error(ino, offset) {
                Some(code) => refused_with(r, code),
                None => r is Ok && r->Ok_0.file_id@ == self@.ids[ino] && r->Ok_0.offset == offset,
            },
    {
        let id = match self.id_or_not_found(ino) {
            Ok(id) => id,
            Err(reply) => {
                return Err(reply);
            },
        };
        if offset < 0 {
            return Err(KernelReply::Error(ErrorKind::InvalidArgument.errno()));
        }
        Ok(ProviderReadDirRequest::new(id, readdir_start(offset)))
    }

    /// Why no rename can be asked for, if so: one of the two inodes aliases
    /// no id, or one of the two names could not be converted to text.
    pub open spec fn rename_refusal(
        view: AdapterView,
        parent: u64,
        name: Option<String>,
        new_parent: u64,
        new_name: Option<String>,
    ) -> Option<i32> {
        if !view.ids.contains_key(parent) || !view.ids.contains_key(new_parent) {
            Some(ErrorKind::NotFound.code())
        } else if name is None || new_name is None {
            Some(ErrorKind::InvalidArgument.code())
        } else {
            None
        }
    }

    /// The request to move the child `name` of the inode `parent` to the
    /// name `new_name` under the inode `new_parent`.
    pub fn rename(
        &self,
        parent: u64,
        name: Option<String>,
        new_parent: u64,
        new_name: Option<String>,
    ) -> (r: Result<ProviderRenameRequest, KernelReply>)
        ensures
            match Self::rename_refusal(self@, parent, name, new_parent, new_name) {
                Some(code) => refused_with(r, code),
                None => {
                    &&& r is Ok
                    &&& r->Ok_0.original_parent@ == self@.ids[parent]
                    &&& r->Ok_0.original_name@ == name->Some_0@
                    &&& r->Ok_0.new_parent@ == self@.ids[new_parent]
                    &&& r->Ok_0.new_name@ == new_name->Some_0@
                },
            },
    {
        let parent_id = match self.id_or_not_found(parent) {
            Ok(id) => id,
            Err(reply) => {
                return Err(reply);
            },
        };
        let new_parent_id = match self.id_or_not_found(new_parent) {
            Ok(id) => id,
            Err(reply) => {
                return Err(reply);
            },
        };
        match (name, new_name) {
            (Some(name), Some(new_name)) => Ok(
                ProviderRenameRequest::new(name, parent_id, new_name, new_parent_id),
            ),
            _ => Err(KernelReply::Error(ErrorKind::InvalidArgument.errno())),
        }
    }
}

/// Whether `list` holds the handle `fh`.
fn contains_handle(list: &Vec<u64>, fh: u64) -> (r: bool)
    ensures
        r == list@.contains(fh),
{
    let mut i: usize = 0;
    while i < list.len()
        invariant
            i <= list.len(),
            forall|j: int| 0 <= j < i ==> list@[j] != fh,
        decreases list.len() - i,
    {
        if list[i] == fh {
            return true;
        }
        i += 1;
    }
    false
}

/// A copy of `list` without the handle `fh`.
fn handles_without(list: &Vec<u64>, fh: u64) -> (r: Vec<u64>)
    ensures
        r@ == list@.filter(|h: u64| h != fh),
{
    let mut out: Vec<u64> = Vec::new();
    let mut i: usize = 0;
    let ghost keep = |h: u64| h != fh;
    proof {
        assert(list@.take(0) =~= Seq::<u64>::empty());
        crate::lists::lemma_filter_empty(keep);
    }
    while i < list.len()
        invariant
            i <= list.len(),
            keep == |h: u64| h != fh,
            out@ == list@.take(i as int).filter(keep),
        decreases list.len() - i,
    {
        proof {
            assert(list@.take(i as int + 1) =~= list@.take(i as int).push(list@[i as int]));
            crate::lists::lemma_filter_push(list@.take(i as int), list@[i as int], keep);
        }
        if list[i] != fh {
            out.push(list[i]);
        }
        i += 1;
    }
    assert(list@.take(list@.len() as int) =~= list@);
    out
}

} // verus!
