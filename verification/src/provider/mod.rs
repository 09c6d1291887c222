use crate::attr::Timestamp;
use crate::common::{joined, LocalPath};
use crate::drive_id::{root_alias, DriveId};
use crate::entry::{DriveEntry, DriveEntryView};
use crate::errno::ErrorKind;
use crate::graph::{Graph, GraphView};
use crate::handle_flags::HandleFlags;
use crate::id_map::IdMap;
use crate::settings::SyncSettings;
use crate::text::{clone_opt_string, eq_ignore_ascii_case, opt_text, same_ignoring_case};
use std::collections::HashMap;
use vstd::prelude::*;
use vstd::std_specs::iter::IteratorSpec;

pub mod changes;
pub mod files;
pub mod listing;
pub mod rename;
pub mod startup;

verus! {

/// A signal to the provider from outside the request stream.
#[derive(Debug, Clone, Copy, PartialEq, Eq, Structural)]
pub enum ProviderCommand {
    Stop,
    PauseSync,
}

/// The state of one open-file session.
#[derive(Debug)]
pub struct FileHandleData {
    /// The object that was opened.
    pub id: DriveId,
    /// The decoded open flags.
    pub flags: HandleFlags,
    /// The cache file behind the handle.
    pub path: LocalPath,
    /// Whether the handle was made by creating the file.
    pub creating: bool,
    /// Whether the cache file has yet to be opened.
    pub marked_for_open: bool,
    /// Whether something was written through the handle.
    pub has_content_changed: bool,
}

/// The mathematical value of a `FileHandleData`.
pub struct HandleView {
    pub id: Seq<char>,
    pub flags: HandleFlags,
    pub path: Seq<char>,
    pub creating: bool,
    pub marked_for_open: bool,
    pub has_content_changed: bool,
}

impl View for FileHandleData {
    type V = HandleView;

    open spec fn view(&self) -> HandleView {
        HandleView {
            id: self.id@,
            flags: self.flags,
            path: self.path@,
            creating: self.creating,
            marked_for_open: self.marked_for_open,
            has_content_changed: self.has_content_changed,
        }
    }
}

/// The first of `children` that is a known entry whose name agrees with
/// `name` when the case of ASCII letters is ignored.
pub open spec fn first_named(
    children: Seq<Seq<char>>,
    entries: Map<Seq<char>, DriveEntryView>,
    name: Seq<char>,
) -> Option<Seq<char>>
    decreases children.len(),
{
    if children.len() == 0 {
        None
    } else if entries.contains_key(children[0]) && same_ignoring_case(
        entries[children[0]].name,
        name,
    ) {
        Some(children[0])
    } else {
        first_named(children.drop_first(), entries, name)
    }
}

/// Whether an id can serve as the name of a file in a flat directory: it is
/// not empty, not `.` or `..`, and holds neither a path separator nor a NUL.
pub open spec fn is_file_name(id: Seq<char>) -> bool {
    &&& id.len() > 0
    &&& id != seq!['.']
    &&& id != seq!['.', '.']
    &&& forall|j: int| 0 <= j < id.len() ==> id[j] != '/' && id[j] != '\0'
}

/// The mathematical value of a `DriveFileProvider`.
pub struct ProviderView {
    /// The directory of the ephemeral cache.
    pub cache_dir: Seq<char>,
    /// The directory of the persistent cache.
    pub perma_dir: Seq<char>,
    /// The objects for which a remote operation runs in the background.
    pub running: Set<Seq<char>>,
    /// The id that the alias `root` stands for; the alias itself until the
    /// provider has been started.
    pub root_id: Seq<char>,
    /// The entry table.
    pub entries: Map<Seq<char>, DriveEntryView>,
    /// The parent/child graph.
    pub graph: GraphView,
    /// The open-file handles.
    pub handles: Map<u64, HandleView>,
    /// The number of the next handle.
    pub next_fh: u64,
    /// The token from which the change feed is read next.
    pub change_token: Option<Seq<char>>,
    /// When the change feed was last read.
    pub last_checked: Timestamp,
    /// How many seconds pass between two reads of the change feed.
    pub cache_window: u64,
}

impl ProviderView {
    /// The id that a request means by `id`: the alias `root` stands for the
    /// real root id, every other id for itself.
    pub open spec fn resolved(self, id: Seq<char>) -> Seq<char> {
        if id == root_alias() {
            self.root_id
        } else {
            id
        }
    }

    /// The invariant of the provider's tables: the graph is consistent,
    /// every entry is filed under its own id, the alias `root` is neither an
    /// entry nor part of the graph, every handle has a number below the
    /// next one, and entries exist only once the real root id is known.
    pub open spec fn valid(self) -> bool {
        &&& self.graph.consistent()
        &&& forall|k: Seq<char>|
            self.entries.contains_key(k) ==> (#[trigger] self.entries[k]).id == k
        &&& !self.entries.contains_key(root_alias())
        &&& !self.graph.has_lists(root_alias())
        &&& forall|fh: u64| #[trigger] self.handles.contains_key(fh) ==> fh < self.next_fh
        &&& (self.root_id == root_alias() ==> self.entries.dom() == Set::<Seq<char>>::empty())
    }

    /// The first child of `parent` whose name agrees with `name` when the
    /// case of ASCII letters is ignored.
    pub open spec fn first_child_named(self, parent: Seq<char>, name: Seq<char>) -> Option<
        Seq<char>,
    > {
        first_named(self.graph.children_of(parent), self.entries, name)
    }

    /// Where the cache file of the entry `id` lies: under its id, in the
    /// persistent directory where the entry is pinned and in the ephemeral
    /// one otherwise.
    pub open spec fn cache_path(self, id: Seq<char>) -> Seq<char> {
        joined(
            if self.entries[id].perma {
                self.perma_dir
            } else {
                self.cache_dir
            },
            id,
        )
    }

    /// Why no cache path can be given for `id`, if so: the entry is unknown,
    /// or its id cannot name a file.
    pub open spec fn path_error(self, id: Seq<char>) -> Option<ErrorKind> {
        if !self.entries.contains_key(id) {
            Some(ErrorKind::NotFound)
        } else if !is_file_name(id) {
            Some(ErrorKind::InvalidArgument)
        } else {
            None
        }
    }
}

/// A match is found among the children from `i` on exactly as among all of
/// them, once the children before `i` are known not to match.
pub proof fn lemma_first_named_skip(
    children: Seq<Seq<char>>,
    entries: Map<Seq<char>, DriveEntryView>,
    name: Seq<char>,
    i: int,
)
    requires
        0 <= i <= children.len(),
        forall|j: int|
            0 <= j < i ==> !(entries.contains_key(#[trigger] children[j]) && same_ignoring_case(
                entries[children[j]].name,
                name,
            )),
    ensures
        first_named(children, entries, name) == first_named(children.skip(i), entries, name),
    decreases i,
{
    if i > 0 {
        lemma_first_named_skip(children, entries, name, i - 1);
        let rest = children.skip(i - 1);
        assert(rest[0] == children[i - 1]);
        assert(rest.drop_first() =~= children.skip(i));
    } else {
        assert(children.skip(0) =~= children);
    }
}

/// Whether `id` can serve as the name of a file in a flat directory.
pub fn check_file_name(id: &str) -> (r: bool)
    ensures
        r == is_file_name(id@),
{
    let mut plain = true;
    let mut length: usize = 0;
    let mut dots: usize = 0;
    broadcast use vstd::string::axiom_spec_iter;

    for c in it: id.chars()
        invariant
            it.seq() == id@,
            plain == (forall|j: int| 0 <= j < it.index() ==> id@[j] != '/' && id@[j] != '\0'),
            length == (if it.index() < 3 {
                it.index()
            } else {
                3
            }),
            dots <= length,
            dots == length <==> (forall|j: int| 0 <= j < it.index() && j < 3 ==> id@[j] == '.'),
    {
        if c == '/' || c == '\0' {
            plain = false;
        }
        if length < 3 {
            length += 1;
            if c == '.' {
                dots += 1;
            }
        }
    }
    let only_dots = (length == 1 || length == 2) && dots == length;
    proof {
        if length == 1 {
            assert(id@.len() == 1);
            assert((id@ == seq!['.']) == (id@[0] == '.')) by {
                if id@[0] == '.' {
                    assert(id@ =~= seq!['.']);
                }
            }
        }
        if length == 2 {
            assert((id@ == seq!['.', '.']) == (id@[0] == '.' && id@[1] == '.')) by {
                if id@[0] == '.' && id@[1] == '.' {
                    assert(id@ =~= seq!['.', '.']);
                }
            }
        }
    }
    plain && length > 0 && !only_dots
}

/// The coordinator that owns the entry table, the parent/child graph, the
/// open-file handles and the record of remote operations in flight. It is
/// the sole place where they change.
pub struct DriveFileProvider {
    cache_dir: LocalPath,
    perma_dir: LocalPath,
    running_requests: IdMap<()>,
    alt_root_id: DriveId,
    entries: IdMap<DriveEntry>,
    graph: Graph,
    file_handles: HashMap<u64, FileHandleData>,
    next_fh: u64,
    changes_start_token: Option<String>,
    last_checked_for_changes: Timestamp,
    allowed_cache_time: u64,
}

impl View for DriveFileProvider {
    type V = ProviderView;

    closed spec fn view(&self) -> ProviderView {
        ProviderView {
            cache_dir: self.cache_dir@,
            perma_dir: self.perma_dir@,
            running: self.running_requests@.dom(),
            root_id: self.alt_root_id@,
            entries: self.entries@.map_values(|e: DriveEntry| e@),
            graph: self.graph@,
            handles: self.file_handles@.map_values(|h: FileHandleData| h@),
            next_fh: self.next_fh,
            change_token: opt_text(self.changes_start_token),
            last_checked: self.last_checked_for_changes,
            cache_window: self.allowed_cache_time,
        }
    }
}

impl DriveFileProvider {
    /// Whether the stored tables are in order.
    pub closed spec fn stored_wf(&self) -> bool {
        &&& self.running_requests.wf()
        &&& self.entries.wf()
        &&& self.graph.stored_wf()
    }

    /// The invariant of the provider.
    pub open spec fn wf(&self) -> bool {
        self.stored_wf() && self@.valid()
    }

    /// A provider that knows no entry yet. Handles are numbered from 111,
    /// the change feed counts as never read, and it is read again every 10
    /// seconds.
    pub fn new(cache_dir: LocalPath, perma_dir: LocalPath, changes_start_token: Option<String>) -> (r:
        Self)
        ensures
            r.wf(),
            r@.cache_dir == cache_dir@,
            r@.perma_dir == perma_dir@,
            r@.running == Set::<Seq<char>>::empty(),
            r@.root_id == root_alias(),
            r@.entries == Map::<Seq<char>, DriveEntryView>::empty(),
            r@.graph == GraphView::empty(),
            r@.handles == Map::<u64, HandleView>::empty(),
            r@.next_fh == 111,
            r@.change_token == opt_text(changes_start_token),
            r@.last_checked == (Timestamp { secs: 0, nanos: 0 }),
            r@.cache_window == 10,
    {
        let r = DriveFileProvider {
            cache_dir,
            perma_dir,
            running_requests: IdMap::new(),
            alt_root_id: DriveId::root(),
            entries: IdMap::new(),
            graph: Graph::new(),
            file_handles: HashMap::new(),
            next_fh: 111,
            changes_start_token,
            last_checked_for_changes: Timestamp::epoch(),
            allowed_cache_time: 10,
        };
        proof {
            assert(r@.running =~= Set::<Seq<char>>::empty());
            assert(r@.entries =~= Map::<Seq<char>, DriveEntryView>::empty());
            assert(r@.handles =~= Map::<u64, HandleView>::empty());
        }
        r
    }

    /// Decides whether a signal ends the provider: a stop command does,
    /// and so does the end of all commands; any other command does not.
    pub fn listen_for_stop(signal: Option<ProviderCommand>) -> (stop: bool)
        ensures
            stop == (signal != Some(ProviderCommand::PauseSync)),
    {
        match signal {
            Some(ProviderCommand::Stop) => true,
            Some(ProviderCommand::PauseSync) => false,
            None => true,
        }
    }

    /// Takes the time between two reads of the change feed from the
    /// settings, in whole seconds.
    pub fn apply_settings(&mut self, settings: &SyncSettings)
        requires
            old(self).wf(),
        ensures
            final(self).wf(),
            final(self)@ == (ProviderView {
                cache_window: settings.cache_secs(),
                ..old(self)@
            }),
    {
        self.set_cache_time(settings.cache_time().as_secs());
    }

    /// Sets the seconds that pass between two reads of the change feed.
    pub fn set_cache_time(&mut self, secs: u64)
        requires
            old(self).wf(),
        ensures
            final(self).wf(),
            final(self)@ == (ProviderView { cache_window: secs, ..old(self)@ }),
    {
        self.allowed_cache_time = secs;
    }

    /// Turns the alias `root` into the real root id; any other id is handed
    /// back.
    pub fn get_correct_id(&self, id: DriveId) -> (r: DriveId)
        ensures
            r@ == self@.resolved(id@),
    {
        if id.is_root() {
            self.alt_root_id.clone()
        } else {
            id
        }
    }

    /// Whether an entry is known under `id`.
    pub fn check_id_exists(&self, id: &DriveId) -> (r: bool)
        requires
            self.wf(),
        ensures
            r == self@.entries.contains_key(id@),
    {
        self.entries.contains_key(id)
    }

    /// The entry known under `id`.
    pub fn entry(&self, id: &DriveId) -> (r: Option<&DriveEntry>)
        requires
            self.wf(),
        ensures
            r is Some == self@.entries.contains_key(id@),
            r is Some ==> r.unwrap()@ == self@.entries[id@],
    {
        self.entries.get(id)
    }

    /// The entry known under `id`, to be changed in place.
    pub(crate) fn entry_mut(&mut self, id: &DriveId) -> (r: Option<&mut DriveEntry>)
        requires
            old(self).stored_wf(),
        ensures
            final(self).stored_wf(),
            r is Some == old(self)@.entries.contains_key(id@),
            r is Some ==> r.unwrap()@ == old(self)@.entries[id@],
            r is Some ==> final(self)@ == (ProviderView {
                entries: old(self)@.entries.insert(id@, final(r.unwrap())@),
                ..old(self)@
            }),
            r is None ==> final(self)@ == old(self)@,
    {
        let ghost before = self.entries@;
        match self.entries.get_mut(id) {
            Some(e) => {
                proof {
                    assert(before.insert(id@, *final(e)).map_values(|e: DriveEntry| e@)
                        =~= before.map_values(|e: DriveEntry| e@).insert(id@, final(e)@));
                }
                Some(e)
            },
            None => None,
        }
    }

    /// The state of the handle `fh`.
    pub fn file_handle(&self, fh: u64) -> (r: Option<&FileHandleData>)
        ensures
            r is Some == self@.handles.contains_key(fh),
            r is Some ==> r.unwrap()@ == self@.handles[fh],
    {
        self.file_handles.get(&fh)
    }

    /// The children recorded for `parent`, in insertion order.
    pub fn children(&self, parent: &DriveId) -> (r: Vec<DriveId>)
        requires
            self.wf(),
        ensures
            crate::drive_id::id_views(r@) == self@.graph.children_of(parent@),
    {
        match self.graph.get_children(parent) {
            Some(list) => crate::drive_id::clone_ids(list),
            None => {
                let none: Vec<DriveId> = Vec::new();
                assert(crate::drive_id::id_views(none@) =~= Seq::<Seq<char>>::empty());
                none
            },
        }
    }

    /// The parents recorded for `child`, first observed first.
    pub fn parents(&self, child: &DriveId) -> (r: Vec<DriveId>)
        requires
            self.wf(),
        ensures
            crate::drive_id::id_views(r@) == self@.graph.parents_of(child@),
    {
        match self.graph.get_parents(child) {
            Some(list) => crate::drive_id::clone_ids(list),
            None => {
                let none: Vec<DriveId> = Vec::new();
                assert(crate::drive_id::id_views(none@) =~= Seq::<Seq<char>>::empty());
                none
            },
        }
    }

    /// Whether a remote operation runs in the background for `id`.
    pub fn is_running(&self, id: &DriveId) -> (r: bool)
        requires
            self.wf(),
        ensures
            r == self@.running.contains(id@),
    {
        self.running_requests.contains_key(id)
    }

    /// The token from which the change feed is read next.
    pub fn changes_start_token(&self) -> (r: Option<String>)
        ensures
            opt_text(r) == self@.change_token,
    {
        clone_opt_string(&self.changes_start_token)
    }

    /// Where the cache file of the entry `id` lies. An unknown entry is
    /// reported as not found, an id that cannot name a file as an invalid
    /// argument.
    pub fn construct_path(&self, id: &DriveId) -> (r: Result<LocalPath, ErrorKind>)
        requires
            self.wf(),
        ensures
            match self@.path_error(id@) {
                Some(e) => r == Err::<LocalPath, ErrorKind>(e),
                None => r is Ok && r->Ok_0@ == self@.cache_path(id@),
            },
    {
        let entry = match self.entries.get(id) {
            Some(e) => e,
            None => {
                return Err(ErrorKind::NotFound);
            },
        };
        if !check_file_name(id.as_str()) {
            return Err(ErrorKind::InvalidArgument);
        }
        if entry.perma {
            Ok(self.perma_dir.join(id.as_str()))
        } else {
            Ok(self.cache_dir.join(id.as_str()))
        }
    }

    /// The first child of `parent_id` whose name agrees with `name` when the
    /// case of ASCII letters is ignored.
    pub fn find_first_child_by_name(&self, name: &str, parent_id: &DriveId) -> (r: Option<&DriveEntry>)
        requires
            self.wf(),
        ensures
            match self@.first_child_named(parent_id@, name@) {
                Some(c) => r is Some && r.unwrap()@ == self@.entries[c] && self@.entries.contains_key(
                    c,
                ),
                None => r is None,
            },
    {
        let children = match self.graph.get_children(parent_id) {
            Some(list) => list,
            None => {
                return None;
            },
        };
        let ghost all = self@.graph.children_of(parent_id@);
        let mut i: usize = 0;
        while i < children.len()
            invariant
                i <= children.len(),
                self.wf(),
                all == crate::drive_id::id_views(children@),
                all == self@.graph.children_of(parent_id@),
                forall|j: int|
                    0 <= j < i ==> !(self@.entries.contains_key(#[trigger] all[j])
                        && same_ignoring_case(self@.entries[all[j]].name, name@)),
            decreases children.len() - i,
        {
            assert(all[i as int] == children@[i as int]@);
            match self.entries.get(&children[i]) {
                Some(entry) => {
                    if eq_ignore_ascii_case(entry.name.as_str(), name) {
                        proof {
                            lemma_first_named_skip(all, self@.entries, name@, i as int);
                            assert(all.skip(i as int)[0] == all[i as int]);
                        }
                        return Some(entry);
                    }
                },
                None => {},
            }
            i += 1;
        }
        proof {
            lemma_first_named_skip(all, self@.entries, name@, all.len() as int);
            assert(all.skip(all.len() as int) =~= Seq::<Seq<char>>::empty());
        }
        None
    }

    /// Whether some child of `new_parent` already goes by `new_name`.
    pub fn does_target_name_exist_under_parent(&self, new_parent: &DriveId, new_name: &str) -> (r:
        bool)
        requires
            self.wf(),
        ensures
            r == self@.first_child_named(new_parent@, new_name@) is Some,
    {
        self.find_first_child_by_name(new_name, new_parent).is_some()
    }

    /// Forgets that a remote operation runs for `file_id` and tells whether
    /// one did: the caller waits for it to end before it touches the
    /// object's cache file.
    pub fn wait_for_running_drive_request_if_exists(&mut self, file_id: &DriveId) -> (r: bool)
        requires
            old(self).wf(),
        ensures
            final(self).wf(),
            r == old(self)@.running.contains(file_id@),
            final(self)@ == (ProviderView {
                running: old(self)@.running.remove(file_id@),
                ..old(self)@
            }),
    {
        let was = self.running_requests.remove(file_id);
        proof {
            assert(self@.running =~= old(self)@.running.remove(file_id@));
        }
        was.is_some()
    }

    /// Opens a session on the object `id` and hands out its number; no
    /// number is left once the counter has reached its end.
    pub fn create_fh(
        &mut self,
        id: DriveId,
        flags: HandleFlags,
        path: LocalPath,
        create: bool,
        mark_for_open: bool,
    ) -> (r: Option<u64>)
        requires
            old(self).wf(),
        ensures
            final(self).wf(),
            old(self)@.next_fh == u64::MAX ==> r is None && final(self)@ == old(self)@,
            old(self)@.next_fh < u64::MAX ==> r == Some(old(self)@.next_fh) && final(self)@ == (
            ProviderView {
                next_fh: (old(self)@.next_fh + 1) as u64,
                handles: old(self)@.handles.insert(
                    old(self)@.next_fh,
                    HandleView {
                        id: id@,
                        flags,
                        path: path@,
                        creating: create,
                        marked_for_open: mark_for_open,
                        has_content_changed: false,
                    },
                ),
                ..old(self)@
            }),
    {
        if self.next_fh == u64::MAX {
            return None;
        }
        let fh = self.next_fh;
        self.next_fh = self.next_fh + 1;
        let file_handle = FileHandleData {
            id,
            flags,
            path,
            creating: create,
            marked_for_open: mark_for_open,
            has_content_changed: false,
        };
        self.file_handles.insert(fh, file_handle);
        proof {
            assert(self@.handles =~= old(self)@.handles.insert(fh, file_handle@));
        }
        Some(fh)
    }
}

} // verus!
