use crate::attr::Timestamp;
use crate::drive_id::{id_views, opt_ids_view, root_alias, DriveId};
use crate::entry::{DriveEntry, DriveEntryView};
use crate::errno::ErrorKind;
use crate::graph::GraphView;
use crate::metadata::{
    attr_of, create_file_attr_from_metadata, kind_of_mime, mime_or_none, RemoteMetadata,
    RemoteMetadataView,
};
use crate::provider::{DriveFileProvider, ProviderView};
use vstd::prelude::*;

verus! {

/// The mathematical value of each record of a list.
pub open spec fn record_views(list: Seq<RemoteMetadata>) -> Seq<RemoteMetadataView> {
    list.map_values(|m: RemoteMetadata| m@)
}

/// The graph with a record of `child` lying under each of `parents`, added
/// in their order.
pub open spec fn with_links(graph: GraphView, parents: Seq<Seq<char>>, child: Seq<char>)
    -> GraphView
    decreases parents.len(),
{
    if parents.len() == 0 {
        graph
    } else {
        with_links(graph, parents.drop_last(), child).with_relation(parents.last(), child)
    }
}

/// Adding relations keeps a graph consistent, and gives lists to none but
/// the objects related.
pub proof fn lemma_with_links(graph: GraphView, parents: Seq<Seq<char>>, child: Seq<char>)
    requires
        graph.consistent(),
    ensures
        with_links(graph, parents, child).consistent(),
        forall|x: Seq<char>|
            #[trigger] with_links(graph, parents, child).has_lists(x) ==> graph.has_lists(x) || x
                == child || parents.contains(x),
    decreases parents.len(),
{
    if parents.len() > 0 {
        let init = parents.drop_last();
        lemma_with_links(graph, init, child);
        with_links(graph, init, child).lemma_with_relation(parents.last(), child);
        assert forall|x: Seq<char>| #[trigger]
            with_links(graph, parents, child).has_lists(x) implies graph.has_lists(x) || x == child
            || parents.contains(x) by {
            if x == parents.last() {
                assert(parents[parents.len() - 1] == x);
            } else if with_links(graph, init, child).has_lists(x) {
                if init.contains(x) {
                    let i = choose|i: int| 0 <= i < init.len() && init[i] == x;
                    assert(parents[i] == x);
                }
            }
        }
    }
}

/// The graph with one record less of `child` lying under each of
/// `parents`, removed in their order.
pub open spec fn without_links(graph: GraphView, parents: Seq<Seq<char>>, child: Seq<char>)
    -> GraphView
    decreases parents.len(),
{
    if parents.len() == 0 {
        graph
    } else {
        without_links(graph, parents.drop_last(), child).without_relation(parents.last(), child)
    }
}

/// Removing relations keeps a graph consistent, and changes nothing in
/// which objects have lists.
pub proof fn lemma_without_links(graph: GraphView, parents: Seq<Seq<char>>, child: Seq<char>)
    requires
        graph.consistent(),
    ensures
        without_links(graph, parents, child).consistent(),
        forall|x: Seq<char>|
            #[trigger] without_links(graph, parents, child).has_lists(x) == graph.has_lists(x),
    decreases parents.len(),
{
    if parents.len() > 0 {
        let init = parents.drop_last();
        lemma_without_links(graph, init, child);
        let before = without_links(graph, init, child);
        before.lemma_without_relation(parents.last(), child);
        assert forall|x: Seq<char>| #[trigger]
            without_links(graph, parents, child).has_lists(x) == graph.has_lists(x) by {
            assert(before.has_lists(x) == graph.has_lists(x));
            assert(before.without_relation(parents.last(), child).has_lists(x) == before.has_lists(
                x,
            ));
        }
    }
}

/// Adding relations of `child` appends the parents to the parents of
/// `child` and leaves the parents of every other object as they were.
pub proof fn lemma_with_links_parents(graph: GraphView, parents: Seq<Seq<char>>, child: Seq<char>)
    ensures
        with_links(graph, parents, child).parents_of(child) == graph.parents_of(child) + parents,
        forall|k: Seq<char>|
            k != child ==> #[trigger] with_links(graph, parents, child).parents_of(k)
                == graph.parents_of(k),
    decreases parents.len(),
{
    if parents.len() > 0 {
        let init = parents.drop_last();
        lemma_with_links_parents(graph, init, child);
        let before = with_links(graph, init, child);
        assert(before.with_relation(parents.last(), child).parents_of(child) == before.parents_of(
            child,
        ).push(parents.last()));
        assert((graph.parents_of(child) + init).push(parents.last()) =~= graph.parents_of(child)
            + parents);
        assert forall|k: Seq<char>| k != child implies #[trigger] with_links(
            graph,
            parents,
            child,
        ).parents_of(k) == graph.parents_of(k) by {
            assert(before.parents_of(k) == graph.parents_of(k));
        }
    } else {
        assert(graph.parents_of(child) + parents =~= graph.parents_of(child));
    }
}

/// Removing relations of `child` leaves the parents of every other object as
/// they were.
pub proof fn lemma_without_links_parents(
    graph: GraphView,
    parents: Seq<Seq<char>>,
    child: Seq<char>,
)
    ensures
        forall|k: Seq<char>|
            k != child ==> #[trigger] without_links(graph, parents, child).parents_of(k)
                == graph.parents_of(k),
    decreases parents.len(),
{
    if parents.len() > 0 {
        let init = parents.drop_last();
        lemma_without_links_parents(graph, init, child);
        let before = without_links(graph, init, child);
        assert forall|k: Seq<char>| k != child implies #[trigger] without_links(
            graph,
            parents,
            child,
        ).parents_of(k) == graph.parents_of(k) by {
            assert(before.parents_of(k) == graph.parents_of(k));
        }
    }
}

impl ProviderView {
    /// Whether every entry but the root lies under a parent: its list of
    /// parents is not empty, so that in a consistent graph it stands among
    /// the children of the first of them.
    pub open spec fn all_filed(self) -> bool {
        forall|k: Seq<char>|
            self.entries.contains_key(k) && k != self.root_id ==> (
            #[trigger] self.graph.parents_of(k)).len() > 0
    }

    /// Whether the real root id is known.
    pub open spec fn started(self) -> bool {
        self.root_id != root_alias()
    }

    /// Why a record cannot serve as the root, if so: it has no id, its id is
    /// the alias itself, or its mime type is one of the remote's own
    /// document formats.
    pub open spec fn root_error(root: RemoteMetadataView) -> Option<ErrorKind> {
        if root.id is None {
            Some(ErrorKind::NotFound)
        } else if root.id->Some_0 == root_alias() {
            Some(ErrorKind::InvalidArgument)
        } else if kind_of_mime(mime_or_none(root.mime_type)) is None {
            Some(ErrorKind::Unsupported)
        } else {
            None
        }
    }

    /// The provider that knows the root: the alias stands for the id of
    /// `root`, which has a fresh entry. The entries and relations that were
    /// known before stay.
    pub open spec fn with_root(self, root: RemoteMetadataView, now: Timestamp) -> ProviderView {
        let id = root.id->Some_0;
        let kind = kind_of_mime(mime_or_none(root.mime_type))->Some_0;
        ProviderView {
            root_id: id,
            entries: self.entries.insert(
                id,
                DriveEntryView::fresh(id, attr_of(kind, root, now), root),
            ),
            ..self
        }
    }

    /// Whether making `root` the root keeps every entry filed: no root was
    /// known before, or the same one.
    pub open spec fn keeps_root(self, root: RemoteMetadataView) -> bool {
        !self.started() || Some(self.root_id) == root.id
    }

    /// The parents under which an object with the reported `parents` is
    /// filed: the reported ones with the alias turned into the real root
    /// id, or the root where none are reported.
    pub open spec fn effective_parents(self, parents: Option<Seq<Seq<char>>>) -> Seq<Seq<char>> {
        match parents {
            Some(list) => if list.len() > 0 {
                list.map_values(|p: Seq<char>| self.resolved(p))
            } else {
                seq![self.root_id]
            },
            None => seq![self.root_id],
        }
    }

    /// Whether a record is taken in: the root is known, the record has an
    /// id that is neither the alias nor known already, and its mime type is
    /// none of the remote's own document formats.
    pub open spec fn can_ingest(self, m: RemoteMetadataView) -> bool {
        &&& self.started()
        &&& m.id is Some
        &&& m.id->Some_0 != root_alias()
        &&& !self.entries.contains_key(m.id->Some_0)
        &&& kind_of_mime(mime_or_none(m.mime_type)) is Some
    }

    /// The provider after the record `m` has been offered at the time
    /// `now`: where it is taken in, it has a fresh entry and lies under each
    /// of its effective parents.
    pub open spec fn ingested(self, m: RemoteMetadataView, now: Timestamp) -> ProviderView {
        if self.can_ingest(m) {
            let id = m.id->Some_0;
            let kind = kind_of_mime(mime_or_none(m.mime_type))->Some_0;
            ProviderView {
                entries: self.entries.insert(id, DriveEntryView::fresh(id, attr_of(kind, m, now), m)),
                graph: with_links(self.graph, self.effective_parents(m.parents), id),
                ..self
            }
        } else {
            self
        }
    }

    /// The provider after each of `files` has been offered in order.
    pub open spec fn ingested_all(self, files: Seq<RemoteMetadataView>, now: Timestamp)
        -> ProviderView
        decreases files.len(),
    {
        if files.len() == 0 {
            self
        } else {
            self.ingested_all(files.drop_last(), now).ingested(files.last(), now)
        }
    }

    /// Making a record the root keeps the tables valid, and keeps every
    /// entry filed where no other root was known before.
    pub proof fn lemma_with_root(self, root: RemoteMetadataView, now: Timestamp)
        requires
            self.valid(),
            Self::root_error(root) is None,
        ensures
            self.with_root(root, now).valid(),
            self.all_filed() && self.keeps_root(root) ==> self.with_root(root, now).all_filed(),
    {
        let after = self.with_root(root, now);
        assert(after.entries.dom().contains(root.id->Some_0));
        if !self.started() {
            assert(!self.entries.dom().contains(root.id->Some_0));
            assert forall|k: Seq<char>| after.entries.contains_key(k) implies k
                == root.id->Some_0 by {
                if k != root.id->Some_0 {
                    assert(self.entries.dom().contains(k));
                }
            }
        }
    }

    /// Offering a record keeps every entry filed.
    pub proof fn lemma_ingested_filed(self, m: RemoteMetadataView, now: Timestamp)
        requires
            self.all_filed(),
        ensures
            self.ingested(m, now).all_filed(),
    {
        if self.can_ingest(m) {
            let id = m.id->Some_0;
            let parents = self.effective_parents(m.parents);
            lemma_with_links_parents(self.graph, parents, id);
            let after = self.ingested(m, now);
            assert forall|k: Seq<char>|
                after.entries.contains_key(k) && k != after.root_id implies (
            #[trigger] after.graph.parents_of(k)).len() > 0 by {
                if k == id {
                    assert(parents.len() > 0);
                } else {
                    assert(self.graph.parents_of(k).len() > 0);
                }
            }
        }
    }

    /// Offering records in order keeps every entry filed.
    pub proof fn lemma_ingested_all_filed(self, files: Seq<RemoteMetadataView>, now: Timestamp)
        requires
            self.all_filed(),
        ensures
            self.ingested_all(files, now).all_filed(),
        decreases files.len(),
    {
        if files.len() > 0 {
            self.lemma_ingested_all_filed(files.drop_last(), now);
            self.ingested_all(files.drop_last(), now).lemma_ingested_filed(files.last(), now);
        }
    }

    /// Offering a record keeps the tables valid.
    pub proof fn lemma_ingested_valid(self, m: RemoteMetadataView, now: Timestamp)
        requires
            self.valid(),
        ensures
            self.ingested(m, now).valid(),
    {
        if self.can_ingest(m) {
            let id = m.id->Some_0;
            let parents = self.effective_parents(m.parents);
            lemma_with_links(self.graph, parents, id);
            let after = self.ingested(m, now);
            assert(!after.graph.has_lists(root_alias())) by {
                if parents.contains(root_alias()) {
                    let i = choose|i: int| 0 <= i < parents.len() && parents[i] == root_alias();
                    assert(parents[i] == self.root_id || parents[i] == self.resolved(
                        m.parents->Some_0[i],
                    ));
                }
            }
            assert(after.entries.dom().contains(id));
        }
    }
}

impl DriveFileProvider {
    /// The parents under which an object with the reported `parents` is
    /// filed.
    pub(crate) fn effective_parent_ids(&self, parents: &Option<Vec<DriveId>>) -> (r: Vec<DriveId>)
        ensures
            id_views(r@) == self@.effective_parents(opt_ids_view(*parents)),
    {
        let mut out: Vec<DriveId> = Vec::new();
        match parents {
            Some(list) => {
                if list.len() > 0 {
                    let mut i: usize = 0;
                    while i < list.len()
                        invariant
                            i <= list.len(),
                            out@.len() == i,
                            forall|j: int|
                                0 <= j < i ==> (#[trigger] out@[j])@ == self@.resolved(
                                    list@[j]@,
                                ),
                        decreases list.len() - i,
                    {
                        out.push(self.get_correct_id(list[i].clone()));
                        i += 1;
                    }
                    assert(id_views(out@) =~= self@.effective_parents(opt_ids_view(*parents)));
                    return out;
                }
            },
            None => {},
        }
        out.push(self.alt_root_id.clone());
        assert(id_views(out@) =~= self@.effective_parents(opt_ids_view(*parents)));
        out
    }

    /// Records `child` under each of `parents`, in their order.
    pub(crate) fn link_all(&mut self, parents: &Vec<DriveId>, child: &DriveId)
        requires
            old(self).stored_wf(),
            old(self)@.graph.consistent(),
        ensures
            final(self).stored_wf(),
            final(self)@ == (ProviderView {
                graph: with_links(old(self)@.graph, id_views(parents@), child@),
                ..old(self)@
            }),
    {
        let ghost wanted = id_views(parents@);
        let mut i: usize = 0;
        assert(wanted.take(0) =~= Seq::<Seq<char>>::empty());
        while i < parents.len()
            invariant
                i <= parents.len(),
                wanted == id_views(parents@),
                self.stored_wf(),
                self@.graph.consistent(),
                self@ == (ProviderView {
                    graph: with_links(old(self)@.graph, wanted.take(i as int), child@),
                    ..old(self)@
                }),
            decreases parents.len() - i,
        {
            proof {
                assert(wanted.take(i as int + 1).drop_last() =~= wanted.take(i as int));
                assert(wanted.take(i as int + 1).last() == parents@[i as int]@);
            }
            self.graph.add_parent_child_relation(parents[i].clone(), child.clone());
            i += 1;
        }
        assert(wanted.take(parents.len() as int) =~= wanted);
    }

    /// Forgets one record of `child` under each of `parents`, in their
    /// order.
    pub(crate) fn unlink_all(&mut self, parents: &Vec<DriveId>, child: &DriveId)
        requires
            old(self).stored_wf(),
            old(self)@.graph.consistent(),
        ensures
            final(self).stored_wf(),
            final(self)@ == (ProviderView {
                graph: without_links(old(self)@.graph, id_views(parents@), child@),
                ..old(self)@
            }),
    {
        let ghost wanted = id_views(parents@);
        let mut i: usize = 0;
        assert(wanted.take(0) =~= Seq::<Seq<char>>::empty());
        while i < parents.len()
            invariant
                i <= parents.len(),
                wanted == id_views(parents@),
                self.stored_wf(),
                self@.graph.consistent(),
                self@ == (ProviderView {
                    graph: without_links(old(self)@.graph, wanted.take(i as int), child@),
                    ..old(self)@
                }),
            decreases parents.len() - i,
        {
            proof {
                assert(wanted.take(i as int + 1).drop_last() =~= wanted.take(i as int));
                assert(wanted.take(i as int + 1).last() == parents@[i as int]@);
            }
            self.graph.remove_parent_child_relation(parents[i].clone(), child.clone());
            i += 1;
        }
        assert(wanted.take(parents.len() as int) =~= wanted);
    }

    /// Files `id` under each of its effective parents.
    fn add_child_parent_relations(&mut self, parents: &Option<Vec<DriveId>>, id: &DriveId)
        requires
            old(self).wf(),
        ensures
            final(self).stored_wf(),
            final(self)@ == (ProviderView {
                graph: with_links(
                    old(self)@.graph,
                    old(self)@.effective_parents(opt_ids_view(*parents)),
                    id@,
                ),
                ..old(self)@
            }),
    {
        let filed_under = self.effective_parent_ids(parents);
        self.link_all(&filed_under, id);
    }

    /// Offers the record of one remote object and tells whether it was
    /// taken in. A record is passed over before the root is known, without
    /// an id, with the alias or a known id as its id, or with one of the
    /// remote's own document formats as its mime type.
    pub fn add_drive_entry_to_entries(&mut self, entry: RemoteMetadata, now: Timestamp) -> (r: bool)
        requires
            old(self).wf(),
        ensures
            final(self).wf(),
            r == old(self)@.can_ingest(entry@),
            final(self)@ == old(self)@.ingested(entry@, now),
            old(self)@.all_filed() ==> final(self)@.all_filed(),
    {
        proof {
            if old(self)@.all_filed() {
                old(self)@.lemma_ingested_filed(entry@, now);
            }
        }
        if self.alt_root_id.is_root() {
            return false;
        }
        let id = match &entry.id {
            Some(id) => id.clone(),
            None => {
                return false;
            },
        };
        if id.is_root() || self.entries.contains_key(&id) {
            return false;
        }
        let attr = match create_file_attr_from_metadata(&entry, now) {
            Ok(attr) => attr,
            Err(_) => {
                return false;
            },
        };
        self.add_child_parent_relations(&entry.parents, &id);
        let ghost before = self.entries@;
        let data = DriveEntry::new(id.clone(), attr, entry);
        self.entries.insert(id, data);
        proof {
            assert(before.insert(id@, data).map_values(|e: DriveEntry| e@) =~= before.map_values(
                |e: DriveEntry| e@,
            ).insert(id@, data@));
            old(self)@.lemma_ingested_valid(entry@, now);
        }
        true
    }

    /// Starts the provider from what the remote reports: the record of the
    /// root folder and the records of all objects. The id of the root
    /// becomes what the alias `root` stands for, the root gets a fresh
    /// entry, and the objects are offered in order. A root record that
    /// cannot serve is fatal and leaves the provider as it was. Afterwards
    /// every entry but the root lies under a parent, provided that held
    /// before and no other root was known; on a new provider it always
    /// does.
    pub fn initialize_entries(
        &mut self,
        root: RemoteMetadata,
        files: &Vec<RemoteMetadata>,
        now: Timestamp,
    ) -> (r: Result<(), ErrorKind>)
        requires
            old(self).wf(),
        ensures
            final(self).wf(),
            match ProviderView::root_error(root@) {
                Some(e) => r == Err::<(), ErrorKind>(e) && final(self)@ == old(self)@,
                None => r is Ok && final(self)@ == old(self)@.with_root(root@, now).ingested_all(
                    record_views(files@),
                    now,
                ),
            },
            r is Ok && old(self)@.all_filed() && old(self)@.keeps_root(root@)
                ==> final(self)@.all_filed(),
    {
        proof {
            if ProviderView::root_error(root@) is None && old(self)@.all_filed()
                && old(self)@.keeps_root(root@) {
                old(self)@.lemma_with_root(root@, now);
                old(self)@.with_root(root@, now).lemma_ingested_all_filed(
                    record_views(files@),
                    now,
                );
            }
        }
        match self.add_root_entry(root, now) {
            Ok(()) => {},
            Err(e) => {
                return Err(e);
            },
        }
        let ghost start = self@;
        let ghost views = record_views(files@);
        let mut i: usize = 0;
        assert(views.take(0) =~= Seq::<RemoteMetadataView>::empty());
        while i < files.len()
            invariant
                i <= files.len(),
                views == record_views(files@),
                self.wf(),
                self@ == start.ingested_all(views.take(i as int), now),
            decreases files.len() - i,
        {
            proof {
                assert(views.take(i as int + 1).drop_last() =~= views.take(i as int));
                assert(views.take(i as int + 1).last() == files@[i as int]@);
            }
            self.add_drive_entry_to_entries(files[i].clone(), now);
            i += 1;
        }
        assert(views.take(files.len() as int) =~= views);
        Ok(())
    }

    /// Gives the root folder a fresh entry and makes its id what the alias
    /// `root` stands for. What was known before stays.
    pub fn add_root_entry(&mut self, metadata: RemoteMetadata, now: Timestamp) -> (r: Result<
        (),
        ErrorKind,
    >)
        requires
            old(self).wf(),
        ensures
            final(self).wf(),
            match ProviderView::root_error(metadata@) {
                Some(e) => r == Err::<(), ErrorKind>(e) && final(self)@ == old(self)@,
                None => r is Ok && final(self)@ == old(self)@.with_root(metadata@, now),
            },
    {
        let root_id = match &metadata.id {
            Some(id) => id.clone(),
            None => {
                return Err(ErrorKind::NotFound);
            },
        };
        if root_id.is_root() {
            return Err(ErrorKind::InvalidArgument);
        }
        let attr = match create_file_attr_from_metadata(&metadata, now) {
            Ok(attr) => attr,
            Err(e) => {
                return Err(e);
            },
        };
        let data = DriveEntry::new(root_id.clone(), attr, metadata);
        let ghost before = self.entries@;
        self.alt_root_id = root_id.clone();
        self.entries.insert(root_id, data);
        proof {
            assert(before.insert(root_id@, data).map_values(|e: DriveEntry| e@)
                =~= before.map_values(|e: DriveEntry| e@).insert(root_id@, data@));
            old(self)@.lemma_with_root(metadata@, now);
        }
        Ok(())
    }
}

} // verus!
