use crate::drive_id::{id_views, DriveId};
use crate::entry::DriveEntryView;
use crate::errno::ErrorKind;
use crate::metadata::{
    parent_delta, parents_to_add, parents_to_remove, prepare_changed_metadata_for_upload,
    ParentDelta, RemoteMetadata, RemoteMetadataView,
};
use crate::provider::{DriveFileProvider, ProviderView};
use crate::request::ProviderRenameRequest;
use crate::text::str_equals;
use vstd::prelude::*;

verus! {

/// The metadata update that a rename sends to the remote.
#[derive(Debug)]
pub struct RenamePlan {
    /// Whether a remote operation ran for the object and has to be waited
    /// for first.
    pub wait_first: bool,
    /// The object that is renamed.
    pub id: DriveId,
    /// The staged metadata, ready to be sent.
    pub metadata: RemoteMetadata,
    /// The parents to add and to remove.
    pub parents: ParentDelta,
}

impl DriveEntryView {
    /// The entry with what a rename stages: the new name, where it differs
    /// from the old one, and the new parent as the only parent, where the
    /// parent changes.
    pub open spec fn staged(
        self,
        rename: bool,
        new_name: Seq<char>,
        reparent: bool,
        new_parent: Seq<char>,
    ) -> DriveEntryView {
        DriveEntryView {
            name: if rename {
                new_name
            } else {
                self.name
            },
            pending_metadata: RemoteMetadataView {
                name: if rename {
                    Some(new_name)
                } else {
                    self.pending_metadata.name
                },
                parents: if reparent {
                    Some(seq![new_parent])
                } else {
                    self.pending_metadata.parents
                },
                ..self.pending_metadata
            },
            ..self
        }
    }

    /// The entry after the remote has confirmed what was staged: the staged
    /// name and parents are the confirmed ones, and nothing of them is
    /// staged any longer.
    pub open spec fn committed(self) -> DriveEntryView {
        DriveEntryView {
            original_metadata: RemoteMetadataView {
                name: if self.pending_metadata.name is Some {
                    self.pending_metadata.name
                } else {
                    self.original_metadata.name
                },
                parents: if self.pending_metadata.parents is Some {
                    self.pending_metadata.parents
                } else {
                    self.original_metadata.parents
                },
                ..self.original_metadata
            },
            pending_metadata: RemoteMetadataView {
                name: None,
                parents: None,
                ..self.pending_metadata
            },
            ..self
        }
    }
}

/// Whether some of `children` other than `source` is a known entry whose
/// name agrees with `name` when the case of ASCII letters is ignored.
pub open spec fn named_by_other(
    children: Seq<Seq<char>>,
    entries: Map<Seq<char>, DriveEntryView>,
    name: Seq<char>,
    source: Seq<char>,
) -> bool {
    exists|i: int|
        0 <= i < children.len() && #[trigger] children[i] != source && entries.contains_key(
            children[i],
        ) && crate::text::same_ignoring_case(entries[children[i]].name, name)
}

impl ProviderView {
    /// The entry that a rename moves: the first child of the old parent
    /// that goes by the old name.
    pub open spec fn rename_source(self, old_parent: Seq<char>, old_name: Seq<char>) -> Option<
        Seq<char>,
    > {
        self.first_child_named(self.resolved(old_parent), old_name)
    }

    /// Why a rename is refused, if so: nothing goes by the old name under
    /// the old parent, the new parent is unknown, or some child of the new
    /// parent other than the source already goes by the new name.
    pub open spec fn rename_error(
        self,
        old_parent: Seq<char>,
        old_name: Seq<char>,
        new_parent: Seq<char>,
        new_name: Seq<char>,
    ) -> Option<ErrorKind> {
        let source = self.rename_source(old_parent, old_name);
        if source is None {
            Some(ErrorKind::NotFound)
        } else if !self.entries.contains_key(self.resolved(new_parent)) {
            Some(ErrorKind::NotFound)
        } else if named_by_other(
            self.graph.children_of(self.resolved(new_parent)),
            self.entries,
            new_name,
            source->Some_0,
        ) {
            Some(ErrorKind::NameInUse)
        } else {
            None
        }
    }

    /// The provider after a rename that is not refused: the new name and
    /// the new parent are staged in the entry, which goes by the new name
    /// from now on, and where the parent changes the entry leaves the
    /// children of the old parent and joins those of the new one.
    pub open spec fn renamed(
        self,
        old_parent: Seq<char>,
        old_name: Seq<char>,
        new_parent: Seq<char>,
        new_name: Seq<char>,
    ) -> ProviderView {
        let source = self.rename_source(old_parent, old_name)->Some_0;
        let from = self.resolved(old_parent);
        let to = self.resolved(new_parent);
        ProviderView {
            running: self.running.remove(source),
            entries: self.entries.insert(
                source,
                self.entries[source].staged(old_name != new_name, new_name, from != to, to),
            ),
            graph: if from != to {
                self.graph.without_relation(from, source).with_relation(to, source)
            } else {
                self.graph
            },
            ..self
        }
    }

    /// The provider after a rename was asked for, refused or not.
    pub open spec fn after_rename(
        self,
        old_parent: Seq<char>,
        old_name: Seq<char>,
        new_parent: Seq<char>,
        new_name: Seq<char>,
    ) -> ProviderView {
        if self.rename_source(old_parent, old_name) is None {
            self
        } else if self.rename_error(old_parent, old_name, new_parent, new_name) is Some {
            ProviderView {
                running: self.running.remove(self.rename_source(old_parent, old_name)->Some_0),
                ..self
            }
        } else {
            self.renamed(old_parent, old_name, new_parent, new_name)
        }
    }

    /// A rename that is not refused keeps the tables valid.
    pub proof fn lemma_renamed_valid(
        self,
        old_parent: Seq<char>,
        old_name: Seq<char>,
        new_parent: Seq<char>,
        new_name: Seq<char>,
    )
        requires
            self.valid(),
            self.rename_error(old_parent, old_name, new_parent, new_name) is None,
        ensures
            self.renamed(old_parent, old_name, new_parent, new_name).valid(),
            self.entries.contains_key(self.rename_source(old_parent, old_name)->Some_0),
    {
        let source = self.rename_source(old_parent, old_name)->Some_0;
        let from = self.resolved(old_parent);
        let to = self.resolved(new_parent);
        lemma_first_named_known(self.graph.children_of(from), self.entries, old_name);
        let after = self.renamed(old_parent, old_name, new_parent, new_name);
        if from != to {
            self.graph.lemma_without_relation(from, source);
            self.graph.without_relation(from, source).lemma_with_relation(to, source);
        }
        assert(after.entries.dom().contains(source));
    }
}

/// What `first_named` finds is one of the children and a known entry whose
/// name agrees with the name asked for.
pub proof fn lemma_first_named_known(
    children: Seq<Seq<char>>,
    entries: Map<Seq<char>, DriveEntryView>,
    name: Seq<char>,
)
    ensures
        match crate::provider::first_named(children, entries, name) {
            Some(c) => children.contains(c) && entries.contains_key(c)
                && crate::text::same_ignoring_case(entries[c].name, name),
            None => forall|i: int|
                0 <= i < children.len() ==> !(entries.contains_key(#[trigger] children[i])
                    && crate::text::same_ignoring_case(entries[children[i]].name, name)),
        },
    decreases children.len(),
{
    if children.len() > 0 {
        if entries.contains_key(children[0]) && crate::text::same_ignoring_case(
            entries[children[0]].name,
            name,
        ) {
            assert(children.contains(children[0]));
        } else {
            let rest = children.drop_first();
            lemma_first_named_known(rest, entries, name);
            match crate::provider::first_named(rest, entries, name) {
                Some(c) => {
                    let i = choose|i: int| 0 <= i < rest.len() && rest[i] == c;
                    assert(children[i + 1] == c);
                },
                None => {
                    assert forall|i: int| 0 <= i < children.len() implies !(entries.contains_key(
                        #[trigger] children[i],
                    ) && crate::text::same_ignoring_case(entries[children[i]].name, name)) by {
                        if i > 0 {
                            assert(rest[i - 1] == children[i]);
                        }
                    }
                },
            }
        }
    }
}

/// Whether a rename plan sends what is staged in the entry `e` of the
/// object `id`.
pub open spec fn pushes(plan: RenamePlan, e: DriveEntryView, id: Seq<char>) -> bool {
    &&& plan.id@ == id
    &&& plan.metadata@ == e.pending_metadata.for_update(id)
    &&& id_views(plan.parents.add@) == parents_to_add(
        e.original_metadata.parents,
        e.pending_metadata.parents,
    )
    &&& id_views(plan.parents.remove@) == parents_to_remove(
        e.original_metadata.parents,
        e.pending_metadata.parents,
    )
}

impl DriveFileProvider {
    /// Whether some child of `parent_id` other than `source` goes by `name`,
    /// the case of ASCII letters ignored. Every child is looked at.
    pub fn is_name_used_by_other(&self, name: &str, parent_id: &DriveId, source: &DriveId) -> (r:
        bool)
        requires
            self.wf(),
        ensures
            r == named_by_other(self@.graph.children_of(parent_id@), self@.entries, name@, source@),
    {
        let children = match self.graph.get_children(parent_id) {
            Some(list) => list,
            None => {
                return false;
            },
        };
        let ghost all = self@.graph.children_of(parent_id@);
        let mut i: usize = 0;
        while i < children.len()
            invariant
                i <= children.len(),
                self.wf(),
                all == id_views(children@),
                all == self@.graph.children_of(parent_id@),
                forall|j: int|
                    0 <= j < i ==> !(#[trigger] all[j] != source@ && self@.entries.contains_key(
                        all[j],
                    ) && crate::text::same_ignoring_case(self@.entries[all[j]].name, name@)),
            decreases children.len() - i,
        {
            assert(all[i as int] == children@[i as int]@);
            if !(children[i] == *source) {
                match self.entries.get(&children[i]) {
                    Some(entry) => {
                        if crate::text::eq_ignore_ascii_case(entry.name.as_str(), name) {
                            assert(all[i as int] != source@ && self@.entries.contains_key(
                                all[i as int],
                            ) && crate::text::same_ignoring_case(
                                self@.entries[all[i as int]].name,
                                name@,
                            ));
                            return true;
                        }
                    },
                    None => {},
                }
            }
            i += 1;
        }
        false
    }

    /// Moves the child `original_name` of `original_parent` to the name
    /// `new_name` under `new_parent`, locally, and plans the metadata
    /// update that tells the remote. The source is the first child of the
    /// old parent that goes by the old name, ASCII case ignored. An unknown
    /// source or new parent is not found; a new name that any other child
    /// of the new parent goes by is in use.
    pub fn rename(&mut self, request: &ProviderRenameRequest) -> (r: Result<RenamePlan, ErrorKind>)
        requires
            old(self).wf(),
        ensures
            final(self).wf(),
            final(self)@ == old(self)@.after_rename(
                request.original_parent@,
                request.original_name@,
                request.new_parent@,
                request.new_name@,
            ),
            match old(self)@.rename_error(
                request.original_parent@,
                request.original_name@,
                request.new_parent@,
                request.new_name@,
            ) {
                Some(e) => r == Err::<RenamePlan, ErrorKind>(e),
                None => r is Ok && r->Ok_0.wait_first == old(self)@.running.contains(
                    old(self)@.rename_source(request.original_parent@, request.original_name@)->Some_0,
                ) && pushes(
                    r->Ok_0,
                    final(self)@.entries[old(self)@.rename_source(
                        request.original_parent@,
                        request.original_name@,
                    )->Some_0],
                    old(self)@.rename_source(request.original_parent@, request.original_name@)->Some_0,
                ),
            },
    {
        let original_parent = self.get_correct_id(request.original_parent.clone());
        let new_parent = self.get_correct_id(request.new_parent.clone());
        let file_id = match self.find_first_child_by_name(
            request.original_name.as_str(),
            &original_parent,
        ) {
            Some(entry) => entry.id.clone(),
            None => {
                return Err(ErrorKind::NotFound);
            },
        };
        let wait_first = self.wait_for_running_drive_request_if_exists(&file_id);
        if !self.check_id_exists(&new_parent) {
            return Err(ErrorKind::NotFound);
        }
        if self.is_name_used_by_other(request.new_name.as_str(), &new_parent, &file_id) {
            return Err(ErrorKind::NameInUse);
        }
        proof {
            old(self)@.lemma_renamed_valid(
                request.original_parent@,
                request.original_name@,
                request.new_parent@,
                request.new_name@,
            );
        }
        let rename = !str_equals(request.original_name.as_str(), request.new_name.as_str());
        let reparent = !(original_parent == new_parent);
        let (metadata, parents) = match self.entry_mut(&file_id) {
            Some(entry) => {
                if rename {
                    entry.name = request.new_name.clone();
                    entry.pending_metadata.name = Some(request.new_name.clone());
                }
                if reparent {
                    let mut only: Vec<DriveId> = Vec::new();
                    only.push(new_parent.clone());
                    assert(id_views(only@) =~= seq![new_parent@]);
                    entry.pending_metadata.parents = Some(only);
                }
                let parents = parent_delta(
                    &entry.original_metadata.parents,
                    &entry.pending_metadata.parents,
                );
                let mut metadata = entry.pending_metadata.clone();
                prepare_changed_metadata_for_upload(&file_id, &mut metadata);
                metadata.parents = None;
                (metadata, parents)
            },
            None => {
                return Err(ErrorKind::NotFound);
            },
        };
        if reparent {
            self.graph.remove_parent_child_relation(original_parent, file_id.clone());
            self.graph.add_parent_child_relation(new_parent, file_id.clone());
        }
        Ok(RenamePlan { wait_first, id: file_id, metadata, parents })
    }

    /// Finishes a rename once the remote was told: a failed update is a
    /// remote I/O error and leaves the change staged; a successful one
    /// makes the staged name and parents of `id` the confirmed ones.
    pub fn finish_rename(&mut self, id: &DriveId, pushed: bool) -> (r: Result<(), ErrorKind>)
        requires
            old(self).wf(),
        ensures
            final(self).wf(),
            !pushed ==> r == Err::<(), ErrorKind>(ErrorKind::RemoteIo) && final(self)@ == old(
                self,
            )@,
            pushed ==> r is Ok && final(self)@ == (if old(self)@.entries.contains_key(id@) {
                ProviderView {
                    entries: old(self)@.entries.insert(id@, old(self)@.entries[id@].committed()),
                    ..old(self)@
                }
            } else {
                old(self)@
            }),
    {
        if !pushed {
            return Err(ErrorKind::RemoteIo);
        }
        match self.entry_mut(id) {
            Some(entry) => {
                if entry.pending_metadata.name.is_some() {
                    entry.original_metadata.name = entry.pending_metadata.name.take();
                }
                if entry.pending_metadata.parents.is_some() {
                    entry.original_metadata.parents = entry.pending_metadata.parents.take();
                }
            },
            None => {},
        }
        Ok(())
    }
}

} // verus!
