use crate::attr::Timestamp;
use crate::change::{change_list_view, Change, ChangeType, ChangeTypeView, ChangeView};
use crate::checksum::{classify, ChecksumMatch};
use crate::common::LocalPath;
use crate::drive_id::{opt_ids_equal, root_alias, DriveId};
use crate::graph::GraphView;
use crate::provider::startup::{lemma_with_links, lemma_without_links, with_links, without_links};
use crate::provider::{is_file_name, DriveFileProvider, ProviderView};
use crate::text::opt_text;
use vstd::prelude::*;

verus! {

/// What became of one change of the remote.
#[derive(Debug)]
pub enum ChangeOutcome {
    /// Nothing: the object is unknown, or the change is about a shared
    /// drive or of unknown type.
    Ignored,
    /// The entry was dropped; the cache file to delete, if one exists.
    Removed { cache_file: Option<LocalPath> },
    /// The change was merged into the entry; how the checksums related.
    Merged(ChecksumMatch),
}

/// The mathematical value of a `ChangeOutcome`.
pub enum ChangeOutcomeView {
    Ignored,
    Removed { cache_file: Option<Seq<char>> },
    Merged(ChecksumMatch),
}

impl View for ChangeOutcome {
    type V = ChangeOutcomeView;

    open spec fn view(&self) -> ChangeOutcomeView {
        match self {
            ChangeOutcome::Ignored => ChangeOutcomeView::Ignored,
            ChangeOutcome::Removed { cache_file } => ChangeOutcomeView::Removed {
                cache_file: match cache_file {
                    Some(p) => Some(p@),
                    None => None,
                },
            },
            ChangeOutcome::Merged(c) => ChangeOutcomeView::Merged(*c),
        }
    }
}

/// The mathematical value of each outcome of a list.
pub open spec fn outcome_views(list: Seq<ChangeOutcome>) -> Seq<ChangeOutcomeView> {
    list.map_values(|o: ChangeOutcome| o@)
}

impl ProviderView {
    /// Whether the change feed is due to be read at the time `now`: at
    /// least the cache window has passed since it was last read.
    pub open spec fn changes_due(self, now: Timestamp) -> bool {
        self.last_checked.total_nanos() + self.cache_window * 1_000_000_000 <= now.total_nanos()
    }

    /// The provider after the change feed was read at the time `now`: the
    /// feed continues from `token` where the remote gave one.
    pub open spec fn polled(self, token: Option<Seq<char>>, now: Timestamp) -> ProviderView {
        ProviderView {
            change_token: if token is Some {
                token
            } else {
                self.change_token
            },
            last_checked: now,
            ..self
        }
    }

    /// Whether a change that reports `parents` for the entry `id` moves it
    /// in the graph: the reported parents differ from the confirmed ones,
    /// and no move is staged locally.
    pub open spec fn moves(self, id: Seq<char>, parents: Option<Seq<Seq<char>>>) -> bool {
        &&& parents is Some
        &&& parents != self.entries[id].original_metadata.parents
        &&& self.entries[id].pending_metadata.parents is None
    }

    /// The graph after a change reported `parents` for the entry `id`:
    /// where that moves the entry, it leaves the parents it was filed under
    /// and is filed under the reported ones.
    pub open spec fn reparented(self, id: Seq<char>, parents: Option<Seq<Seq<char>>>) -> GraphView {
        if self.moves(id, parents) {
            with_links(
                without_links(
                    self.graph,
                    self.effective_parents(self.entries[id].original_metadata.parents),
                    id,
                ),
                self.effective_parents(parents),
                id,
            )
        } else {
            self.graph
        }
    }

    /// The provider after one change was folded in. A change for an
    /// unknown object, about a shared drive or of unknown type changes
    /// nothing. A removal
    /// drops the entry and detaches it from all parents and children. A
    /// changed object has the reported metadata merged into its entry and
    /// is moved in the graph where its parents changed.
    pub open spec fn applied(self, c: ChangeView) -> ProviderView {
        let id = self.resolved(c.id);
        if !self.entries.contains_key(id) {
            self
        } else {
            match c.kind {
                ChangeTypeView::Removed => ProviderView {
                    entries: self.entries.remove(id),
                    graph: self.graph.detached(id),
                    ..self
                },
                ChangeTypeView::File(m) => ProviderView {
                    entries: self.entries.insert(id, self.entries[id].merged(m)),
                    graph: self.reparented(id, m.parents),
                    ..self
                },
                ChangeTypeView::Drive => self,
                ChangeTypeView::Unknown => self,
            }
        }
    }

    /// What becomes of one change.
    pub open spec fn outcome(self, c: ChangeView) -> ChangeOutcomeView {
        let id = self.resolved(c.id);
        if !self.entries.contains_key(id) {
            ChangeOutcomeView::Ignored
        } else {
            match c.kind {
                ChangeTypeView::Removed => ChangeOutcomeView::Removed {
                    cache_file: if self.entries[id].is_local && is_file_name(id) {
                        Some(self.cache_path(id))
                    } else {
                        None
                    },
                },
                ChangeTypeView::File(m) => ChangeOutcomeView::Merged(
                    classify(
                        m.md5_checksum,
                        self.entries[id].local_md5,
                        self.entries[id].upstream_md5,
                    ),
                ),
                ChangeTypeView::Drive => ChangeOutcomeView::Ignored,
                ChangeTypeView::Unknown => ChangeOutcomeView::Ignored,
            }
        }
    }

    /// The provider after each of `changes` was folded in, in order.
    pub open spec fn applied_all(self, changes: Seq<ChangeView>) -> ProviderView
        decreases changes.len(),
    {
        if changes.len() == 0 {
            self
        } else {
            self.applied_all(changes.drop_last()).applied(changes.last())
        }
    }

    /// What becomes of each of `changes`, folded in in order.
    pub open spec fn outcomes(self, changes: Seq<ChangeView>) -> Seq<ChangeOutcomeView>
        decreases changes.len(),
    {
        if changes.len() == 0 {
            Seq::empty()
        } else {
            self.outcomes(changes.drop_last()).push(
                self.applied_all(changes.drop_last()).outcome(changes.last()),
            )
        }
    }

    /// Folding a change in keeps the tables valid.
    pub proof fn lemma_applied_valid(self, c: ChangeView)
        requires
            self.valid(),
        ensures
            self.applied(c).valid(),
    {
        let id = self.resolved(c.id);
        if self.entries.contains_key(id) {
            match c.kind {
                ChangeTypeView::Removed => {
                    self.graph.lemma_detached(id);
                    let after = self.applied(c);
                    assert(after.entries.dom() =~= self.entries.dom().remove(id));
                },
                ChangeTypeView::File(m) => {
                    let after = self.applied(c);
                    assert(after.entries.dom().contains(id));
                    if self.moves(id, m.parents) {
                        let from = self.effective_parents(self.entries[id].original_metadata.parents);
                        let to = self.effective_parents(m.parents);
                        lemma_without_links(self.graph, from, id);
                        lemma_with_links(without_links(self.graph, from, id), to, id);
                        assert(self.entries.dom().contains(id));
                        assert(self.root_id != root_alias());
                        assert(!to.contains(root_alias())) by {
                            if to.contains(root_alias()) {
                                let i = choose|i: int| 0 <= i < to.len() && to[i] == root_alias();
                                assert(to[i] == self.root_id || to[i] == self.resolved(
                                    m.parents->Some_0[i],
                                ));
                            }
                        }
                    }
                },
                ChangeTypeView::Drive => {},
                ChangeTypeView::Unknown => {},
            }
        }
    }
}

impl DriveFileProvider {
    /// Whether the change feed is due to be read at the time `now`.
    pub fn changes_due(&self, now: &Timestamp) -> (r: bool)
        ensures
            r == self@.changes_due(*now),
    {
        self.last_checked_for_changes.has_elapsed(self.allowed_cache_time, now)
    }

    /// Moves the entry `id` in the graph where a change that reports
    /// `parents` for it asks for that.
    fn process_remote_file_moved(&mut self, id: &DriveId, parents: &Option<Vec<DriveId>>)
        requires
            old(self).wf(),
            old(self)@.entries.contains_key(id@),
        ensures
            final(self).stored_wf(),
            final(self)@ == (ProviderView {
                graph: old(self)@.reparented(id@, crate::drive_id::opt_ids_view(*parents)),
                ..old(self)@
            }),
    {
        let entry = match self.entries.get(id) {
            Some(e) => e,
            None => {
                return ;
            },
        };
        if parents.is_none() || opt_ids_equal(parents, &entry.original_metadata.parents)
            || entry.pending_metadata.parents.is_some() {
            return ;
        }
        let from = self.effective_parent_ids(&entry.original_metadata.parents);
        let to = self.effective_parent_ids(parents);
        proof {
            lemma_without_links(self@.graph, crate::drive_id::id_views(from@), id@);
        }
        self.unlink_all(&from, id);
        self.link_all(&to, id);
    }

    /// Folds one change of the remote into the tables.
    pub fn process_change(&mut self, change: &Change) -> (r: ChangeOutcome)
        requires
            old(self).wf(),
        ensures
            final(self).wf(),
            final(self)@ == old(self)@.applied(change@),
            r@ == old(self)@.outcome(change@),
    {
        let id = self.get_correct_id(change.id.clone());
        proof {
            old(self)@.lemma_applied_valid(change@);
        }
        if !self.entries.contains_key(&id) {
            return ChangeOutcome::Ignored;
        }
        match &change.kind {
            ChangeType::Drive => ChangeOutcome::Ignored,
            ChangeType::Unknown => ChangeOutcome::Ignored,
            ChangeType::File(file_change) => {
                self.process_remote_file_moved(&id, &file_change.parents);
                match self.entry_mut(&id) {
                    Some(entry) => ChangeOutcome::Merged(entry.process_file_change(file_change)),
                    None => ChangeOutcome::Ignored,
                }
            },
            ChangeType::Removed => {
                let cache_file = match self.entries.get(&id) {
                    Some(entry) => {
                        if entry.is_local {
                            match self.construct_path(&id) {
                                Ok(path) => Some(path),
                                Err(_) => None,
                            }
                        } else {
                            None
                        }
                    },
                    None => None,
                };
                let ghost before = self.entries@;
                self.entries.remove(&id);
                self.graph.detach(&id);
                proof {
                    assert(before.remove(id@).map_values(|e: crate::entry::DriveEntry| e@)
                        =~= before.map_values(|e: crate::entry::DriveEntry| e@).remove(id@));
                }
                ChangeOutcome::Removed { cache_file }
            },
        }
    }

    /// Records that the change feed was read at the time `now` and folds
    /// the changes it delivered into the tables, in order. The feed
    /// continues from `new_token` where the remote gave one. Tells what
    /// became of each change.
    pub fn check_and_apply_changes(
        &mut self,
        changes: &Vec<Change>,
        new_token: Option<String>,
        now: Timestamp,
    ) -> (r: Vec<ChangeOutcome>)
        requires
            old(self).wf(),
        ensures
            final(self).wf(),
            final(self)@ == old(self)@.polled(opt_text(new_token), now).applied_all(
                change_list_view(changes@),
            ),
            outcome_views(r@) == old(self)@.polled(opt_text(new_token), now).outcomes(
                change_list_view(changes@),
            ),
    {
        self.last_checked_for_changes = now;
        if new_token.is_some() {
            self.changes_start_token = new_token;
        }
        let ghost start = self@;
        let ghost views = change_list_view(changes@);
        let mut out: Vec<ChangeOutcome> = Vec::new();
        let mut i: usize = 0;
        proof {
            assert(views.take(0) =~= Seq::<ChangeView>::empty());
            assert(outcome_views(out@) =~= Seq::<ChangeOutcomeView>::empty());
        }
        while i < changes.len()
            invariant
                i <= changes.len(),
                views == change_list_view(changes@),
                self.wf(),
                self@ == start.applied_all(views.take(i as int)),
                outcome_views(out@) == start.outcomes(views.take(i as int)),
            decreases changes.len() - i,
        {
            proof {
                assert(views.take(i as int + 1).drop_last() =~= views.take(i as int));
                assert(views.take(i as int + 1).last() == changes@[i as int]@);
            }
            let ghost before = outcome_views(out@);
            let outcome = self.process_change(&changes[i]);
            out.push(outcome);
            assert(outcome_views(out@) =~= before.push(outcome@));
            i += 1;
        }
        assert(views.take(changes.len() as int) =~= views);
        out
    }
}

} // verus!
