use crate::common::{removes_first, VecExtension};
use crate::drive_id::{clone_ids, id_views, DriveId};
use crate::id_map::IdMap;
use crate::lists::{
    lemma_first_index_is, lemma_first_index_of, lemma_occurrences_contains,
    lemma_occurrences_push, lemma_occurrences_without, lemma_occurrences_without_first,
    lemma_without_absent, lemma_without_empty, lemma_without_push, lemma_without_twice,
    occurrences, without, without_first,
};
use vstd::prelude::*;
use vstd::std_specs::cmp::PartialEqSpec;

verus! {

/// The characters of the ids bound to `key`, or the empty list where nothing
/// is bound to it.
pub open spec fn list_at(map: Map<Seq<char>, Vec<DriveId>>, key: Seq<char>) -> Seq<Seq<char>> {
    if map.contains_key(key) {
        id_views(map[key]@)
    } else {
        Seq::empty()
    }
}

/// A copy of `list` without any occurrence of `gone`.
fn ids_without(list: &Vec<DriveId>, gone: &DriveId) -> (r: Vec<DriveId>)
    ensures
        id_views(r@) == without(id_views(list@), gone@),
{
    let mut out: Vec<DriveId> = Vec::new();
    let mut i: usize = 0;
    proof {
        assert(id_views(list@).take(0) =~= Seq::<Seq<char>>::empty());
        assert(id_views(out@) =~= Seq::<Seq<char>>::empty());
        lemma_without_empty(gone@);
    }
    while i < list.len()
        invariant
            i <= list.len(),
            id_views(out@) == without(id_views(list@).take(i as int), gone@),
        decreases list.len() - i,
    {
        let ghost before = id_views(out@);
        proof {
            let views = id_views(list@);
            assert(views.take(i as int + 1) =~= views.take(i as int).push(views[i as int]));
            lemma_without_push(views.take(i as int), views[i as int], gone@);
        }
        if !(list[i] == *gone) {
            out.push(list[i].clone());
            assert(id_views(out@) =~= before.push(id_views(list@)[i as int]));
        }
        i += 1;
    }
    assert(id_views(list@).take(list@.len() as int) =~= id_views(list@));
    out
}

/// Appends `item` to the list bound to `key`, which starts empty.
fn push_to(map: &mut IdMap<Vec<DriveId>>, key: &DriveId, item: DriveId)
    requires
        old(map).wf(),
    ensures
        final(map).wf(),
        list_at(final(map)@, key@) == list_at(old(map)@, key@).push(item@),
        final(map)@.contains_key(key@),
        forall|k: Seq<char>|
            k != key@ ==> (final(map)@.contains_key(k) == old(map)@.contains_key(k)),
        forall|k: Seq<char>| k != key@ ==> list_at(final(map)@, k) == list_at(old(map)@, k),
{
    let ghost before = list_at(map@, key@);
    match map.get_mut(key) {
        Some(list) => {
            list.push(item);
            assert(id_views(list@) =~= before.push(item@));
        },
        None => {
            let mut list: Vec<DriveId> = Vec::new();
            list.push(item);
            assert(id_views(list@) =~= before.push(item@));
            map.insert(key.clone(), list);
        },
    }
}

/// Takes the first `item` out of the list bound to `key`.
fn remove_first_from(map: &mut IdMap<Vec<DriveId>>, key: &DriveId, item: &DriveId)
    requires
        old(map).wf(),
    ensures
        final(map).wf(),
        list_at(final(map)@, key@) == without_first(list_at(old(map)@, key@), item@),
        forall|k: Seq<char>| final(map)@.contains_key(k) == old(map)@.contains_key(k),
        forall|k: Seq<char>| k != key@ ==> list_at(final(map)@, k) == list_at(old(map)@, k),
{
    let ghost before = list_at(map@, key@);
    match map.get_mut(key) {
        Some(list) => {
            let ghost old_list = list@;
            let removed = list.remove_first_element(item);
            proof {
                assert(removes_first(old_list, list@, *item, removed));
                match removed {
                    Some(x) => {
                        let i = choose|i: int|
                            #![trigger old_list[i]]
                            crate::common::is_first_match(old_list, *item, i) && x == old_list[i]
                                && list@ == old_list.remove(i);
                        assert(before[i] == item@);
                        assert forall|j: int| 0 <= j < i implies before[j] != item@ by {
                            assert(!old_list[j].eq_spec(item));
                        }
                        lemma_first_index_is(before, item@, i);
                        assert(id_views(list@) =~= before.remove(i));
                    },
                    None => {
                        assert forall|j: int| 0 <= j < before.len() implies before[j]
                            != item@ by {
                            assert(!old_list[j].eq_spec(item));
                        }
                        lemma_first_index_of(before, item@);
                    },
                }
            }
        },
        None => {
            proof {
                lemma_first_index_of(before, item@);
            }
        },
    }
}

/// Drops every `gone` from the list bound to `key`.
fn remove_all_from(map: &mut IdMap<Vec<DriveId>>, key: &DriveId, gone: &DriveId)
    requires
        old(map).wf(),
    ensures
        final(map).wf(),
        list_at(final(map)@, key@) == without(list_at(old(map)@, key@), gone@),
        forall|k: Seq<char>| final(map)@.contains_key(k) == old(map)@.contains_key(k),
        forall|k: Seq<char>| k != key@ ==> list_at(final(map)@, k) == list_at(old(map)@, k),
{
    match map.get_mut(key) {
        Some(list) => {
            let kept = ids_without(list, gone);
            *list = kept;
        },
        None => {
            proof {
                lemma_without_empty(gone@);
            }
        },
    }
}

/// The lists of a map, each as the characters of its ids.
pub open spec fn lists_view(map: Map<Seq<char>, Vec<DriveId>>) -> Map<Seq<char>, Seq<Seq<char>>> {
    map.map_values(|list: Vec<DriveId>| id_views(list@))
}

/// The mathematical value of a `Graph`: for each object that has one, the
/// list of its parents and the list of its children.
pub struct GraphView {
    pub parents: Map<Seq<char>, Seq<Seq<char>>>,
    pub children: Map<Seq<char>, Seq<Seq<char>>>,
}

impl GraphView {
    /// The parents recorded for `child`, first observed first; none where
    /// no list is kept.
    pub open spec fn parents_of(self, child: Seq<char>) -> Seq<Seq<char>> {
        if self.parents.contains_key(child) {
            self.parents[child]
        } else {
            Seq::empty()
        }
    }

    /// The children recorded for `parent`, in insertion order; none where
    /// no list is kept.
    pub open spec fn children_of(self, parent: Seq<char>) -> Seq<Seq<char>> {
        if self.children.contains_key(parent) {
            self.children[parent]
        } else {
            Seq::empty()
        }
    }

    /// Whether a list of parents or a list of children is kept for `id`.
    pub open spec fn has_lists(self, id: Seq<char>) -> bool {
        self.parents.contains_key(id) || self.children.contains_key(id)
    }

    /// Whether both directions record every relation equally often.
    pub open spec fn consistent(self) -> bool {
        forall|p: Seq<char>, c: Seq<char>|
            occurrences(#[trigger] self.children_of(p), c) == occurrences(
                #[trigger] self.parents_of(c),
                p,
            )
    }

    /// The graph without any relation.
    pub open spec fn empty() -> GraphView {
        GraphView { parents: Map::empty(), children: Map::empty() }
    }

    /// The graph with one more record of `child` lying under `parent`, at
    /// the end of both lists.
    pub open spec fn with_relation(self, parent: Seq<char>, child: Seq<char>) -> GraphView {
        GraphView {
            parents: self.parents.insert(child, self.parents_of(child).push(parent)),
            children: self.children.insert(parent, self.children_of(parent).push(child)),
        }
    }

    /// The graph with one record less of `child` lying under `parent`: the
    /// first in each list goes.
    pub open spec fn without_relation(self, parent: Seq<char>, child: Seq<char>) -> GraphView {
        GraphView {
            parents: if self.parents.contains_key(child) {
                self.parents.insert(child, without_first(self.parents[child], parent))
            } else {
                self.parents
            },
            children: if self.children.contains_key(parent) {
                self.children.insert(parent, without_first(self.children[parent], child))
            } else {
                self.children
            },
        }
    }

    /// The graph in which `id` has no lists and stands in no list.
    pub open spec fn detached(self, id: Seq<char>) -> GraphView {
        GraphView {
            parents: self.parents.remove(id).map_values(|l: Seq<Seq<char>>| without(l, id)),
            children: self.children.remove(id).map_values(|l: Seq<Seq<char>>| without(l, id)),
        }
    }

    /// Whether `id` has no lists and stands in no list.
    pub open spec fn is_free_of(self, id: Seq<char>) -> bool {
        &&& !self.has_lists(id)
        &&& forall|k: Seq<char>| !(#[trigger] self.children_of(k)).contains(id)
        &&& forall|k: Seq<char>| !(#[trigger] self.parents_of(k)).contains(id)
    }

    /// In a consistent graph `child` is listed under `parent` exactly where
    /// `parent` is listed as a parent of `child`, and both then have lists.
    pub proof fn lemma_consistent(self, parent: Seq<char>, child: Seq<char>)
        requires
            self.consistent(),
        ensures
            self.children_of(parent).contains(child) <==> self.parents_of(child).contains(parent),
            self.children_of(parent).contains(child) ==> self.has_lists(parent) && self.has_lists(
                child,
            ),
    {
        lemma_occurrences_contains(self.children_of(parent), child);
        lemma_occurrences_contains(self.parents_of(child), parent);
        assert(occurrences(self.children_of(parent), child) == occurrences(
            self.parents_of(child),
            parent,
        ));
    }

    /// An object without lists in a consistent graph stands in no list.
    pub proof fn lemma_free_without_lists(self, id: Seq<char>)
        requires
            self.consistent(),
            !self.has_lists(id),
        ensures
            self.is_free_of(id),
    {
        assert forall|k: Seq<char>| !(#[trigger] self.children_of(k)).contains(id) by {
            self.lemma_consistent(k, id);
            assert(self.parents_of(id) =~= Seq::<Seq<char>>::empty());
        }
        assert forall|k: Seq<char>| !(#[trigger] self.parents_of(k)).contains(id) by {
            self.lemma_consistent(id, k);
            assert(self.children_of(id) =~= Seq::<Seq<char>>::empty());
        }
    }

    /// Adding a relation keeps the graph consistent.
    pub proof fn lemma_with_relation(self, parent: Seq<char>, child: Seq<char>)
        requires
            self.consistent(),
        ensures
            self.with_relation(parent, child).consistent(),
    {
        let after = self.with_relation(parent, child);
        assert forall|p: Seq<char>, c: Seq<char>|
            occurrences(#[trigger] after.children_of(p), c) == occurrences(
                #[trigger] after.parents_of(c),
                p,
            ) by {
            assert(occurrences(self.children_of(p), c) == occurrences(self.parents_of(c), p));
            if p == parent {
                lemma_occurrences_push(self.children_of(p), child, c);
            }
            if c == child {
                lemma_occurrences_push(self.parents_of(c), parent, p);
            }
        }
    }

    /// Removing a relation keeps the graph consistent.
    pub proof fn lemma_without_relation(self, parent: Seq<char>, child: Seq<char>)
        requires
            self.consistent(),
        ensures
            self.without_relation(parent, child).consistent(),
    {
        let after = self.without_relation(parent, child);
        self.lemma_consistent(parent, child);
        lemma_first_index_of(self.children_of(parent), child);
        lemma_first_index_of(self.parents_of(child), parent);
        assert forall|p: Seq<char>, c: Seq<char>|
            occurrences(#[trigger] after.children_of(p), c) == occurrences(
                #[trigger] after.parents_of(c),
                p,
            ) by {
            assert(occurrences(self.children_of(p), c) == occurrences(self.parents_of(c), p));
            if p == parent {
                lemma_occurrences_without_first(self.children_of(p), child, c);
                assert(after.children_of(p) == without_first(self.children_of(p), child));
            }
            if c == child {
                lemma_occurrences_without_first(self.parents_of(c), parent, p);
                assert(after.parents_of(c) == without_first(self.parents_of(c), parent));
            }
        }
    }

    /// Detaching an object keeps the graph consistent and leaves the object
    /// in no list.
    pub proof fn lemma_detached(self, id: Seq<char>)
        requires
            self.consistent(),
        ensures
            self.detached(id).consistent(),
            self.detached(id).is_free_of(id),
            forall|x: Seq<char>|
                #[trigger] self.detached(id).has_lists(x) == (self.has_lists(x) && x != id),
    {
        let after = self.detached(id);
        assert forall|p: Seq<char>|
            #[trigger] after.children_of(p) == if p == id {
                Seq::<Seq<char>>::empty()
            } else {
                without(self.children_of(p), id)
            } by {
            lemma_without_empty(id);
        }
        assert forall|c: Seq<char>|
            #[trigger] after.parents_of(c) == if c == id {
                Seq::<Seq<char>>::empty()
            } else {
                without(self.parents_of(c), id)
            } by {
            lemma_without_empty(id);
        }
        assert forall|p: Seq<char>, c: Seq<char>|
            occurrences(#[trigger] after.children_of(p), c) == occurrences(
                #[trigger] after.parents_of(c),
                p,
            ) by {
            assert(occurrences(self.children_of(p), c) == occurrences(self.parents_of(c), p));
            lemma_occurrences_without(self.children_of(p), id, c);
            lemma_occurrences_without(self.parents_of(c), id, p);
        }
        after.lemma_free_without_lists(id);
    }
}

/// The parent/child relations between remote objects, kept in both
/// directions: for each object the list of its parents and the list of its
/// children, each in the order in which the relations were added.
pub struct Graph {
    parents: IdMap<Vec<DriveId>>,
    children: IdMap<Vec<DriveId>>,
}

impl View for Graph {
    type V = GraphView;

    closed spec fn view(&self) -> GraphView {
        GraphView { parents: lists_view(self.parents@), children: lists_view(self.children@) }
    }
}

impl Graph {
    /// Whether the two stored maps are in order.
    pub closed spec fn stored_wf(&self) -> bool {
        self.parents.wf() && self.children.wf()
    }

    /// The invariant of the graph: both directions record every relation
    /// equally often.
    pub open spec fn wf(&self) -> bool {
        self.stored_wf() && self@.consistent()
    }

    /// The graph without any relation.
    pub fn new() -> (r: Graph)
        ensures
            r.wf(),
            r@ == GraphView::empty(),
    {
        let r = Graph { parents: IdMap::new(), children: IdMap::new() };
        proof {
            assert(r@.parents =~= Map::<Seq<char>, Seq<Seq<char>>>::empty());
            assert(r@.children =~= Map::<Seq<char>, Seq<Seq<char>>>::empty());
            assert forall|p: Seq<char>, c: Seq<char>|
                occurrences(#[trigger] r@.children_of(p), c) == occurrences(
                    #[trigger] r@.parents_of(c),
                    p,
                ) by {}
        }
        r
    }

    /// Records that `child` lies under `parent`, at the end of both lists.
    pub fn add_parent_child_relation(&mut self, parent_id: DriveId, child_id: DriveId)
        requires
            old(self).wf(),
        ensures
            final(self).wf(),
            final(self)@ == old(self)@.with_relation(parent_id@, child_id@),
    {
        push_to(&mut self.parents, &child_id, parent_id.clone());
        push_to(&mut self.children, &parent_id, child_id);
        proof {
            let want = old(self)@.with_relation(parent_id@, child_id@);
            assert forall|k: Seq<char>| #[trigger] self@.parents.contains_key(k) implies self@.parents[k] == want.parents[k] by {
                assert(list_at(self.parents@, k) == self@.parents[k]);
                assert(list_at(old(self).parents@, k) == old(self)@.parents_of(k));
            }
            assert(self@.parents =~= want.parents);
            assert forall|k: Seq<char>| #[trigger] self@.children.contains_key(k) implies self@.children[k] == want.children[k] by {
                assert(list_at(self.children@, k) == self@.children[k]);
                assert(list_at(old(self).children@, k) == old(self)@.children_of(k));
            }
            assert(self@.children =~= want.children);
            old(self)@.lemma_with_relation(parent_id@, child_id@);
        }
    }

    /// Forgets one record of `child` lying under `parent`: the first in each
    /// list. Nothing changes where there is none.
    pub fn remove_parent_child_relation(&mut self, parent_id: DriveId, child_id: DriveId)
        requires
            old(self).wf(),
        ensures
            final(self).wf(),
            final(self)@ == old(self)@.without_relation(parent_id@, child_id@),
    {
        remove_first_from(&mut self.parents, &child_id, &parent_id);
        remove_first_from(&mut self.children, &parent_id, &child_id);
        proof {
            let want = old(self)@.without_relation(parent_id@, child_id@);
            assert forall|k: Seq<char>| #[trigger] self@.parents.contains_key(k) implies self@.parents[k] == want.parents[k] by {
                assert(list_at(self.parents@, k) == self@.parents[k]);
                assert(list_at(old(self).parents@, k) == old(self)@.parents_of(k));
            }
            assert(self@.parents =~= want.parents);
            assert forall|k: Seq<char>| #[trigger] self@.children.contains_key(k) implies self@.children[k] == want.children[k] by {
                assert(list_at(self.children@, k) == self@.children[k]);
                assert(list_at(old(self).children@, k) == old(self)@.children_of(k));
            }
            assert(self@.children =~= want.children);
            old(self)@.lemma_without_relation(parent_id@, child_id@);
        }
    }

    /// The children recorded for `parent`, if a list is kept for it.
    pub fn get_children(&self, parent: &DriveId) -> (r: Option<&Vec<DriveId>>)
        requires
            self.wf(),
        ensures
            r is Some == self@.children.contains_key(parent@),
            r is Some ==> id_views(r.unwrap()@) == self@.children_of(parent@),
    {
        self.children.get(parent)
    }

    /// The parents recorded for `child`, if a list is kept for it.
    pub fn get_parents(&self, child: &DriveId) -> (r: Option<&Vec<DriveId>>)
        requires
            self.wf(),
        ensures
            r is Some == self@.parents.contains_key(child@),
            r is Some ==> id_views(r.unwrap()@) == self@.parents_of(child@),
    {
        self.parents.get(child)
    }

    /// Detaches `id` from all its parents and all its children and drops
    /// its own lists: afterwards no list holds it.
    pub fn detach(&mut self, id: &DriveId)
        requires
            old(self).wf(),
        ensures
            final(self).wf(),
            final(self)@ == old(self)@.detached(id@),
    {
        let up: Vec<DriveId> = match self.parents.get(id) {
            Some(list) => clone_ids(list),
            None => Vec::new(),
        };
        let down: Vec<DriveId> = match self.children.get(id) {
            Some(list) => clone_ids(list),
            None => Vec::new(),
        };
        assert(id_views(up@) =~= old(self)@.parents_of(id@));
        assert(id_views(down@) =~= old(self)@.children_of(id@));
        let mut i: usize = 0;
        while i < up.len()
            invariant
                i <= up.len(),
                self.parents == old(self).parents,
                self.children.wf(),
                forall|k: Seq<char>|
                    self.children@.contains_key(k) == old(self).children@.contains_key(k),
                forall|p: Seq<char>|
                    #[trigger] list_at(self.children@, p) == if id_views(up@).take(
                        i as int,
                    ).contains(p) {
                        without(list_at(old(self).children@, p), id@)
                    } else {
                        list_at(old(self).children@, p)
                    },
            decreases up.len() - i,
        {
            let ghost seen = id_views(up@).take(i as int);
            let ghost prev = self.children@;
            remove_all_from(&mut self.children, &up[i], id);
            proof {
                let next = id_views(up@).take(i as int + 1);
                let here = up@[i as int]@;
                assert(next =~= seen.push(here));
                assert(id_views(up@)[i as int] == here);
                assert forall|p: Seq<char>|
                    #[trigger] list_at(self.children@, p) == if next.contains(p) {
                        without(list_at(old(self).children@, p), id@)
                    } else {
                        list_at(old(self).children@, p)
                    } by {
                    assert(list_at(prev, p) == if seen.contains(p) {
                        without(list_at(old(self).children@, p), id@)
                    } else {
                        list_at(old(self).children@, p)
                    });
                    if p == here {
                        assert(next[i as int] == here);
                        if seen.contains(p) {
                            lemma_without_twice(list_at(old(self).children@, p), id@);
                        }
                    } else {
                        if seen.contains(p) {
                            let j = choose|j: int| 0 <= j < seen.len() && seen[j] == p;
                            assert(next[j] == p);
                        }
                        if next.contains(p) {
                            let j = choose|j: int| 0 <= j < next.len() && next[j] == p;
                            assert(seen[j] == p);
                        }
                    }
                }
            }
            i += 1;
        }
        let ghost mid = self.children@;
        proof {
            assert(id_views(up@).take(up@.len() as int) =~= id_views(up@));
            assert forall|p: Seq<char>|
                #[trigger] list_at(mid, p) == without(list_at(old(self).children@, p), id@) by {
                assert(list_at(old(self).children@, p) == old(self)@.children_of(p));
                if !id_views(up@).contains(p) {
                    old(self)@.lemma_consistent(p, id@);
                    lemma_without_absent(old(self)@.children_of(p), id@);
                }
            }
        }
        let mut j: usize = 0;
        while j < down.len()
            invariant
                j <= down.len(),
                self.children@ == mid,
                self.children.wf(),
                self.parents.wf(),
                forall|k: Seq<char>|
                    self.parents@.contains_key(k) == old(self).parents@.contains_key(k),
                forall|c: Seq<char>|
                    #[trigger] list_at(self.parents@, c) == if id_views(down@).take(
                        j as int,
                    ).contains(c) {
                        without(list_at(old(self).parents@, c), id@)
                    } else {
                        list_at(old(self).parents@, c)
                    },
            decreases down.len() - j,
        {
            let ghost seen = id_views(down@).take(j as int);
            let ghost prev = self.parents@;
            remove_all_from(&mut self.parents, &down[j], id);
            proof {
                let next = id_views(down@).take(j as int + 1);
                let here = down@[j as int]@;
                assert(next =~= seen.push(here));
                assert(id_views(down@)[j as int] == here);
                assert forall|c: Seq<char>|
                    #[trigger] list_at(self.parents@, c) == if next.contains(c) {
                        without(list_at(old(self).parents@, c), id@)
                    } else {
                        list_at(old(self).parents@, c)
                    } by {
                    assert(list_at(prev, c) == if seen.contains(c) {
                        without(list_at(old(self).parents@, c), id@)
                    } else {
                        list_at(old(self).parents@, c)
                    });
                    if c == here {
                        assert(next[j as int] == here);
                        if seen.contains(c) {
                            lemma_without_twice(list_at(old(self).parents@, c), id@);
                        }
                    } else {
                        if seen.contains(c) {
                            let k = choose|k: int| 0 <= k < seen.len() && seen[k] == c;
                            assert(next[k] == c);
                        }
                        if next.contains(c) {
                            let k = choose|k: int| 0 <= k < next.len() && next[k] == c;
                            assert(seen[k] == c);
                        }
                    }
                }
            }
            j += 1;
        }
        let ghost cut = self.parents@;
        proof {
            assert(id_views(down@).take(down@.len() as int) =~= id_views(down@));
            assert forall|c: Seq<char>|
                #[trigger] list_at(cut, c) == without(list_at(old(self).parents@, c), id@) by {
                assert(list_at(old(self).parents@, c) == old(self)@.parents_of(c));
                if !id_views(down@).contains(c) {
                    old(self)@.lemma_consistent(id@, c);
                    lemma_without_absent(old(self)@.parents_of(c), id@);
                }
            }
        }
        self.parents.remove(id);
        self.children.remove(id);
        proof {
            let want = old(self)@.detached(id@);
            assert forall|k: Seq<char>| #[trigger] self@.parents.contains_key(k) implies self@.parents[k] == want.parents[k] by {
                assert(self@.parents[k] == list_at(cut, k));
                assert(list_at(old(self).parents@, k) == old(self)@.parents[k]);
            }
            assert(self@.parents =~= want.parents);
            assert forall|k: Seq<char>| #[trigger] self@.children.contains_key(k) implies self@.children[k] == want.children[k] by {
                assert(self@.children[k] == list_at(mid, k));
                assert(list_at(old(self).children@, k) == old(self)@.children[k]);
            }
            assert(self@.children =~= want.children);
            old(self)@.lemma_detached(id@);
        }
    }
}

} // verus!
