use crate::attr::Timestamp;
use crate::drive_id::root_alias;
use crate::entry::{DriveEntryView, FileMetadataView};
use crate::lists::{
    lemma_first_index_of, lemma_occurrences_contains, lemma_occurrences_push,
    lemma_occurrences_without_first, occurrences,
};
use crate::provider::listing::from_offset;
use crate::provider::rename::{lemma_first_named_known, named_by_other};
use crate::provider::{first_named, lemma_first_named_skip, ProviderView};
use crate::text::same_ignoring_case;
use vstd::prelude::*;

verus! {

/// In every valid state of the provider the two directions of the graph
/// agree: `child` is among the children of `parent` exactly where `parent`
/// is among the parents of `child`.
pub proof fn parents_and_children_agree(s: ProviderView, parent: Seq<char>, child: Seq<char>)
    requires
        s.valid(),
    ensures
        s.graph.children_of(parent).contains(child) <==> s.graph.parents_of(child).contains(
            parent,
        ),
{
    s.graph.lemma_consistent(parent, child);
}

/// In every valid state of the provider the alias `root` is no entry, has
/// no list of parents or children, and stands in no such list.
pub proof fn no_root_alias_in_tables(s: ProviderView)
    requires
        s.valid(),
    ensures
        !s.entries.contains_key(root_alias()),
        s.graph.is_free_of(root_alias()),
{
    s.graph.lemma_free_without_lists(root_alias());
}

/// Where every entry but the root is filed, each of them stands among the
/// children of a parent: of the first of its parents.
pub proof fn entries_lie_under_a_parent(s: ProviderView, id: Seq<char>)
    requires
        s.valid(),
        s.all_filed(),
        s.entries.contains_key(id),
        id != s.root_id,
    ensures
        s.graph.parents_of(id).len() > 0,
        s.graph.children_of(s.graph.parents_of(id)[0]).contains(id),
{
    let parents = s.graph.parents_of(id);
    assert(parents.len() > 0);
    assert(parents.contains(parents[0]));
    s.graph.lemma_consistent(parents[0], id);
}

/// A new provider has every entry filed, having none; startup from it
/// files every entry that it takes in.
pub proof fn startup_files_every_entry(
    s: ProviderView,
    root: crate::metadata::RemoteMetadataView,
    files: Seq<crate::metadata::RemoteMetadataView>,
    now: Timestamp,
)
    requires
        s.valid(),
        !s.started(),
        ProviderView::root_error(root) is None,
    ensures
        s.with_root(root, now).ingested_all(files, now).all_filed(),
{
    assert(s.all_filed()) by {
        assert forall|k: Seq<char>| !s.entries.contains_key(k) by {
            if s.entries.contains_key(k) {
                assert(s.entries.dom().contains(k));
            }
        }
    }
    s.lemma_with_root(root, now);
    s.with_root(root, now).lemma_ingested_all_filed(files, now);
}

/// A rename that is not refused keeps every entry filed.
pub proof fn rename_keeps_entries_filed(
    s: ProviderView,
    p: Seq<char>,
    n: Seq<char>,
    p2: Seq<char>,
    n2: Seq<char>,
)
    requires
        s.valid(),
        s.all_filed(),
        s.rename_error(p, n, p2, n2) is None,
    ensures
        s.renamed(p, n, p2, n2).all_filed(),
{
    let source = s.rename_source(p, n)->Some_0;
    let after = s.renamed(p, n, p2, n2);
    s.lemma_renamed_valid(p, n, p2, n2);
    assert forall|k: Seq<char>| after.entries.contains_key(k) && k != after.root_id implies (
    #[trigger] after.graph.parents_of(k)).len() > 0 by {
        assert(s.entries.contains_key(k));
        assert(s.graph.parents_of(k).len() > 0);
    }
}

/// Folding in a change that is no removal keeps every entry filed. A
/// removal detaches the children of the removed object, which may leave
/// them under no parent.
pub proof fn changes_keep_entries_filed(s: ProviderView, c: crate::change::ChangeView)
    requires
        s.valid(),
        s.all_filed(),
        !(c.kind is Removed),
    ensures
        s.applied(c).all_filed(),
{
    let id = s.resolved(c.id);
    let after = s.applied(c);
    if s.entries.contains_key(id) {
        match c.kind {
            crate::change::ChangeTypeView::File(m) => {
                if s.moves(id, m.parents) {
                    let from = s.effective_parents(s.entries[id].original_metadata.parents);
                    let to = s.effective_parents(m.parents);
                    let cut = crate::provider::startup::without_links(s.graph, from, id);
                    crate::provider::startup::lemma_without_links_parents(s.graph, from, id);
                    crate::provider::startup::lemma_with_links_parents(cut, to, id);
                    assert(to.len() > 0);
                }
                assert forall|k: Seq<char>|
                    after.entries.contains_key(k) && k != after.root_id implies (
                #[trigger] after.graph.parents_of(k)).len() > 0 by {
                    assert(s.entries.contains_key(k));
                    assert(s.graph.parents_of(k).len() > 0);
                }
            },
            _ => {},
        }
    }
}

/// A read, a write or a release is served only for a handle whose object
/// is a known entry.
pub proof fn served_handles_have_entries(s: ProviderView, id: Seq<char>, fh: u64, write: bool)
    requires
        s.valid(),
    ensures
        s.access_error(id, fh, write) is None ==> s.handles.contains_key(fh)
            && s.entries.contains_key(s.handles[fh].id),
        s.release_error(id, fh) is None ==> s.handles.contains_key(fh) && s.entries.contains_key(
            s.handles[fh].id,
        ),
{
}

/// Names that agree when the case of ASCII letters is ignored find the same
/// child.
pub proof fn lemma_first_named_ignores_case(
    children: Seq<Seq<char>>,
    entries: Map<Seq<char>, DriveEntryView>,
    a: Seq<char>,
    b: Seq<char>,
)
    requires
        same_ignoring_case(a, b),
    ensures
        first_named(children, entries, a) == first_named(children, entries, b),
    decreases children.len(),
{
    if children.len() > 0 {
        lemma_first_named_ignores_case(children.drop_first(), entries, a, b);
    }
}

/// A lookup ignores the case of ASCII letters: two names that differ in
/// nothing else find the same entry under the same parent.
pub proof fn lookup_ignores_case(s: ProviderView, parent: Seq<char>, a: Seq<char>, b: Seq<char>)
    requires
        same_ignoring_case(a, b),
    ensures
        s.looked_up(parent, a) == s.looked_up(parent, b),
{
    lemma_first_named_ignores_case(s.graph.children_of(s.resolved(parent)), s.entries, a, b);
}

/// Renaming an entry to the name and parent that it was asked for by
/// changes neither the entries nor the graph, whether the rename is
/// refused or not.
pub proof fn rename_to_itself_changes_nothing(s: ProviderView, parent: Seq<char>, name: Seq<char>)
    requires
        s.valid(),
    ensures
        s.after_rename(parent, name, parent, name).entries == s.entries,
        s.after_rename(parent, name, parent, name).graph == s.graph,
        s.after_rename(parent, name, parent, name).handles == s.handles,
{
    let after = s.after_rename(parent, name, parent, name);
    if s.rename_source(parent, name) is Some && s.rename_error(parent, name, parent, name)
        is None {
        let source = s.rename_source(parent, name)->Some_0;
        lemma_first_named_known(s.graph.children_of(s.resolved(parent)), s.entries, name);
        let e = s.entries[source];
        assert(e.staged(false, name, false, s.resolved(parent)) == e);
        assert(after.entries =~= s.entries);
    }
}

/// Where the child at `i` goes by `name` and no child before it does,
/// `first_named` finds it.
pub proof fn lemma_first_named_finds(
    children: Seq<Seq<char>>,
    entries: Map<Seq<char>, DriveEntryView>,
    name: Seq<char>,
    i: int,
)
    requires
        0 <= i < children.len(),
        entries.contains_key(children[i]),
        same_ignoring_case(entries[children[i]].name, name),
        forall|j: int|
            0 <= j < i ==> !(entries.contains_key(#[trigger] children[j]) && same_ignoring_case(
                entries[children[j]].name,
                name,
            )),
    ensures
        first_named(children, entries, name) == Some(children[i]),
{
    lemma_first_named_skip(children, entries, name, i);
    assert(children.skip(i)[0] == children[i]);
}

/// After a rename that is not refused, the entry is found again under its
/// new parent by its new name.
pub proof fn renamed_entry_is_found(
    s: ProviderView,
    p: Seq<char>,
    n: Seq<char>,
    p2: Seq<char>,
    n2: Seq<char>,
)
    requires
        s.valid(),
        s.rename_error(p, n, p2, n2) is None,
    ensures
        s.renamed(p, n, p2, n2).valid(),
        s.renamed(p, n, p2, n2).rename_source(p2, n2) == s.rename_source(p, n),
        s.renamed(p, n, p2, n2).looked_up(p2, n2) is Some,
{
    let source = s.rename_source(p, n)->Some_0;
    let from = s.resolved(p);
    let to = s.resolved(p2);
    let there = s.renamed(p, n, p2, n2);
    s.lemma_renamed_valid(p, n, p2, n2);
    lemma_first_named_known(s.graph.children_of(from), s.entries, n);
    s.graph.lemma_consistent(from, source);
    assert(there.resolved(p2) == to && there.resolved(p) == from);
    let olds = s.graph.children_of(to);
    let kids = there.graph.children_of(to);
    if from != to {
        assert(s.graph.without_relation(from, source).children_of(to) == olds);
        assert(kids == olds.push(source));
    } else {
        assert(kids == olds);
    }
    assert(there.entries.contains_key(source));
    assert(same_ignoring_case(there.entries[source].name, n2));
    lemma_first_index_of(kids, source);
    if from != to {
        assert(kids[kids.len() - 1] == source);
    } else {
        assert(olds.contains(source));
    }
    let at = crate::lists::first_index_of(kids, source);
    assert(0 <= at < kids.len() && kids[at] == source);
    assert forall|j: int| 0 <= j < at implies !(there.entries.contains_key(#[trigger] kids[j])
        && same_ignoring_case(there.entries[kids[j]].name, n2)) by {
        let c = kids[j];
        assert(c != source);
        if there.entries.contains_key(c) {
            assert(there.entries[c] == s.entries[c]);
            assert(j < olds.len());
            assert(olds[j] == c);
        }
    }
    lemma_first_named_finds(kids, there.entries, n2, at);
}

/// Whether the way back is open for the entry that `rename(p, n, ..)`
/// moves: its old parent is a known entry, and no other child of the old
/// parent goes by the old name.
pub open spec fn way_back_is_open(s: ProviderView, p: Seq<char>, n: Seq<char>) -> bool {
    &&& s.entries.contains_key(s.resolved(p))
    &&& !named_by_other(
        s.graph.children_of(s.resolved(p)),
        s.entries,
        n,
        s.rename_source(p, n)->Some_0,
    )
}

/// After a rename that is not refused, the rename back is not refused
/// either where the way back is open.
pub proof fn rename_back_is_not_refused(
    s: ProviderView,
    p: Seq<char>,
    n: Seq<char>,
    p2: Seq<char>,
    n2: Seq<char>,
)
    requires
        s.valid(),
        s.rename_error(p, n, p2, n2) is None,
        way_back_is_open(s, p, n),
    ensures
        s.renamed(p, n, p2, n2).rename_error(p2, n2, p, n) is None,
{
    let source = s.rename_source(p, n)->Some_0;
    let from = s.resolved(p);
    let to = s.resolved(p2);
    let there = s.renamed(p, n, p2, n2);
    renamed_entry_is_found(s, p, n, p2, n2);
    lemma_first_named_known(s.graph.children_of(from), s.entries, n);
    assert(there.resolved(p2) == to && there.resolved(p) == from);
    assert(there.entries.contains_key(from));
    let olds = s.graph.children_of(from);
    let kids = there.graph.children_of(from);
    if from != to {
        assert(s.graph.children.contains_key(from));
        assert(kids == crate::lists::without_first(olds, source));
    } else {
        assert(kids == olds);
    }
    if named_by_other(kids, there.entries, n, source) {
        let i = choose|i: int|
            0 <= i < kids.len() && #[trigger] kids[i] != source && there.entries.contains_key(
                kids[i],
            ) && same_ignoring_case(there.entries[kids[i]].name, n);
        let c = kids[i];
        assert(there.entries[c] == s.entries[c]);
        if from != to {
            crate::lists::lemma_without_first_subset(olds, source, i);
        }
        assert(olds.contains(c));
        let j = choose|j: int| 0 <= j < olds.len() && olds[j] == c;
        assert(olds[j] != source && s.entries.contains_key(olds[j]) && same_ignoring_case(
            s.entries[olds[j]].name,
            n,
        ));
        assert(false);
    }
}

/// Moving an entry away and back restores where it lies and what it is
/// called. Let `rename(p, n, p2, n2)` be not refused, for an entry that
/// goes by exactly `n`, and let the way back be open. Then
/// `rename(p2, n2, p, n)` is not refused and moves the same entry; the
/// entry goes by the name `n` again; no other entry has changed; and every
/// list of children and of parents holds each object as often as before,
/// so that each object lies under the same parents as before. The entry
/// may stand at another place in a list than before.
pub proof fn rename_round_trip(
    s: ProviderView,
    p: Seq<char>,
    n: Seq<char>,
    p2: Seq<char>,
    n2: Seq<char>,
)
    requires
        s.valid(),
        s.rename_error(p, n, p2, n2) is None,
        s.entries[s.rename_source(p, n)->Some_0].name == n,
        way_back_is_open(s, p, n),
    ensures
        ({
            let source = s.rename_source(p, n)->Some_0;
            let there = s.renamed(p, n, p2, n2);
            let back = there.renamed(p2, n2, p, n);
            &&& there.rename_error(p2, n2, p, n) is None
            &&& there.rename_source(p2, n2) == Some(source)
            &&& back.entries.dom() == s.entries.dom()
            &&& back.entries[source].name == n
            &&& forall|k: Seq<char>|
                k != source && s.entries.contains_key(k) ==> #[trigger] back.entries[k]
                    == s.entries[k]
            &&& forall|x: Seq<char>, c: Seq<char>|
                #[trigger] occurrences(back.graph.children_of(x), c) == occurrences(
                    s.graph.children_of(x),
                    c,
                )
            &&& forall|x: Seq<char>, c: Seq<char>|
                #[trigger] occurrences(back.graph.parents_of(c), x) == occurrences(
                    s.graph.parents_of(c),
                    x,
                )
            &&& forall|x: Seq<char>, c: Seq<char>|
                #[trigger] back.graph.children_of(x).contains(c) == s.graph.children_of(
                    x,
                ).contains(c)
            &&& forall|x: Seq<char>, c: Seq<char>|
                #[trigger] back.graph.parents_of(c).contains(x) == s.graph.parents_of(c).contains(
                    x,
                )
        }),
{
    let source = s.rename_source(p, n)->Some_0;
    let from = s.resolved(p);
    let to = s.resolved(p2);
    let there = s.renamed(p, n, p2, n2);
    renamed_entry_is_found(s, p, n, p2, n2);
    rename_back_is_not_refused(s, p, n, p2, n2);
    lemma_first_named_known(s.graph.children_of(from), s.entries, n);
    s.graph.lemma_consistent(from, source);
    assert(there.resolved(p2) == to && there.resolved(p) == from);
    there.lemma_renamed_valid(p2, n2, p, n);
    let back = there.renamed(p2, n2, p, n);
    assert(back.entries.dom() =~= s.entries.dom());
    if from != to {
        let g0 = s.graph;
        let g1 = g0.without_relation(from, source);
        let g2 = g1.with_relation(to, source);
        let g3 = g2.without_relation(to, source);
        let g4 = g3.with_relation(from, source);
        assert(back.graph == g4);
        g0.lemma_without_relation(from, source);
        g1.lemma_with_relation(to, source);
        g2.lemma_without_relation(to, source);
        assert forall|x: Seq<char>, c: Seq<char>|
            #[trigger] occurrences(back.graph.children_of(x), c) == occurrences(
                s.graph.children_of(x),
                c,
            ) by {
            lemma_occurrences_without_first(g0.children_of(from), source, c);
            lemma_occurrences_push(g1.children_of(to), source, c);
            lemma_occurrences_without_first(g2.children_of(to), source, c);
            lemma_occurrences_push(g3.children_of(from), source, c);
            lemma_occurrences_contains(g2.children_of(to), source);
            lemma_occurrences_contains(g0.children_of(from), source);
            lemma_first_index_of(g0.children_of(from), source);
            lemma_first_index_of(g2.children_of(to), source);
            assert(g2.children_of(to)[g2.children_of(to).len() - 1] == source);
        }
        assert forall|x: Seq<char>, c: Seq<char>|
            #[trigger] occurrences(back.graph.parents_of(c), x) == occurrences(
                s.graph.parents_of(c),
                x,
            ) by {
            lemma_occurrences_without_first(g0.parents_of(source), from, x);
            lemma_occurrences_push(g1.parents_of(source), to, x);
            lemma_occurrences_without_first(g2.parents_of(source), to, x);
            lemma_occurrences_push(g3.parents_of(source), from, x);
            lemma_occurrences_contains(g2.parents_of(source), to);
            lemma_occurrences_contains(g0.parents_of(source), from);
            lemma_first_index_of(g0.parents_of(source), from);
            lemma_first_index_of(g2.parents_of(source), to);
            assert(g2.parents_of(source)[g2.parents_of(source).len() - 1] == to);
        }
    }
    assert forall|x: Seq<char>, c: Seq<char>|
        #[trigger] back.graph.children_of(x).contains(c) == s.graph.children_of(x).contains(
            c,
        ) by {
        lemma_occurrences_contains(back.graph.children_of(x), c);
        lemma_occurrences_contains(s.graph.children_of(x), c);
        assert(occurrences(back.graph.children_of(x), c) == occurrences(
            s.graph.children_of(x),
            c,
        ));
    }
    assert forall|x: Seq<char>, c: Seq<char>|
        #[trigger] back.graph.parents_of(c).contains(x) == s.graph.parents_of(c).contains(x) by {
        lemma_occurrences_contains(back.graph.parents_of(c), x);
        lemma_occurrences_contains(s.graph.parents_of(c), x);
        assert(occurrences(back.graph.parents_of(c), x) == occurrences(s.graph.parents_of(c), x));
    }
}

/// After the size of an entry was set, its metadata reports that size,
/// and a read at or past it asks the cache file for nothing.
pub proof fn set_size_is_reported(
    s: ProviderView,
    id: Seq<char>,
    mode: Option<u32>,
    uid: Option<u32>,
    gid: Option<u32>,
    size: u64,
    flags: Option<u32>,
)
    requires
        s.valid(),
        s.set_attr_error(id, Some(size), true) is None,
    ensures
        ({
            let rid = s.resolved(id);
            let after = ProviderView {
                entries: s.entries.insert(
                    rid,
                    s.entries[rid].with_attrs(mode, uid, gid, Some(size), flags),
                ),
                ..s
            };
            &&& after.valid()
            &&& after.entries[after.resolved(id)].metadata().attr.size == size
            &&& forall|offset: u64, len: usize|
                offset >= size ==> #[trigger] after.read_len(id, offset, len) == 0
        }),
{
    let rid = s.resolved(id);
    let after = ProviderView {
        entries: s.entries.insert(rid, s.entries[rid].with_attrs(mode, uid, gid, Some(size), flags)),
        ..s
    };
    assert(after.entries.dom() =~= s.entries.dom());
}

/// A read at or past the end of a file needs no access to the cache file:
/// it yields no bytes.
pub proof fn read_at_end_yields_nothing(
    s: ProviderView,
    id: Seq<char>,
    fh: u64,
    offset: u64,
    size: usize,
)
    requires
        offset >= s.entries[s.resolved(id)].attr.size,
    ensures
        s.read_len(id, offset, size) == 0,
        s.read_io(id, fh, offset, size) is None,
{
}

/// A read never asks the cache file for more bytes than were requested,
/// nor for bytes past the end of the file.
pub proof fn read_stays_within_file(s: ProviderView, id: Seq<char>, offset: u64, size: usize)
    ensures
        s.read_len(id, offset, size) <= size,
        offset + s.read_len(id, offset, size) <= s.entries[s.resolved(id)].attr.size
            || s.read_len(id, offset, size) == 0,
{
}

/// A write never shrinks a file, and a write that ends past the end of the
/// file extends it to the end of the write; in particular a write that
/// starts past the end does.
pub proof fn write_extends_file(
    e: DriveEntryView,
    offset: u64,
    written: u32,
    checksum: Seq<char>,
    now: Timestamp,
)
    ensures
        e.written(offset, written, checksum, now).attr.size >= e.attr.size,
        offset + written > e.attr.size && offset + written <= u64::MAX ==> e.written(
            offset,
            written,
            checksum,
            now,
        ).attr.size == offset + written,
{
}

/// What was written is within reach of the next read: after a write of
/// `written` bytes at `offset` was recorded, a read of as many bytes at the
/// same offset asks the cache file for all of them.
pub proof fn written_range_is_read_in_full(
    s: ProviderView,
    id: Seq<char>,
    fh: u64,
    offset: u64,
    written: u32,
    checksum: Seq<char>,
    now: Timestamp,
)
    requires
        s.valid(),
        s.write_error(id, fh, Some(written)) is None,
        offset + written <= u64::MAX,
    ensures
        s.after_write(id, fh, offset, written, checksum, now).valid(),
        s.after_write(id, fh, offset, written, checksum, now).read_len(
            id,
            offset,
            written as usize,
        ) == written,
{
    let after = s.after_write(id, fh, offset, written, checksum, now);
    assert(after.entries.dom() =~= s.entries.dom());
}

/// An object is downloaded once: after an open whose download, where one
/// was planned, has ended well, the cache counts as fresh, so that the next
/// open of the object plans no download. The second open gets the next
/// handle number, and both handles lie on the same cache file.
pub proof fn second_open_plans_no_download(
    s: ProviderView,
    id: Seq<char>,
    flags: i32,
    flags2: i32,
)
    requires
        s.valid(),
        s.path_error(s.resolved(id)) is None,
        s.next_fh + 1 < u64::MAX,
    ensures
        ({
            let rid = s.resolved(id);
            let downloaded = if s.needs_download(rid) {
                Some(true)
            } else {
                None
            };
            let first = s.opening(id).opened(id, flags, downloaded);
            let second = first.opening(id).opened(id, flags2, None);
            &&& s.opening(id).finish_open_error(id, downloaded) is None
            &&& first.valid()
            &&& first.entries[rid].is_local
            &&& !first.needs_download(rid)
            &&& first.opening(id).finish_open_error(id, None) is None
            &&& second.handles.contains_key(s.next_fh)
            &&& second.handles.contains_key((s.next_fh + 1) as u64)
            &&& second.handles[s.next_fh].path == second.handles[(s.next_fh + 1) as u64].path
            &&& second.handles[s.next_fh].id == rid
            &&& second.handles[(s.next_fh + 1) as u64].id == rid
        }),
{
    let rid = s.resolved(id);
    let downloaded = if s.needs_download(rid) {
        Some(true)
    } else {
        None
    };
    let planned = s.opening(id);
    assert(planned.resolved(id) == rid);
    assert(planned.entries.dom() =~= s.entries.dom());
    let first = planned.opened(id, flags, downloaded);
    assert(first.entries.dom() =~= s.entries.dom());
    assert(first.resolved(id) == rid);
    let again = first.opening(id);
    assert(again.entries.dom() =~= s.entries.dom());
    assert(again.resolved(id) == rid);
}

/// A write that was recorded makes the handle dirty, and the release of a
/// dirty handle that is not refused removes the handle, plans the upload
/// and counts it as running for the object.
pub proof fn dirty_release_starts_an_upload(
    s: ProviderView,
    id: Seq<char>,
    fh: u64,
    offset: u64,
    written: u32,
    checksum: Seq<char>,
    now: Timestamp,
)
    requires
        s.valid(),
        s.write_error(id, fh, Some(written)) is None,
    ensures
        ({
            let after = s.after_write(id, fh, offset, written, checksum, now);
            &&& after.release_uploads(fh)
            &&& after.entries[s.resolved(id)].local_md5 == Some(checksum)
            &&& after.release_error(id, fh) is None ==> {
                &&& !after.released(id, fh).handles.contains_key(fh)
                &&& after.released(id, fh).running.contains(s.resolved(id))
                &&& after.released(id, fh).entries == after.entries
            }
        }),
{
}

/// A listing from a position at or past its end is empty.
pub proof fn listing_past_end_is_empty(list: Seq<FileMetadataView>, offset: u64)
    requires
        offset >= list.len(),
    ensures
        from_offset(list, offset) == Seq::<FileMetadataView>::empty(),
{
}

/// At most one remote operation runs for an object: an upload is started
/// only for an object for which none runs, and then one does.
pub proof fn one_remote_operation_per_object(s: ProviderView, id: Seq<char>)
    ensures
        s.running.contains(id) ==> crate::provider::DriveFileProvider::upload_error(s, id) == Some(
            crate::errno::ErrorKind::Io,
        ),
{
}

} // verus!
