use crate::attr::{EntryKind, FileAttr};
use crate::drive_id::DriveId;
use crate::entry::{DriveEntryView, FileMetadata, FileMetadataView};
use crate::errno::ErrorKind;
use crate::provider::{DriveFileProvider, ProviderView};
use crate::request::{ProviderLookupRequest, ProviderMetadataRequest, ProviderReadDirRequest};
use vstd::prelude::*;

verus! {

/// The mathematical value of each record of a list.
pub open spec fn metadata_views(list: Seq<FileMetadata>) -> Seq<FileMetadataView> {
    list.map_values(|m: FileMetadata| m@)
}

/// What a listing tells of `children`: the metadata of those that are known
/// entries, in the order of `children`.
pub open spec fn listed(children: Seq<Seq<char>>, entries: Map<Seq<char>, DriveEntryView>) -> Seq<
    FileMetadataView,
>
    decreases children.len(),
{
    if children.len() == 0 {
        Seq::empty()
    } else if entries.contains_key(children.last()) {
        listed(children.drop_last(), entries).push(entries[children.last()].metadata())
    } else {
        listed(children.drop_last(), entries)
    }
}

/// The part of a listing from position `offset` on; nothing where `offset`
/// lies at or past its end.
pub open spec fn from_offset<A>(list: Seq<A>, offset: u64) -> Seq<A> {
    if offset >= list.len() {
        Seq::empty()
    } else {
        list.skip(offset as int)
    }
}

/// Cutting at an offset and appending is appending and cutting, except
/// where the offset lies past the longer list as well.
pub proof fn lemma_from_offset_push<A>(list: Seq<A>, x: A, offset: u64)
    ensures
        from_offset(list.push(x), offset) == if offset <= list.len() {
            from_offset(list, offset).push(x)
        } else {
            Seq::<A>::empty()
        },
{
    if offset <= list.len() {
        if offset == list.len() {
            assert(list.push(x).skip(offset as int) =~= Seq::<A>::empty().push(x));
        } else {
            assert(list.push(x).skip(offset as int) =~= list.skip(offset as int).push(x));
        }
    }
}

impl DriveEntryView {
    /// The entry with the attributes that a request sets: the size, the
    /// permission bits (the low 16 bits of the mode), the flags, the owner
    /// and the group, each where the request names it.
    pub open spec fn with_attrs(
        self,
        mode: Option<u32>,
        uid: Option<u32>,
        gid: Option<u32>,
        size: Option<u64>,
        flags: Option<u32>,
    ) -> DriveEntryView {
        DriveEntryView {
            attr: FileAttr {
                size: match size {
                    Some(s) => s,
                    None => self.attr.size,
                },
                perm: match mode {
                    Some(m) => (m & 0xffff) as u16,
                    None => self.attr.perm,
                },
                flags: match flags {
                    Some(f) => f,
                    None => self.attr.flags,
                },
                uid: match uid {
                    Some(u) => u,
                    None => self.attr.uid,
                },
                gid: match gid {
                    Some(g) => g,
                    None => self.attr.gid,
                },
                ..self.attr
            },
            ..self
        }
    }
}

impl ProviderView {
    /// What a lookup of `name` under `parent` finds.
    pub open spec fn looked_up(self, parent: Seq<char>, name: Seq<char>) -> Option<
        FileMetadataView,
    > {
        match self.first_child_named(self.resolved(parent), name) {
            Some(c) => Some(self.entries[c].metadata()),
            None => None,
        }
    }

    /// Why the children of `id` cannot be listed, if so: the entry is
    /// unknown, or it is no directory.
    pub open spec fn read_dir_error(self, id: Seq<char>) -> Option<ErrorKind> {
        if !self.entries.contains_key(self.resolved(id)) {
            Some(ErrorKind::NotFound)
        } else if self.entries[self.resolved(id)].attr.kind != EntryKind::Directory {
            Some(ErrorKind::NotADirectory)
        } else {
            None
        }
    }

    /// The listing of the directory `id`: its children that are known
    /// entries, in insertion order.
    pub open spec fn listing(self, id: Seq<char>) -> Seq<FileMetadataView> {
        listed(self.graph.children_of(self.resolved(id)), self.entries)
    }
}

impl DriveFileProvider {
    /// Finds the first child of the parent whose name agrees with the
    /// requested one when the case of ASCII letters is ignored.
    pub fn lookup(&self, request: &ProviderLookupRequest) -> (r: Option<FileMetadata>)
        requires
            self.wf(),
        ensures
            match self@.looked_up(request.parent@, request.name@) {
                Some(m) => r is Some && r.unwrap()@ == m,
                None => r is None,
            },
    {
        let parent_id = self.get_correct_id(request.parent.clone());
        match self.find_first_child_by_name(request.name.as_str(), &parent_id) {
            Some(entry) => Some(entry.create_file_metadata_from_entry()),
            None => None,
        }
    }

    /// Reports the metadata of the entry; an unknown entry is not found.
    pub fn metadata(&self, request: &ProviderMetadataRequest) -> (r: Result<FileMetadata, ErrorKind>)
        requires
            self.wf(),
        ensures
            self@.entries.contains_key(self@.resolved(request.file_id@)) ==> r is Ok && r->Ok_0@
                == self@.entries[self@.resolved(request.file_id@)].metadata(),
            !self@.entries.contains_key(self@.resolved(request.file_id@)) ==> r == Err::<
                FileMetadata,
                ErrorKind,
            >(ErrorKind::NotFound),
    {
        let file_id = self.get_correct_id(request.file_id.clone());
        match self.entries.get(&file_id) {
            Some(entry) => Ok(entry.create_file_metadata_from_entry()),
            None => Err(ErrorKind::NotFound),
        }
    }

    /// Lists the children of a directory from the requested position on, in
    /// insertion order. A position at or past the end gives an empty list.
    pub fn read_dir(&self, request: &ProviderReadDirRequest) -> (r: Result<
        Vec<FileMetadata>,
        ErrorKind,
    >)
        requires
            self.wf(),
        ensures
            match self@.read_dir_error(request.file_id@) {
                Some(e) => r == Err::<Vec<FileMetadata>, ErrorKind>(e),
                None => r is Ok && metadata_views(r->Ok_0@) == from_offset(
                    self@.listing(request.file_id@),
                    request.offset,
                ),
            },
    {
        let parent_id = self.get_correct_id(request.file_id.clone());
        match self.entries.get(&parent_id) {
            Some(entry) => {
                match entry.attr.kind {
                    EntryKind::Directory => {},
                    EntryKind::RegularFile => {
                        return Err(ErrorKind::NotADirectory);
                    },
                }
            },
            None => {
                return Err(ErrorKind::NotFound);
            },
        }
        let mut out: Vec<FileMetadata> = Vec::new();
        let children = match self.graph.get_children(&parent_id) {
            Some(list) => list,
            None => {
                assert(metadata_views(out@) =~= Seq::<FileMetadataView>::empty());
                return Ok(out);
            },
        };
        let ghost all = self@.graph.children_of(parent_id@);
        let mut seen: u64 = 0;
        let mut i: usize = 0;
        proof {
            assert(all.take(0) =~= Seq::<Seq<char>>::empty());
            assert(metadata_views(out@) =~= Seq::<FileMetadataView>::empty());
        }
        while i < children.len()
            invariant
                i <= children.len(),
                self.wf(),
                all == crate::drive_id::id_views(children@),
                seen == listed(all.take(i as int), self@.entries).len(),
                seen <= i,
                metadata_views(out@) == from_offset(
                    listed(all.take(i as int), self@.entries),
                    request.offset,
                ),
            decreases children.len() - i,
        {
            let ghost before = metadata_views(out@);
            let ghost so_far = listed(all.take(i as int), self@.entries);
            proof {
                assert(all.take(i as int + 1).drop_last() =~= all.take(i as int));
                assert(all.take(i as int + 1).last() == children@[i as int]@);
            }
            match self.entries.get(&children[i]) {
                Some(entry) => {
                    proof {
                        lemma_from_offset_push(so_far, entry@.metadata(), request.offset);
                    }
                    if seen >= request.offset {
                        let m = entry.create_file_metadata_from_entry();
                        out.push(m);
                        assert(metadata_views(out@) =~= before.push(entry@.metadata()));
                    }
                    seen += 1;
                },
                None => {},
            }
            i += 1;
        }
        proof {
            assert(all.take(all.len() as int) =~= all);
        }
        Ok(out)
    }
}

/// The characters of each text of a list.
pub open spec fn text_views(list: Seq<String>) -> Seq<Seq<char>> {
    list.map_values(|t: String| t@)
}

/// The characters of each text of an optional list.
pub open spec fn opt_texts_view(list: Option<Vec<String>>) -> Option<Seq<Seq<char>>> {
    match list {
        Some(l) => Some(text_views(l@)),
        None => None,
    }
}

/// A path with more names at its end, where there is a path.
pub open spec fn extended(path: Option<Seq<Seq<char>>>, names: Seq<Seq<char>>) -> Option<
    Seq<Seq<char>>,
> {
    match path {
        Some(p) => Some(p + names),
        None => None,
    }
}

impl ProviderView {
    /// The names on the way from the root down to the entry `id`, following
    /// the first parent of each entry for at most `steps` steps: nothing
    /// for the root itself, the entry's own name alone for an entry without
    /// parents, and no path at all where an entry on the way is unknown or
    /// the steps run out.
    pub open spec fn names_down_to(self, id: Seq<char>, steps: nat) -> Option<Seq<Seq<char>>>
        decreases steps,
    {
        if !self.entries.contains_key(id) {
            None
        } else if id == self.root_id {
            Some(Seq::empty())
        } else if steps == 0 {
            None
        } else if self.graph.parents_of(id).len() == 0 {
            Some(seq![self.entries[id].name])
        } else {
            extended(
                self.names_down_to(self.graph.parents_of(id)[0], (steps - 1) as nat),
                seq![self.entries[id].name],
            )
        }
    }

    /// The path of the entry `id` in the filesystem view: the names from
    /// the root down to it, where each entry lies under the first of its
    /// parents. Following parents stops after as many steps as there are
    /// entries, so that a cycle among the parents gives no path.
    pub open spec fn full_path(self, id: Seq<char>) -> Option<Seq<Seq<char>>> {
        self.names_down_to(self.resolved(id), self.entries.dom().len())
    }
}

impl DriveFileProvider {
    /// The path of an entry in the filesystem view: the names from the root
    /// down to it. The remote lets an object have several parents; the
    /// path goes through the first one observed.
    pub fn get_full_path(&self, id: &DriveId) -> (r: Option<Vec<String>>)
        requires
            self.wf(),
        ensures
            opt_texts_view(r) == self@.full_path(id@),
    {
        let mut current = self.get_correct_id(id.clone());
        let mut steps: usize = self.entries.len();
        let mut path: Vec<String> = Vec::new();
        proof {
            assert(text_views(path@) =~= Seq::<Seq<char>>::empty());
            assert(self@.entries.dom() =~= self.entries@.dom());
            match self@.names_down_to(current@, steps as nat) {
                Some(p) => {
                    assert(p + Seq::<Seq<char>>::empty() =~= p);
                },
                None => {},
            }
        }
        loop
            invariant
                self.wf(),
                self@.full_path(id@) == extended(
                    self@.names_down_to(current@, steps as nat),
                    text_views(path@),
                ),
            decreases steps,
        {
            let entry = match self.entries.get(&current) {
                Some(e) => e,
                None => {
                    return None;
                },
            };
            if current == self.alt_root_id {
                proof {
                    assert(Seq::<Seq<char>>::empty() + text_views(path@) =~= text_views(path@));
                }
                return Some(path);
            }
            if steps == 0 {
                return None;
            }
            let ghost before = text_views(path@);
            path.insert(0, entry.name.clone());
            proof {
                assert(text_views(path@) =~= seq![entry.name@] + before);
            }
            let next = match self.graph.get_parents(&current) {
                Some(parents) => {
                    if parents.len() == 0 {
                        None
                    } else {
                        assert(crate::drive_id::id_views(parents@)[0] == parents@[0]@);
                        Some(parents[0].clone())
                    }
                },
                None => None,
            };
            match next {
                Some(parent) => {
                    proof {
                        match self@.names_down_to(parent@, (steps - 1) as nat) {
                            Some(p) => {
                                assert((p + seq![entry.name@]) + before =~= p + (seq![
                                    entry.name@,
                                ] + before));
                            },
                            None => {},
                        }
                    }
                    current = parent;
                    steps = steps - 1;
                },
                None => {
                    return Some(path);
                },
            }
        }
    }
}

} // verus!
