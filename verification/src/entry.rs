use crate::attr::FileAttr;
use crate::checksum::{classify, compare_checksums, ChecksumMatch};
use crate::common::{joined, LocalPath};
use crate::drive_id::DriveId;
use crate::metadata::{RemoteMetadata, RemoteMetadataView};
use crate::text::{clone_opt_string, opt_text};
use vstd::prelude::*;

verus! {

/// The authoritative record of one remote object.
#[derive(Debug)]
pub struct DriveEntry {
    /// The canonical id of the object, never the alias of the root.
    pub id: DriveId,
    /// The name under which the object is listed.
    pub name: String,
    /// The POSIX attributes.
    pub attr: FileAttr,
    /// The checksum that the remote last reported.
    pub upstream_md5: Option<String>,
    /// The checksum of the local cache file.
    pub local_md5: Option<String>,
    /// True until the cache is proven fresh.
    pub has_upstream_content_changes: bool,
    /// Whether a cache file exists.
    pub is_local: bool,
    /// Whether the entry is pinned to the persistent cache directory.
    pub perma: bool,
    /// Whether the object was changed on both sides; reads and writes are
    /// refused while this holds.
    pub conflict: bool,
    /// What is staged to be pushed to the remote.
    pub pending_metadata: RemoteMetadata,
    /// What the remote last confirmed.
    pub original_metadata: RemoteMetadata,
}

/// The record of one remote object as the provider files it.
pub type FileData = DriveEntry;

/// The mathematical value of a `DriveEntry`.
pub struct DriveEntryView {
    pub id: Seq<char>,
    pub name: Seq<char>,
    pub attr: FileAttr,
    pub upstream_md5: Option<Seq<char>>,
    pub local_md5: Option<Seq<char>>,
    pub has_upstream_content_changes: bool,
    pub is_local: bool,
    pub perma: bool,
    pub conflict: bool,
    pub pending_metadata: RemoteMetadataView,
    pub original_metadata: RemoteMetadataView,
}

impl View for DriveEntry {
    type V = DriveEntryView;

    open spec fn view(&self) -> DriveEntryView {
        DriveEntryView {
            id: self.id@,
            name: self.name@,
            attr: self.attr,
            upstream_md5: opt_text(self.upstream_md5),
            local_md5: opt_text(self.local_md5),
            has_upstream_content_changes: self.has_upstream_content_changes,
            is_local: self.is_local,
            perma: self.perma,
            conflict: self.conflict,
            pending_metadata: self.pending_metadata@,
            original_metadata: self.original_metadata@,
        }
    }
}

/// What a request learns of an entry: its id, its name and its attributes.
#[derive(Debug)]
pub struct FileMetadata {
    pub id: DriveId,
    pub name: String,
    pub attr: FileAttr,
}

/// The mathematical value of a `FileMetadata`.
pub struct FileMetadataView {
    pub id: Seq<char>,
    pub name: Seq<char>,
    pub attr: FileAttr,
}

impl View for FileMetadata {
    type V = FileMetadataView;

    open spec fn view(&self) -> FileMetadataView {
        FileMetadataView { id: self.id@, name: self.name@, attr: self.attr }
    }
}

impl Clone for FileMetadata {
    fn clone(&self) -> (r: FileMetadata)
        ensures
            r@ == self@,
    {
        FileMetadata { id: self.id.clone(), name: self.name.clone(), attr: self.attr }
    }
}

impl DriveEntryView {
    /// What requests are told of this entry.
    pub open spec fn metadata(self) -> FileMetadataView {
        FileMetadataView { id: self.id, name: self.name, attr: self.attr }
    }

    /// The name that a record gives an entry: the record's own, or
    /// `NO_NAME` in its place.
    pub open spec fn name_of(m: RemoteMetadataView) -> Seq<char> {
        match m.name {
            Some(n) => n,
            None => "NO_NAME"@,
        }
    }

    /// The entry that is made of the record `m` of the object `id` with the
    /// attributes `attr`: nothing staged, no cache file, and upstream
    /// changes assumed until the cache is proven fresh.
    pub open spec fn fresh(id: Seq<char>, attr: FileAttr, m: RemoteMetadataView) -> DriveEntryView {
        DriveEntryView {
            id,
            name: Self::name_of(m),
            attr,
            upstream_md5: m.md5_checksum,
            local_md5: None,
            has_upstream_content_changes: true,
            is_local: false,
            perma: false,
            conflict: false,
            pending_metadata: RemoteMetadataView::empty(),
            original_metadata: m,
        }
    }

    /// The size that a change reports, where it reports a valid one.
    pub open spec fn changed_size(self, size: Option<i64>) -> u64 {
        match size {
            Some(s) => if s >= 0 {
                s as u64
            } else {
                self.attr.size
            },
            None => self.attr.size,
        }
    }

    /// The entry after a change of the remote has been merged in. Size,
    /// name, description and thumbnail link are taken over where the change
    /// reports them (a negative size is ignored, and a name that is staged
    /// locally stays the listed one), and so are the reported parents. The
    /// checksum that the change reports is then classified against the
    /// local and the last reported one. A match or a just uploaded change
    /// proves the cache fresh. A local edit alone is kept: no download is
    /// asked for, so that the edit is uploaded when the handle is released.
    /// A change on the remote alone or a missing checksum asks for a new
    /// download. A change on both sides marks the conflict.
    pub open spec fn merged(self, change: RemoteMetadataView) -> DriveEntryView {
        let class = classify(change.md5_checksum, self.local_md5, self.upstream_md5);
        DriveEntryView {
            name: if change.name is Some && self.pending_metadata.name is None {
                change.name->Some_0
            } else {
                self.name
            },
            attr: FileAttr { size: self.changed_size(change.size), ..self.attr },
            upstream_md5: change.md5_checksum,
            has_upstream_content_changes: match class {
                ChecksumMatch::Match | ChecksumMatch::CacheMismatch
                | ChecksumMatch::LocalMismatch => false,
                ChecksumMatch::RemoteMismatch | ChecksumMatch::Missing => true,
                ChecksumMatch::Conflict => self.has_upstream_content_changes,
            },
            conflict: self.conflict || class == ChecksumMatch::Conflict,
            original_metadata: RemoteMetadataView {
                size: if change.size is Some && change.size->Some_0 >= 0 {
                    change.size
                } else {
                    self.original_metadata.size
                },
                name: if change.name is Some {
                    change.name
                } else {
                    self.original_metadata.name
                },
                description: if change.description is Some {
                    change.description
                } else {
                    self.original_metadata.description
                },
                thumbnail_link: if change.thumbnail_link is Some {
                    change.thumbnail_link
                } else {
                    self.original_metadata.thumbnail_link
                },
                md5_checksum: change.md5_checksum,
                parents: if change.parents is Some {
                    change.parents
                } else {
                    self.original_metadata.parents
                },
                ..self.original_metadata
            },
            ..self
        }
    }
}

impl DriveEntry {
    /// Makes the entry of the object `id` from its record and attributes.
    pub fn new(id: DriveId, attr: FileAttr, metadata: RemoteMetadata) -> (r: DriveEntry)
        ensures
            r@ == DriveEntryView::fresh(id@, attr, metadata@),
    {
        let name = match &metadata.name {
            Some(n) => n.clone(),
            None => String::from_str("NO_NAME"),
        };
        DriveEntry {
            id,
            name,
            attr,
            upstream_md5: clone_opt_string(&metadata.md5_checksum),
            local_md5: None,
            has_upstream_content_changes: true,
            is_local: false,
            perma: false,
            conflict: false,
            pending_metadata: RemoteMetadata::empty(),
            original_metadata: metadata,
        }
    }

    /// The id of the object.
    pub fn get_id(&self) -> (r: DriveId)
        ensures
            r@ == self@.id,
    {
        self.id.clone()
    }

    /// The path of the entry under the path of its parent: the parent's
    /// path joined with the entry's name, or the empty path for an entry
    /// without a parent.
    pub fn build_local_path(&self, parent: Option<&LocalPath>) -> (r: LocalPath)
        ensures
            r@ == match parent {
                Some(p) => joined(p@, self@.name),
                None => Seq::<char>::empty(),
            },
    {
        match parent {
            Some(parent_path) => parent_path.join(self.name.as_str()),
            None => {
                let path = LocalPath::new("");
                proof {
                    reveal_strlit("");
                    assert(path@ =~= Seq::<char>::empty());
                }
                path
            },
        }
    }

    /// What requests are told of this entry.
    pub fn create_file_metadata_from_entry(&self) -> (r: FileMetadata)
        ensures
            r@ == self@.metadata(),
    {
        FileMetadata { id: self.id.clone(), name: self.name.clone(), attr: self.attr }
    }

    /// Merges a change of the remote into the entry and reports how the
    /// checksums related.
    pub fn process_file_change(&mut self, change: &RemoteMetadata) -> (r: ChecksumMatch)
        ensures
            final(self)@ == old(self)@.merged(change@),
            r == classify(
                change@.md5_checksum,
                old(self)@.local_md5,
                old(self)@.upstream_md5,
            ),
    {
        let class = compare_checksums(&change.md5_checksum, &self.local_md5, &self.upstream_md5);
        match change.size {
            Some(size) => {
                if size >= 0 {
                    self.original_metadata.size = Some(size);
                    self.attr.size = size as u64;
                }
            },
            None => {},
        }
        match &change.name {
            Some(name) => {
                self.original_metadata.name = Some(name.clone());
                if self.pending_metadata.name.is_none() {
                    self.name = name.clone();
                }
            },
            None => {},
        }
        match &change.description {
            Some(description) => {
                self.original_metadata.description = Some(description.clone());
            },
            None => {},
        }
        match &change.thumbnail_link {
            Some(link) => {
                self.original_metadata.thumbnail_link = Some(link.clone());
            },
            None => {},
        }
        match &change.parents {
            Some(parents) => {
                self.original_metadata.parents = Some(crate::drive_id::clone_ids(parents));
            },
            None => {},
        }
        self.upstream_md5 = clone_opt_string(&change.md5_checksum);
        self.original_metadata.md5_checksum = clone_opt_string(&change.md5_checksum);
        match class {
            ChecksumMatch::Match | ChecksumMatch::CacheMismatch | ChecksumMatch::LocalMismatch => {
                self.has_upstream_content_changes = false;
            },
            ChecksumMatch::RemoteMismatch | ChecksumMatch::Missing => {
                self.has_upstream_content_changes = true;
            },
            ChecksumMatch::Conflict => {
                self.conflict = true;
            },
        }
        class
    }
}

} // verus!
