use crate::attr::{FileAttr, Timestamp};
use crate::checksum::{compute_md5_checksum, md5_hex};
use crate::common::LocalPath;
use crate::drive_id::{id_views, DriveId};
use crate::entry::{DriveEntryView, FileMetadata};
use crate::errno::ErrorKind;
use crate::handle_flags::HandleFlags;
use crate::metadata::{
    get_mime_from_file_metadata, mime_is_valid, parent_delta, parents_to_add, parents_to_remove,
    prepare_changed_metadata_for_upload, upload_mime, ParentDelta, RemoteMetadata,
    RemoteMetadataView,
};
use crate::provider::{DriveFileProvider, FileHandleData, HandleView, ProviderView};
use crate::request::{
    ProviderOpenFileRequest, ProviderReadContentRequest, ProviderReleaseFileRequest,
    ProviderSetAttrRequest, ProviderWriteContentRequest,
};
use crate::text::clone_opt_string;
use vstd::prelude::*;

verus! {

/// Where a file is resized when its size is set.
#[derive(Debug)]
pub enum ResizeTarget {
    /// Through the file that the handle has open.
    OpenHandle(u64),
    /// By opening the cache file at the path for writing.
    Path(LocalPath),
}

/// The mathematical value of a `ResizeTarget`.
pub enum ResizeTargetView {
    OpenHandle(u64),
    Path(Seq<char>),
}

impl View for ResizeTarget {
    type V = ResizeTargetView;

    open spec fn view(&self) -> ResizeTargetView {
        match self {
            ResizeTarget::OpenHandle(fh) => ResizeTargetView::OpenHandle(*fh),
            ResizeTarget::Path(p) => ResizeTargetView::Path(p@),
        }
    }
}

/// The mathematical value of an optional `ResizeTarget`.
pub open spec fn opt_target_view(t: Option<ResizeTarget>) -> Option<ResizeTargetView> {
    match t {
        Some(t) => Some(t@),
        None => None,
    }
}

/// What has to happen outside before the attributes of an entry are set.
#[derive(Debug)]
pub struct SetAttrPlan {
    /// Whether a remote operation ran for the object and has to be waited
    /// for first.
    pub wait_first: bool,
    /// Where the cache file is to be resized, if a size is set.
    pub resize: Option<ResizeTarget>,
}

impl ProviderView {
    /// Whether the handle `fh` exists and has its cache file open.
    pub open spec fn has_open_file(self, fh: Option<u64>) -> bool {
        fh is Some && self.handles.contains_key(fh->Some_0)
            && !self.handles[fh->Some_0].marked_for_open
    }

    /// Why the attributes of `id` cannot be set, if so: the entry is
    /// unknown, or a size is set, no open file can be resized and the id
    /// cannot name a cache file.
    pub open spec fn set_attr_plan_error(self, id: Seq<char>, size: Option<u64>, fh: Option<u64>)
        -> Option<ErrorKind> {
        if !self.entries.contains_key(self.resolved(id)) {
            Some(ErrorKind::NotFound)
        } else if size is Some && !self.has_open_file(fh) {
            self.path_error(self.resolved(id))
        } else {
            None
        }
    }

    /// Where the cache file of `id` is resized when `size` is set: through
    /// the open file of the handle `fh` if it has one, through the cache
    /// path otherwise.
    pub open spec fn resize_target(self, id: Seq<char>, size: Option<u64>, fh: Option<u64>)
        -> Option<ResizeTargetView> {
        if size is None {
            None
        } else if self.has_open_file(fh) {
            Some(ResizeTargetView::OpenHandle(fh->Some_0))
        } else {
            Some(ResizeTargetView::Path(self.cache_path(self.resolved(id))))
        }
    }

    /// Why the attributes of `id` are not set, if so: the entry is unknown,
    /// or the cache file was to be resized and was not.
    pub open spec fn set_attr_error(self, id: Seq<char>, size: Option<u64>, resized: bool)
        -> Option<ErrorKind> {
        if !self.entries.contains_key(self.resolved(id)) {
            Some(ErrorKind::NotFound)
        } else if size is Some && !resized {
            Some(ErrorKind::Io)
        } else {
            None
        }
    }
}

impl DriveFileProvider {
    /// Decides what has to happen outside before the attributes are set:
    /// any remote operation for the object is waited for, and where a size
    /// is set the cache file is resized, through the open file of the
    /// request's handle if it has one and through the cache path otherwise.
    pub fn set_attr_plan(&mut self, request: &ProviderSetAttrRequest) -> (r: Result<
        SetAttrPlan,
        ErrorKind,
    >)
        requires
            old(self).wf(),
        ensures
            final(self).wf(),
            final(self)@ == (ProviderView {
                running: old(self)@.running.remove(old(self)@.resolved(request.file_id@)),
                ..old(self)@
            }),
            match old(self)@.set_attr_plan_error(request.file_id@, request.size, request.fh) {
                Some(e) => r == Err::<SetAttrPlan, ErrorKind>(e),
                None => r is Ok && r->Ok_0.wait_first == old(self)@.running.contains(
                    old(self)@.resolved(request.file_id@),
                ) && opt_target_view(r->Ok_0.resize) == old(self)@.resize_target(
                    request.file_id@,
                    request.size,
                    request.fh,
                ),
            },
    {
        let file_id = self.get_correct_id(request.file_id.clone());
        let wait_first = self.wait_for_running_drive_request_if_exists(&file_id);
        if !self.entries.contains_key(&file_id) {
            return Err(ErrorKind::NotFound);
        }
        if request.size.is_none() {
            return Ok(SetAttrPlan { wait_first, resize: None });
        }
        match request.fh {
            Some(fh) => {
                match self.file_handles.get(&fh) {
                    Some(handle) => {
                        if !handle.marked_for_open {
                            return Ok(
                                SetAttrPlan {
                                    wait_first,
                                    resize: Some(ResizeTarget::OpenHandle(fh)),
                                },
                            );
                        }
                    },
                    None => {},
                }
            },
            None => {},
        }
        match self.construct_path(&file_id) {
            Ok(path) => Ok(SetAttrPlan { wait_first, resize: Some(ResizeTarget::Path(path)) }),
            Err(e) => Err(e),
        }
    }

    /// Sets the attributes that the request names, once the cache file has
    /// been resized where a size is set. An unknown entry is not found; a
    /// resize that failed is an I/O error and leaves the entry as it was.
    pub fn set_attr(&mut self, request: &ProviderSetAttrRequest, resized: bool) -> (r: Result<
        FileMetadata,
        ErrorKind,
    >)
        requires
            old(self).wf(),
        ensures
            final(self).wf(),
            match old(self)@.set_attr_error(request.file_id@, request.size, resized) {
                Some(e) => r == Err::<FileMetadata, ErrorKind>(e) && final(self)@ == old(self)@,
                None => r is Ok && r->Ok_0@ == final(self)@.entries[old(self)@.resolved(
                    request.file_id@,
                )].metadata() && final(self)@ == (ProviderView {
                    entries: old(self)@.entries.insert(
                        old(self)@.resolved(request.file_id@),
                        old(self)@.entries[old(self)@.resolved(request.file_id@)].with_attrs(
                            request.mode,
                            request.uid,
                            request.gid,
                            request.size,
                            request.flags,
                        ),
                    ),
                    ..old(self)@
                }),
            },
    {
        let file_id = self.get_correct_id(request.file_id.clone());
        let failed = request.size.is_some() && !resized;
        let entry = match self.entry_mut(&file_id) {
            Some(e) => e,
            None => {
                return Err(ErrorKind::NotFound);
            },
        };
        if failed {
            assert(old(self)@.entries.insert(file_id@, entry@) =~= old(self)@.entries);
            return Err(ErrorKind::Io);
        }
        match request.size {
            Some(size) => {
                entry.attr.size = size;
            },
            None => {},
        }
        match request.mode {
            Some(mode) => {
                entry.attr.perm = (mode & 0xffff) as u16;
            },
            None => {},
        }
        match request.flags {
            Some(flags) => {
                entry.attr.flags = flags;
            },
            None => {},
        }
        match request.uid {
            Some(uid) => {
                entry.attr.uid = uid;
            },
            None => {},
        }
        match request.gid {
            Some(gid) => {
                entry.attr.gid = gid;
            },
            None => {},
        }
        Ok(entry.create_file_metadata_from_entry())
    }
}

/// What has to happen outside before a file counts as open.
#[derive(Debug)]
pub struct OpenPlan {
    /// Whether a remote operation ran for the object and has to be waited
    /// for first.
    pub wait_first: bool,
    /// Where the cache file lies.
    pub path: LocalPath,
    /// Whether the content has to be downloaded into the cache file before
    /// the request is answered.
    pub download: bool,
}

/// How a cache file is opened.
#[derive(Debug, Clone, Copy, PartialEq, Eq, Structural)]
pub struct OpenMode {
    pub read: bool,
    pub write: bool,
}

/// One access to a cache file.
#[derive(Debug)]
pub struct FileIo {
    /// The cache file.
    pub path: LocalPath,
    /// How to open the file first, where the handle has not opened it yet.
    pub open: Option<OpenMode>,
    /// Where the access starts.
    pub offset: u64,
    /// How many bytes to read at most; unused when writing.
    pub len: usize,
}

/// The mathematical value of a `FileIo`.
pub struct FileIoView {
    pub path: Seq<char>,
    pub open: Option<OpenMode>,
    pub offset: u64,
    pub len: usize,
}

impl View for FileIo {
    type V = FileIoView;

    open spec fn view(&self) -> FileIoView {
        FileIoView { path: self.path@, open: self.open, offset: self.offset, len: self.len }
    }
}

/// The mathematical value of an optional `FileIo`.
pub open spec fn opt_io_view(io: Option<FileIo>) -> Option<FileIoView> {
    match io {
        Some(io) => Some(io@),
        None => None,
    }
}

/// What has to happen outside to serve a read or a write.
#[derive(Debug)]
pub struct IoPlan {
    /// Whether a remote operation ran for the object and has to be waited
    /// for first.
    pub wait_first: bool,
    /// The access to make; none where the answer is known without one.
    pub io: Option<FileIo>,
}

/// What is sent to the remote when a changed file is uploaded.
#[derive(Debug)]
pub struct UploadPlan {
    /// The object to update.
    pub id: DriveId,
    /// The cache file that holds the new content.
    pub path: LocalPath,
    /// The staged metadata, ready to be sent.
    pub metadata: RemoteMetadata,
    /// The media type to label the content with.
    pub mime_type: String,
    /// The parents to add and to remove.
    pub parents: ParentDelta,
}

/// What has to happen outside after a handle was released.
#[derive(Debug)]
pub struct ReleasePlan {
    /// Whether a remote operation ran for the object and has to be waited
    /// for first.
    pub wait_first: bool,
    /// The upload to start in the background, where the handle was dirty.
    pub upload: Option<UploadPlan>,
}

impl RemoteMetadataView {
    /// The staged record as it is sent with an update of the object `id`:
    /// read-only fields stripped, the id set, and no list of parents, which
    /// the remote takes only as parents to add and to remove.
    pub open spec fn for_update(self, id: Seq<char>) -> RemoteMetadataView {
        RemoteMetadataView { parents: None, ..self.prepared_for(id) }
    }
}

impl DriveEntryView {
    /// The entry after a write of `written` bytes at `offset` at the time
    /// `now` left the cache file with the checksum `checksum`: the size is
    /// the larger of the old size and the end of the write, the file counts
    /// as read and changed now, and the local checksum is the given one.
    pub open spec fn written(self, offset: u64, written: u32, checksum: Seq<char>, now: Timestamp)
        -> DriveEntryView {
        DriveEntryView {
            attr: FileAttr {
                size: if offset + written > self.attr.size {
                    if offset + written > u64::MAX {
                        u64::MAX
                    } else {
                        (offset + written) as u64
                    }
                } else {
                    self.attr.size
                },
                atime: now,
                mtime: now,
                ..self.attr
            },
            local_md5: Some(checksum),
            is_local: true,
            ..self
        }
    }

    /// The entry after its content was downloaded into the cache file: the
    /// cache is fresh, and its checksum is the one the remote last
    /// reported.
    pub open spec fn downloaded(self) -> DriveEntryView {
        DriveEntryView {
            is_local: true,
            has_upstream_content_changes: false,
            local_md5: self.upstream_md5,
            ..self
        }
    }
}

impl ProviderView {
    /// Whether the content of the entry `id` has to be downloaded before it
    /// is used: no cache file exists, or the cache is not proven fresh.
    pub open spec fn needs_download(self, id: Seq<char>) -> bool {
        !self.entries[id].is_local || self.entries[id].has_upstream_content_changes
    }

    /// The provider after an open of `id` was planned: no remote operation
    /// counts as running for it, and where it has a cache path a cache file
    /// counts as existing.
    pub open spec fn opening(self, id: Seq<char>) -> ProviderView {
        let rid = self.resolved(id);
        ProviderView {
            running: self.running.remove(rid),
            entries: if self.path_error(rid) is None {
                self.entries.insert(rid, DriveEntryView { is_local: true, ..self.entries[rid] })
            } else {
                self.entries
            },
            ..self
        }
    }

    /// Why an open of `id` fails in the end, if so: it has no cache path,
    /// its download failed, or no handle number is left.
    pub open spec fn finish_open_error(self, id: Seq<char>, downloaded: Option<bool>) -> Option<
        ErrorKind,
    > {
        let rid = self.resolved(id);
        if self.path_error(rid) is Some {
            self.path_error(rid)
        } else if downloaded == Some(false) {
            Some(ErrorKind::Io)
        } else if self.next_fh == u64::MAX {
            Some(ErrorKind::Io)
        } else {
            None
        }
    }

    /// The provider after an open of `id` was finished: a failed download
    /// leaves no cache file, a successful one a fresh cache, and where no
    /// error stands in the way a new handle with the decoded flags exists,
    /// its file yet to be opened.
    pub open spec fn opened(self, id: Seq<char>, flags: i32, downloaded: Option<bool>)
        -> ProviderView {
        let rid = self.resolved(id);
        if self.path_error(rid) is Some {
            self
        } else if downloaded == Some(false) {
            ProviderView {
                entries: self.entries.insert(
                    rid,
                    DriveEntryView { is_local: false, ..self.entries[rid] },
                ),
                ..self
            }
        } else {
            let entries = if downloaded == Some(true) {
                self.entries.insert(rid, self.entries[rid].downloaded())
            } else {
                self.entries
            };
            if self.next_fh == u64::MAX {
                ProviderView { entries, ..self }
            } else {
                ProviderView {
                    entries,
                    handles: self.handles.insert(
                        self.next_fh,
                        HandleView {
                            id: rid,
                            flags: HandleFlags::decoded(flags),
                            path: self.cache_path(rid),
                            creating: false,
                            marked_for_open: true,
                            has_content_changed: false,
                        },
                    ),
                    next_fh: (self.next_fh + 1) as u64,
                    ..self
                }
            }
        }
    }

    /// Why the handle `fh` cannot be used to read (or, with `write`, to
    /// write) the object `id`, if so: no such handle exists, it belongs to
    /// another object, the entry is gone, the open flags do not permit the
    /// access, or the object is in conflict.
    pub open spec fn access_error(self, id: Seq<char>, fh: u64, write: bool) -> Option<ErrorKind> {
        let rid = self.resolved(id);
        if !self.handles.contains_key(fh) {
            Some(ErrorKind::Io)
        } else if self.handles[fh].id != rid {
            Some(ErrorKind::Io)
        } else if !self.entries.contains_key(rid) {
            Some(ErrorKind::NotFound)
        } else if write && !self.handles[fh].flags.writable() {
            Some(ErrorKind::Io)
        } else if !write && !self.handles[fh].flags.readable() {
            Some(ErrorKind::Io)
        } else if self.entries[rid].conflict {
            Some(ErrorKind::Io)
        } else {
            None
        }
    }

    /// How the cache file behind the handle `fh` has to be opened first, if
    /// it is not open yet.
    pub open spec fn open_mode(self, fh: u64) -> Option<OpenMode> {
        if self.handles[fh].marked_for_open {
            Some(
                OpenMode {
                    read: self.handles[fh].flags.readable(),
                    write: self.handles[fh].flags.writable(),
                },
            )
        } else {
            None
        }
    }

    /// How many bytes a read of `size` bytes at `offset` asks of the cache
    /// file of `id`: none at or past the end of the file, and no more than
    /// lie before the end.
    pub open spec fn read_len(self, id: Seq<char>, offset: u64, size: usize) -> usize {
        let file_size = self.entries[self.resolved(id)].attr.size;
        if offset >= file_size {
            0
        } else if size <= file_size - offset {
            size
        } else {
            (file_size - offset) as usize
        }
    }

    /// The access that serves a read, if one is needed.
    pub open spec fn read_io(self, id: Seq<char>, fh: u64, offset: u64, size: usize) -> Option<
        FileIoView,
    > {
        if self.read_len(id, offset, size) == 0 {
            None
        } else {
            Some(
                FileIoView {
                    path: self.handles[fh].path,
                    open: self.open_mode(fh),
                    offset,
                    len: self.read_len(id, offset, size),
                },
            )
        }
    }

    /// The provider in which no remote operation counts as running for
    /// `id`.
    pub open spec fn waited_for(self, id: Seq<char>) -> ProviderView {
        ProviderView { running: self.running.remove(self.resolved(id)), ..self }
    }

    /// Why a write is not recorded, if so: it failed outside, or the handle
    /// cannot be used to write the object.
    pub open spec fn write_error(self, id: Seq<char>, fh: u64, written: Option<u32>) -> Option<
        ErrorKind,
    > {
        if written is None {
            Some(ErrorKind::Io)
        } else {
            self.access_error(id, fh, true)
        }
    }

    /// The provider after a write through `fh` was recorded: the handle is
    /// dirty and the entry carries the new size, times and checksum.
    pub open spec fn after_write(
        self,
        id: Seq<char>,
        fh: u64,
        offset: u64,
        written: u32,
        checksum: Seq<char>,
        now: Timestamp,
    ) -> ProviderView {
        let rid = self.resolved(id);
        ProviderView {
            entries: self.entries.insert(
                rid,
                self.entries[rid].written(offset, written, checksum, now),
            ),
            handles: self.handles.insert(
                fh,
                HandleView { has_content_changed: true, ..self.handles[fh] },
            ),
            ..self
        }
    }

    /// Whether the handle `fh` exists and belongs to the object `id`.
    pub open spec fn owns_handle(self, id: Seq<char>, fh: u64) -> bool {
        self.handles.contains_key(fh) && self.handles[fh].id == self.resolved(id)
    }

    /// Whether a release of `fh` has to upload the content: the handle is
    /// dirty.
    pub open spec fn release_uploads(self, fh: u64) -> bool {
        self.handles[fh].has_content_changed
    }

    /// Why a release fails, if so: no such handle exists, it belongs to
    /// another object, the entry is gone, or the handle is dirty and the
    /// object is in conflict, has no cache path or has a media type that is
    /// not well formed.
    pub open spec fn release_error(self, id: Seq<char>, fh: u64) -> Option<ErrorKind> {
        let rid = self.resolved(id);
        if !self.owns_handle(id, fh) {
            Some(ErrorKind::Io)
        } else if !self.entries.contains_key(rid) {
            Some(ErrorKind::NotFound)
        } else if !self.release_uploads(fh) {
            None
        } else if self.entries[rid].conflict {
            Some(ErrorKind::Io)
        } else if self.path_error(rid) is Some {
            self.path_error(rid)
        } else if !mime_is_valid(upload_mime(self.entries[rid].original_metadata.mime_type)) {
            Some(ErrorKind::InvalidArgument)
        } else {
            None
        }
    }

    /// The provider after a release: no earlier remote operation counts as
    /// running for the object, the handle is gone where it was the
    /// object's, and where an upload is started it counts as running.
    pub open spec fn released(self, id: Seq<char>, fh: u64) -> ProviderView {
        let rid = self.resolved(id);
        ProviderView {
            running: if self.release_error(id, fh) is None && self.release_uploads(fh) {
                self.running.insert(rid)
            } else {
                self.running.remove(rid)
            },
            handles: if self.owns_handle(id, fh) {
                self.handles.remove(fh)
            } else {
                self.handles
            },
            ..self
        }
    }
}

/// Whether an upload plan sends what is staged for the entry `e` of the
/// object `id` from the cache file at `path`.
pub open spec fn uploads(plan: UploadPlan, e: DriveEntryView, id: Seq<char>, path: Seq<char>) -> bool {
    &&& plan.id@ == id
    &&& plan.path@ == path
    &&& plan.metadata@ == (RemoteMetadataView {
        mime_type: e.original_metadata.mime_type,
        ..e.pending_metadata.for_update(id)
    })
    &&& plan.mime_type@ == upload_mime(e.original_metadata.mime_type)
    &&& id_views(plan.parents.add@) == parents_to_add(
        e.original_metadata.parents,
        e.pending_metadata.parents,
    )
    &&& id_views(plan.parents.remove@) == parents_to_remove(
        e.original_metadata.parents,
        e.pending_metadata.parents,
    )
}

/// Decides the answer to a read once the cache file was accessed: a failed
/// access is an I/O error, and of the bytes that were read no more than were
/// asked for are handed on.
pub fn read_reply(data: Option<Vec<u8>>, len: usize) -> (r: Result<Vec<u8>, ErrorKind>)
    ensures
        data is None ==> r == Err::<Vec<u8>, ErrorKind>(ErrorKind::Io),
        data is Some ==> r is Ok && r->Ok_0@ == if data->Some_0@.len() <= len {
            data->Some_0@
        } else {
            data->Some_0@.take(len as int)
        },
{
    match data {
        Some(mut bytes) => {
            if bytes.len() > len {
                bytes.truncate(len);
            }
            Ok(bytes)
        },
        None => Err(ErrorKind::Io),
    }
}

impl DriveFileProvider {
    /// Changes the handle `fh`, which exists, to `handle`.
    fn put_handle(&mut self, fh: u64, handle: FileHandleData)
        requires
            old(self).wf(),
            old(self)@.handles.contains_key(fh),
        ensures
            final(self).wf(),
            final(self)@ == (ProviderView {
                handles: old(self)@.handles.insert(fh, handle@),
                ..old(self)@
            }),
    {
        self.file_handles.insert(fh, handle);
        proof {
            assert(self@.handles =~= old(self)@.handles.insert(fh, handle@));
        }
    }

    /// A copy of the handle `fh`.
    fn copy_handle(&self, fh: u64) -> (r: Option<FileHandleData>)
        ensures
            r is Some == self@.handles.contains_key(fh),
            r is Some ==> r.unwrap()@ == self@.handles[fh],
    {
        match self.file_handles.get(&fh) {
            Some(h) => Some(
                FileHandleData {
                    id: h.id.clone(),
                    flags: h.flags,
                    path: h.path.clone(),
                    creating: h.creating,
                    marked_for_open: h.marked_for_open,
                    has_content_changed: h.has_content_changed,
                },
            ),
            None => None,
        }
    }

    /// Plans the opening of a file: any remote operation for the object is
    /// waited for, and its content is downloaded into its cache file first
    /// unless the cache is known to be fresh. The cache file counts as
    /// existing from now on.
    pub fn open_file(&mut self, request: &ProviderOpenFileRequest) -> (r: Result<
        OpenPlan,
        ErrorKind,
    >)
        requires
            old(self).wf(),
        ensures
            final(self).wf(),
            final(self)@ == old(self)@.opening(request.file_id@),
            match old(self)@.path_error(old(self)@.resolved(request.file_id@)) {
                Some(e) => r == Err::<OpenPlan, ErrorKind>(e),
                None => r is Ok && r->Ok_0.wait_first == old(self)@.running.contains(
                    old(self)@.resolved(request.file_id@),
                ) && r->Ok_0.path@ == old(self)@.cache_path(old(self)@.resolved(request.file_id@))
                    && r->Ok_0.download == old(self)@.needs_download(
                    old(self)@.resolved(request.file_id@),
                ),
            },
    {
        let file_id = self.get_correct_id(request.file_id.clone());
        let wait_first = self.wait_for_running_drive_request_if_exists(&file_id);
        let path = match self.construct_path(&file_id) {
            Ok(path) => path,
            Err(e) => {
                return Err(e);
            },
        };
        let ghost waited = self@;
        match self.entry_mut(&file_id) {
            Some(entry) => {
                let download = !entry.is_local || entry.has_upstream_content_changes;
                entry.is_local = true;
                Ok(OpenPlan { wait_first, path, download })
            },
            None => Err(ErrorKind::NotFound),
        }
    }

    /// Finishes the opening of a file once the planned download, if any,
    /// has ended: a failed download is an I/O error and leaves no cache
    /// file; otherwise a handle with the decoded open flags is made, whose
    /// cache file is opened only when it is first used. Hands out the
    /// number of the handle and its flags.
    pub fn finish_open(&mut self, request: &ProviderOpenFileRequest, downloaded: Option<bool>) -> (r:
        Result<(u64, HandleFlags), ErrorKind>)
        requires
            old(self).wf(),
        ensures
            final(self).wf(),
            final(self)@ == old(self)@.opened(request.file_id@, request.flags, downloaded),
            match old(self)@.finish_open_error(request.file_id@, downloaded) {
                Some(e) => r == Err::<(u64, HandleFlags), ErrorKind>(e),
                None => r == Ok::<(u64, HandleFlags), ErrorKind>(
                    (old(self)@.next_fh, HandleFlags::decoded(request.flags)),
                ),
            },
    {
        let file_id = self.get_correct_id(request.file_id.clone());
        let path = match self.construct_path(&file_id) {
            Ok(path) => path,
            Err(e) => {
                return Err(e);
            },
        };
        match downloaded {
            Some(ok) => {
                match self.entry_mut(&file_id) {
                    Some(entry) => {
                        if ok {
                            entry.is_local = true;
                            entry.has_upstream_content_changes = false;
                            entry.local_md5 = clone_opt_string(&entry.upstream_md5);
                        } else {
                            entry.is_local = false;
                        }
                    },
                    None => {},
                }
                if !ok {
                    return Err(ErrorKind::Io);
                }
            },
            None => {},
        }
        let handle_flags = HandleFlags::from(request.flags);
        match self.create_fh(file_id, handle_flags, path, false, true) {
            Some(fh) => Ok((fh, handle_flags)),
            None => Err(ErrorKind::Io),
        }
    }

    /// Records that the cache file of `id` was deleted: no cache file
    /// exists any longer, and nothing is known of its checksum.
    pub fn forget_cache_file(&mut self, id: &DriveId)
        requires
            old(self).wf(),
        ensures
            final(self).wf(),
            final(self)@ == (if old(self)@.entries.contains_key(old(self)@.resolved(id@)) {
                ProviderView {
                    entries: old(self)@.entries.insert(
                        old(self)@.resolved(id@),
                        DriveEntryView {
                            is_local: false,
                            local_md5: None,
                            ..old(self)@.entries[old(self)@.resolved(id@)]
                        },
                    ),
                    ..old(self)@
                }
            } else {
                old(self)@
            }),
    {
        let file_id = self.get_correct_id(id.clone());
        match self.entry_mut(&file_id) {
            Some(entry) => {
                entry.is_local = false;
                entry.local_md5 = None;
            },
            None => {},
        }
    }

    /// Pins the entry `id` to the persistent cache directory, or releases
    /// it to the ephemeral one.
    pub fn set_perma(&mut self, id: &DriveId, perma: bool)
        requires
            old(self).wf(),
        ensures
            final(self).wf(),
            final(self)@ == (if old(self)@.entries.contains_key(old(self)@.resolved(id@)) {
                ProviderView {
                    entries: old(self)@.entries.insert(
                        old(self)@.resolved(id@),
                        DriveEntryView { perma, ..old(self)@.entries[old(self)@.resolved(id@)] },
                    ),
                    ..old(self)@
                }
            } else {
                old(self)@
            }),
    {
        let file_id = self.get_correct_id(id.clone());
        match self.entry_mut(&file_id) {
            Some(entry) => {
                entry.perma = perma;
            },
            None => {},
        }
    }

    /// Records that the cache file behind the handle `fh` is open now.
    pub fn mark_file_opened(&mut self, fh: u64)
        requires
            old(self).wf(),
        ensures
            final(self).wf(),
            final(self)@ == (if old(self)@.handles.contains_key(fh) {
                ProviderView {
                    handles: old(self)@.handles.insert(
                        fh,
                        HandleView { marked_for_open: false, ..old(self)@.handles[fh] },
                    ),
                    ..old(self)@
                }
            } else {
                old(self)@
            }),
    {
        match self.copy_handle(fh) {
            Some(mut handle) => {
                handle.marked_for_open = false;
                self.put_handle(fh, handle);
            },
            None => {},
        }
    }

    /// Plans a read: any remote operation for the object is waited for, the
    /// handle must be the object's and permit reading, and the object must
    /// not be in conflict. A read at or past the end of the file needs no
    /// access and yields no bytes; any other asks the cache file for no
    /// more bytes than lie before its end.
    pub fn read_content(&mut self, request: &ProviderReadContentRequest) -> (r: Result<
        IoPlan,
        ErrorKind,
    >)
        requires
            old(self).wf(),
        ensures
            final(self).wf(),
            final(self)@ == old(self)@.waited_for(request.file_id@),
            match old(self)@.access_error(request.file_id@, request.fh, false) {
                Some(e) => r == Err::<IoPlan, ErrorKind>(e),
                None => r is Ok && r->Ok_0.wait_first == old(self)@.running.contains(
                    old(self)@.resolved(request.file_id@),
                ) && opt_io_view(r->Ok_0.io) == old(self)@.read_io(
                    request.file_id@,
                    request.fh,
                    request.offset,
                    request.size,
                ),
            },
    {
        let file_id = self.get_correct_id(request.file_id.clone());
        let wait_first = self.wait_for_running_drive_request_if_exists(&file_id);
        let handle = match self.checked_handle_of(&request.file_id, &file_id, request.fh, false) {
            Ok(h) => h,
            Err(e) => {
                return Err(e);
            },
        };
        let file_size = match self.entries.get(&file_id) {
            Some(e) => e.attr.size,
            None => {
                return Err(ErrorKind::NotFound);
            },
        };
        if request.offset >= file_size {
            return Ok(IoPlan { wait_first, io: None });
        }
        let left: u64 = file_size - request.offset;
        let len: usize = if (request.size as u64) <= left {
            request.size
        } else {
            left as usize
        };
        if len == 0 {
            return Ok(IoPlan { wait_first, io: None });
        }
        let open = if handle.marked_for_open {
            Some(OpenMode { read: handle.flags.can_read(), write: handle.flags.can_write() })
        } else {
            None
        };
        Ok(
            IoPlan {
                wait_first,
                io: Some(FileIo { path: handle.path, open, offset: request.offset, len }),
            },
        )
    }

    /// Checks the handle for an access to the object that a request names
    /// by `asked`, whose real id is `file_id`.
    fn checked_handle_of(&self, asked: &DriveId, file_id: &DriveId, fh: u64, write: bool) -> (r:
        Result<FileHandleData, ErrorKind>)
        requires
            self.wf(),
            file_id@ == self@.resolved(asked@),
        ensures
            match self@.access_error(asked@, fh, write) {
                Some(e) => r == Err::<FileHandleData, ErrorKind>(e),
                None => r is Ok && r->Ok_0@ == self@.handles[fh],
            },
    {
        let handle = match self.copy_handle(fh) {
            Some(h) => h,
            None => {
                return Err(ErrorKind::Io);
            },
        };
        if !(handle.id == *file_id) {
            return Err(ErrorKind::Io);
        }
        let entry = match self.entries.get(file_id) {
            Some(e) => e,
            None => {
                return Err(ErrorKind::NotFound);
            },
        };
        if write && !handle.flags.can_write() {
            return Err(ErrorKind::Io);
        }
        if !write && !handle.flags.can_read() {
            return Err(ErrorKind::Io);
        }
        if entry.conflict {
            return Err(ErrorKind::Io);
        }
        Ok(handle)
    }

    /// Plans a write: any remote operation for the object is waited for,
    /// the handle must be the object's and permit writing, and the object
    /// must not be in conflict.
    pub fn write_content(&mut self, request: &ProviderWriteContentRequest) -> (r: Result<
        IoPlan,
        ErrorKind,
    >)
        requires
            old(self).wf(),
        ensures
            final(self).wf(),
            final(self)@ == old(self)@.waited_for(request.file_id@),
            match old(self)@.access_error(request.file_id@, request.fh, true) {
                Some(e) => r == Err::<IoPlan, ErrorKind>(e),
                None => r is Ok && r->Ok_0.wait_first == old(self)@.running.contains(
                    old(self)@.resolved(request.file_id@),
                ) && opt_io_view(r->Ok_0.io) == Some(
                    FileIoView {
                        path: old(self)@.handles[request.fh].path,
                        open: old(self)@.open_mode(request.fh),
                        offset: request.offset,
                        len: request.data@.len() as usize,
                    },
                ),
            },
    {
        let file_id = self.get_correct_id(request.file_id.clone());
        let wait_first = self.wait_for_running_drive_request_if_exists(&file_id);
        let handle = match self.checked_handle_of(&request.file_id, &file_id, request.fh, true) {
            Ok(h) => h,
            Err(e) => {
                return Err(e);
            },
        };
        let open = if handle.marked_for_open {
            Some(OpenMode { read: handle.flags.can_read(), write: handle.flags.can_write() })
        } else {
            None
        };
        Ok(
            IoPlan {
                wait_first,
                io: Some(
                    FileIo {
                        path: handle.path,
                        open,
                        offset: request.offset,
                        len: request.data.len(),
                    },
                ),
            },
        )
    }

    /// Records a write once it was made: `written` bytes went into the
    /// cache file at the requested offset (none if the write failed), and
    /// `content` is what the file holds afterwards, of which the checksum
    /// is computed. What is recorded is told by `record_write`.
    pub fn complete_write(
        &mut self,
        request: &ProviderWriteContentRequest,
        written: Option<u32>,
        content: &[u8],
        now: Timestamp,
    ) -> (r: Result<u32, ErrorKind>)
        requires
            old(self).wf(),
        ensures
            final(self).wf(),
            match old(self)@.write_error(request.file_id@, request.fh, written) {
                Some(e) => r == Err::<u32, ErrorKind>(e) && final(self)@ == old(self)@,
                None => r == Ok::<u32, ErrorKind>(written->Some_0) && final(self)@ == old(
                    self,
                )@.after_write(
                    request.file_id@,
                    request.fh,
                    request.offset,
                    written->Some_0,
                    md5_hex(content@),
                    now,
                ),
            },
    {
        let checksum = compute_md5_checksum(content);
        self.record_write(request, written, checksum, now)
    }

    /// Records a write once it was made: `written` bytes went into the
    /// cache file at the requested offset (none if the write failed), and
    /// `checksum` is the checksum of what the file holds afterwards. The
    /// handle becomes dirty; the entry's size grows to the end of the write
    /// where that lies past it, its times of modification and access
    /// become `now`, and its local checksum is the given one. Hands out the
    /// number of bytes written. A failed write is an I/O error and changes
    /// nothing, as is a handle that cannot be used to write the object.
    pub fn record_write(
        &mut self,
        request: &ProviderWriteContentRequest,
        written: Option<u32>,
        checksum: String,
        now: Timestamp,
    ) -> (r: Result<u32, ErrorKind>)
        requires
            old(self).wf(),
        ensures
            final(self).wf(),
            match old(self)@.write_error(request.file_id@, request.fh, written) {
                Some(e) => r == Err::<u32, ErrorKind>(e) && final(self)@ == old(self)@,
                None => r == Ok::<u32, ErrorKind>(written->Some_0) && final(self)@ == old(
                    self,
                )@.after_write(
                    request.file_id@,
                    request.fh,
                    request.offset,
                    written->Some_0,
                    checksum@,
                    now,
                ),
            },
    {
        let size_written = match written {
            Some(n) => n,
            None => {
                return Err(ErrorKind::Io);
            },
        };
        let file_id = self.get_correct_id(request.file_id.clone());
        let mut handle = match self.checked_handle_of(
            &request.file_id,
            &file_id,
            request.fh,
            true,
        ) {
            Ok(h) => h,
            Err(e) => {
                return Err(e);
            },
        };
        handle.has_content_changed = true;
        self.put_handle(request.fh, handle);
        match self.entry_mut(&file_id) {
            Some(entry) => {
                let end: u64 = request.offset.saturating_add(size_written as u64);
                if end > entry.attr.size {
                    entry.attr.size = end;
                }
                entry.attr.atime = now;
                entry.attr.mtime = now;
                entry.local_md5 = Some(checksum);
                entry.is_local = true;
            },
            None => {},
        }
        Ok(size_written)
    }

    /// Releases a handle: any remote operation for the object is waited
    /// for and the handle is removed. Where something was written through
    /// it, the upload of the cache file with the staged metadata is planned
    /// and counts as running from now on; an object in conflict is not
    /// uploaded, and the release fails with an I/O error instead.
    pub fn release_file(&mut self, request: &ProviderReleaseFileRequest) -> (r: Result<
        ReleasePlan,
        ErrorKind,
    >)
        requires
            old(self).wf(),
        ensures
            final(self).wf(),
            final(self)@ == old(self)@.released(request.file_id@, request.fh),
            match old(self)@.release_error(request.file_id@, request.fh) {
                Some(e) => r == Err::<ReleasePlan, ErrorKind>(e),
                None => r is Ok && r->Ok_0.wait_first == old(self)@.running.contains(
                    old(self)@.resolved(request.file_id@),
                ) && (r->Ok_0.upload is Some) == old(self)@.release_uploads(request.fh) && (
                r->Ok_0.upload is Some ==> uploads(
                    r->Ok_0.upload->Some_0,
                    old(self)@.entries[old(self)@.resolved(request.file_id@)],
                    old(self)@.resolved(request.file_id@),
                    old(self)@.cache_path(old(self)@.resolved(request.file_id@)),
                )),
            },
    {
        let file_id = self.get_correct_id(request.file_id.clone());
        let wait_first = self.wait_for_running_drive_request_if_exists(&file_id);
        let handle = match self.copy_handle(request.fh) {
            Some(h) => h,
            None => {
                return Err(ErrorKind::Io);
            },
        };
        if !(handle.id == file_id) {
            return Err(ErrorKind::Io);
        }
        self.file_handles.remove(&request.fh);
        proof {
            assert(self@.handles =~= old(self)@.handles.remove(request.fh));
        }
        if !self.entries.contains_key(&file_id) {
            return Err(ErrorKind::NotFound);
        }
        if !handle.has_content_changed {
            return Ok(ReleasePlan { wait_first, upload: None });
        }
        match self.start_upload_call(file_id) {
            Ok(plan) => {
                proof {
                    let rid = old(self)@.resolved(request.file_id@);
                    assert(self@.running =~= old(self)@.running.insert(rid));
                }
                Ok(ReleasePlan { wait_first, upload: Some(plan) })
            },
            Err(e) => Err(e),
        }
    }

    /// Why no upload is started for `id`, if so.
    pub open spec fn upload_error(view: ProviderView, id: Seq<char>) -> Option<ErrorKind> {
        if view.running.contains(id) {
            Some(ErrorKind::Io)
        } else if !view.entries.contains_key(id) {
            Some(ErrorKind::NotFound)
        } else if view.entries[id].conflict {
            Some(ErrorKind::Io)
        } else if view.path_error(id) is Some {
            view.path_error(id)
        } else if !mime_is_valid(upload_mime(view.entries[id].original_metadata.mime_type)) {
            Some(ErrorKind::InvalidArgument)
        } else {
            None
        }
    }

    /// Plans the upload of the cache file of `id` with its staged metadata
    /// and records the upload as running. Starting an upload while a remote
    /// operation runs for the object is an I/O error, as is uploading an
    /// object in conflict.
    pub fn start_upload_call(&mut self, id: DriveId) -> (r: Result<UploadPlan, ErrorKind>)
        requires
            old(self).wf(),
        ensures
            final(self).wf(),
            match Self::upload_error(old(self)@, id@) {
                Some(e) => r == Err::<UploadPlan, ErrorKind>(e) && final(self)@ == old(self)@,
                None => r is Ok && uploads(
                    r->Ok_0,
                    old(self)@.entries[id@],
                    id@,
                    old(self)@.cache_path(id@),
                ) && final(self)@ == (ProviderView {
                    running: old(self)@.running.insert(id@),
                    ..old(self)@
                }),
            },
    {
        if self.running_requests.contains_key(&id) {
            return Err(ErrorKind::Io);
        }
        let file_data = match self.entries.get(&id) {
            Some(e) => e,
            None => {
                return Err(ErrorKind::NotFound);
            },
        };
        if file_data.conflict {
            return Err(ErrorKind::Io);
        }
        let target_path = match self.construct_path(&id) {
            Ok(p) => p,
            Err(e) => {
                return Err(e);
            },
        };
        let mime_type = match get_mime_from_file_metadata(&file_data.original_metadata) {
            Ok(m) => m,
            Err(e) => {
                return Err(e);
            },
        };
        let parents = parent_delta(
            &file_data.original_metadata.parents,
            &file_data.pending_metadata.parents,
        );
        let mut metadata = file_data.pending_metadata.clone();
        prepare_changed_metadata_for_upload(&id, &mut metadata);
        metadata.parents = None;
        metadata.mime_type = clone_opt_string(&file_data.original_metadata.mime_type);
        let plan = UploadPlan { id: id.clone(), path: target_path, metadata, mime_type, parents };
        self.running_requests.insert(id, ());
        proof {
            assert(self@.running =~= old(self)@.running.insert(id@));
        }
        Ok(plan)
    }
}

} // verus!
