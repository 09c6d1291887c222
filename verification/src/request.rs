use crate::drive_id::DriveId;
use crate::entry::FileMetadata;
use crate::errno::ErrorKind;
use crate::handle_flags::HandleFlags;
use vstd::prelude::*;

verus! {

/// A request that is about one object.
pub trait ProviderRequestStruct {
    /// The id that the request names.
    spec fn file_id(&self) -> Seq<char>;

    fn get_file_id(&self) -> (r: &DriveId)
        ensures
            r@ == self.file_id(),
    ;
}

/// Asks for the entry's metadata.
#[derive(Debug)]
pub struct ProviderMetadataRequest {
    pub file_id: DriveId,
}

impl ProviderMetadataRequest {
    pub fn new(id: DriveId) -> (r: Self)
        ensures
            r.file_id@ == id@,
    {
        Self { file_id: id }
    }
}

/// Asks to change some attributes of an entry; what is absent stays.
#[derive(Debug)]
pub struct ProviderSetAttrRequest {
    pub file_id: DriveId,
    pub mode: Option<u32>,
    pub uid: Option<u32>,
    pub gid: Option<u32>,
    pub size: Option<u64>,
    pub flags: Option<u32>,
    pub fh: Option<u64>,
}

impl ProviderSetAttrRequest {
    pub fn new(
        id: DriveId,
        mode: Option<u32>,
        uid: Option<u32>,
        gid: Option<u32>,
        size: Option<u64>,
        flags: Option<u32>,
        fh: Option<u64>,
    ) -> (r: Self)
        ensures
            r.file_id@ == id@,
            r.mode == mode,
            r.uid == uid,
            r.gid == gid,
            r.size == size,
            r.flags == flags,
            r.fh == fh,
    {
        Self { file_id: id, mode, uid, gid, size, flags, fh }
    }
}

/// Asks to open a file with the given open flag word.
#[derive(Debug)]
pub struct ProviderOpenFileRequest {
    pub file_id: DriveId,
    pub flags: i32,
}

impl ProviderOpenFileRequest {
    pub fn new(id: DriveId, flags: i32) -> (r: Self)
        ensures
            r.file_id@ == id@,
            r.flags == flags,
    {
        Self { file_id: id, flags }
    }
}

/// Asks for the child of `parent` that goes by `name`.
#[derive(Debug)]
pub struct ProviderLookupRequest {
    pub name: String,
    pub parent: DriveId,
}

impl ProviderLookupRequest {
    pub fn new(parent_id: DriveId, name: String) -> (r: Self)
        ensures
            r.parent@ == parent_id@,
            r.name@ == name@,
    {
        Self { parent: parent_id, name }
    }
}

/// Asks to close the handle `fh` of a file.
#[derive(Debug)]
pub struct ProviderReleaseFileRequest {
    pub file_id: DriveId,
    pub fh: u64,
}

impl ProviderReleaseFileRequest {
    pub fn new(id: DriveId, fh: u64) -> (r: Self)
        ensures
            r.file_id@ == id@,
            r.fh == fh,
    {
        Self { file_id: id, fh }
    }
}

/// Asks for up to `size` bytes of a file from `offset` on.
#[derive(Debug)]
pub struct ProviderReadContentRequest {
    pub file_id: DriveId,
    pub offset: u64,
    pub size: usize,
    pub fh: u64,
}

impl ProviderReadContentRequest {
    pub fn new(id: DriveId, offset: u64, size: usize, fh: u64) -> (r: Self)
        ensures
            r.file_id@ == id@,
            r.offset == offset,
            r.size == size,
            r.fh == fh,
    {
        Self { file_id: id, offset, size, fh }
    }
}

/// Asks for the children of a directory from position `offset` on.
#[derive(Debug)]
pub struct ProviderReadDirRequest {
    pub file_id: DriveId,
    pub offset: u64,
}

impl ProviderReadDirRequest {
    pub fn new(id: DriveId, offset: u64) -> (r: Self)
        ensures
            r.file_id@ == id@,
            r.offset == offset,
    {
        Self { file_id: id, offset }
    }
}

/// Asks to write `data` into a file at `offset`.
#[derive(Debug)]
pub struct ProviderWriteContentRequest {
    pub file_id: DriveId,
    pub offset: u64,
    pub fh: u64,
    pub data: Vec<u8>,
}

impl ProviderWriteContentRequest {
    pub fn new(id: DriveId, offset: u64, fh: u64, data: Vec<u8>) -> (r: Self)
        ensures
            r.file_id@ == id@,
            r.offset == offset,
            r.fh == fh,
            r.data@ == data@,
    {
        Self { file_id: id, offset, fh, data }
    }
}

/// Asks to move the child `original_name` of `original_parent` to the name
/// `new_name` under `new_parent`.
#[derive(Debug)]
pub struct ProviderRenameRequest {
    pub original_name: String,
    pub original_parent: DriveId,
    pub new_name: String,
    pub new_parent: DriveId,
}

impl ProviderRenameRequest {
    pub fn new(
        original_name: String,
        original_parent: DriveId,
        new_name: String,
        new_parent: DriveId,
    ) -> (r: Self)
        ensures
            r.original_name@ == original_name@,
            r.original_parent@ == original_parent@,
            r.new_name@ == new_name@,
            r.new_parent@ == new_parent@,
    {
        Self { original_name, original_parent, new_name, new_parent }
    }
}

impl ProviderRequestStruct for ProviderMetadataRequest {
    open spec fn file_id(&self) -> Seq<char> {
        self.file_id@
    }

    fn get_file_id(&self) -> (r: &DriveId) {
        &self.file_id
    }
}

impl ProviderRequestStruct for ProviderReadContentRequest {
    open spec fn file_id(&self) -> Seq<char> {
        self.file_id@
    }

    fn get_file_id(&self) -> (r: &DriveId) {
        &self.file_id
    }
}

impl ProviderRequestStruct for ProviderReadDirRequest {
    open spec fn file_id(&self) -> Seq<char> {
        self.file_id@
    }

    fn get_file_id(&self) -> (r: &DriveId) {
        &self.file_id
    }
}

impl ProviderRequestStruct for ProviderWriteContentRequest {
    open spec fn file_id(&self) -> Seq<char> {
        self.file_id@
    }

    fn get_file_id(&self) -> (r: &DriveId) {
        &self.file_id
    }
}

/// A request to the provider.
#[derive(Debug)]
pub enum ProviderRequest {
    OpenFile(ProviderOpenFileRequest),
    Lookup(ProviderLookupRequest),
    ReleaseFile(ProviderReleaseFileRequest),
    Metadata(ProviderMetadataRequest),
    SetAttr(ProviderSetAttrRequest),
    ReadContent(ProviderReadContentRequest),
    ReadDir(ProviderReadDirRequest),
    WriteContent(ProviderWriteContentRequest),
    Rename(ProviderRenameRequest),
    Unknown,
}

/// The children that a directory listing reports.
#[derive(Debug)]
pub struct ProviderReadDirResponse {
    pub entries: Vec<FileMetadata>,
}

/// The provider's answer to a request.
#[derive(Debug)]
pub enum ProviderResponse {
    OpenFile(u64, HandleFlags),
    ReleaseFile,
    SetAttr(FileMetadata),
    Metadata(FileMetadata),
    Lookup(Option<FileMetadata>),
    ReadContent(Vec<u8>),
    ReadDir(ProviderReadDirResponse),
    WriteSize(u32),
    Rename,
    Error(ErrorKind),
    Unknown,
}

} // verus!
