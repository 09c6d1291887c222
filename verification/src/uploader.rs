use crate::common::LocalPath;
use crate::drive_id::DriveId;
use crate::id_map::IdMap;
use crate::metadata::RemoteMetadata;
use crate::settings::duration_secs;
use std::time::Duration;
use vstd::prelude::*;

verus! {

/// A file to act on: where it lies locally and what is known of it.
#[derive(Debug)]
pub struct FileCommand {
    pub path: LocalPath,
    pub file_metadata: RemoteMetadata,
}

impl FileCommand {
    pub fn new(path: LocalPath, file_metadata: RemoteMetadata) -> (r: Self)
        ensures
            r.path@ == path@,
            r.file_metadata@ == file_metadata@,
    {
        Self { path, file_metadata }
    }
}

/// A command to the upload scheduler.
#[derive(Debug)]
pub enum FileUploaderCommand {
    UploadChange(FileCommand),
    CreateFolder(FileCommand),
    CreateFile(FileCommand),
    Stop,
}

/// What the scheduler has decided to do with a command.
#[derive(Debug)]
pub enum UploaderAction {
    /// Start a debounced upload of the file. Where `cancel_previous` holds,
    /// an earlier upload of the same object is still scheduled: it is sent
    /// the cancel signal and waited for before the new one is started.
    Upload { cancel_previous: bool, id: DriveId, command: FileCommand, wait: Duration },
    /// The file is filtered out and not uploaded.
    Skip,
    /// The file names no remote object and cannot be uploaded.
    Fail,
    /// The command is not acted on.
    Ignore,
    /// Stop listening.
    Stop,
}

/// The mathematical value of a `DriveFileUploader`.
pub struct UploaderView {
    /// The objects of which an upload is scheduled or running.
    pub running: Set<Seq<char>>,
    /// The seconds to wait before an upload starts.
    pub wait_secs: u64,
}

/// The scheduler that coalesces rapid write-close cycles of an object into
/// one upload: each upload waits for the debounce window, and a newer one
/// for the same object cancels it.
pub struct DriveFileUploader {
    wait_time_before_upload: Duration,
    running_uploads: IdMap<()>,
}

impl View for DriveFileUploader {
    type V = UploaderView;

    closed spec fn view(&self) -> UploaderView {
        UploaderView {
            running: self.running_uploads@.dom(),
            wait_secs: duration_secs(self.wait_time_before_upload),
        }
    }
}

impl DriveFileUploader {
    /// The invariant of the scheduler.
    pub closed spec fn wf(&self) -> bool {
        self.running_uploads.wf()
    }

    /// A scheduler with nothing scheduled.
    pub fn new(wait_time_before_upload: Duration) -> (r: Self)
        ensures
            r.wf(),
            r@.running == Set::<Seq<char>>::empty(),
            r@.wait_secs == duration_secs(wait_time_before_upload),
    {
        let r = Self { wait_time_before_upload, running_uploads: IdMap::new() };
        assert(r@.running =~= Set::<Seq<char>>::empty());
        r
    }

    /// A scheduler with the debounce window of 3 seconds.
    pub fn with_default_wait() -> (r: Self)
        ensures
            r.wf(),
            r@.running == Set::<Seq<char>>::empty(),
            r@.wait_secs == 3,
    {
        Self::new(Duration::from_secs(3))
    }

    /// Forgets the scheduled upload of `drive_id` and tells whether there
    /// was one: the caller sends it the cancel signal and waits for it.
    pub fn cancel_and_wait_for_running_upload_for_id(&mut self, drive_id: &DriveId) -> (r: bool)
        requires
            old(self).wf(),
        ensures
            final(self).wf(),
            r == old(self)@.running.contains(drive_id@),
            final(self)@ == (UploaderView {
                running: old(self)@.running.remove(drive_id@),
                ..old(self)@
            }),
    {
        let was = self.running_uploads.remove(drive_id);
        assert(self@.running =~= old(self)@.running.remove(drive_id@));
        was.is_some()
    }

    /// Decides what to do with the next command, which is absent once all
    /// senders are gone; `ignored` tells whether the upload filter matches
    /// the file of the command. An upload is scheduled for a file that is
    /// not filtered out and names its object; it replaces an earlier one
    /// for the same object. A stop command or the end of the commands stops
    /// the scheduler; other commands are not acted on.
    pub fn listen(&mut self, command: Option<FileUploaderCommand>, ignored: bool) -> (r:
        UploaderAction)
        requires
            old(self).wf(),
        ensures
            final(self).wf(),
            match command {
                None => r is Stop && final(self)@ == old(self)@,
                Some(FileUploaderCommand::Stop) => r is Stop && final(self)@ == old(self)@,
                Some(FileUploaderCommand::UploadChange(c)) => if ignored {
                    r is Skip && final(self)@ == old(self)@
                } else if c.file_metadata@.id is None {
                    r is Fail && final(self)@ == old(self)@
                } else {
                    &&& r matches UploaderAction::Upload { cancel_previous, id, command, wait }
                    &&& r->Upload_cancel_previous == old(self)@.running.contains(
                        c.file_metadata@.id->Some_0,
                    )
                    &&& r->Upload_id@ == c.file_metadata@.id->Some_0
                    &&& r->Upload_command.path@ == c.path@
                    &&& r->Upload_command.file_metadata@ == c.file_metadata@
                    &&& duration_secs(r->Upload_wait) == old(self)@.wait_secs
                    &&& final(self)@ == (UploaderView {
                        running: old(self)@.running.insert(c.file_metadata@.id->Some_0),
                        ..old(self)@
                    })
                },
                Some(_) => r is Ignore && final(self)@ == old(self)@,
            },
    {
        match command {
            None => UploaderAction::Stop,
            Some(FileUploaderCommand::Stop) => UploaderAction::Stop,
            Some(FileUploaderCommand::UploadChange(file_command)) => {
                if ignored {
                    return UploaderAction::Skip;
                }
                let drive_id = match &file_command.file_metadata.id {
                    Some(id) => id.clone(),
                    None => {
                        return UploaderAction::Fail;
                    },
                };
                let cancel_previous = self.cancel_and_wait_for_running_upload_for_id(&drive_id);
                self.running_uploads.insert(drive_id.clone(), ());
                assert(self@.running =~= old(self)@.running.insert(drive_id@));
                UploaderAction::Upload {
                    cancel_previous,
                    id: drive_id,
                    command: file_command,
                    wait: self.wait_time_before_upload,
                }
            },
            Some(_) => UploaderAction::Ignore,
        }
    }
}

/// Decides what a scheduled upload does when its wait ends: it uploads the
/// file if the debounce window passed, and does nothing if the cancel
/// signal came first.
pub fn upload_file(cancelled: bool) -> (upload: bool)
    ensures
        upload == !cancelled,
{
    !cancelled
}

} // verus!
