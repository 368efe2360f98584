//! One backup operation: a source device, a mounted destination and the
//! options of the run. It names the backup file, decides whether an old
//! backup has to go and whether the new one fits, and goes through its
//! steps one event at a time.

use vstd::prelude::*;
use crate::args::BackupArgs;
use crate::device::{Device, DeviceView};
use crate::error::{Error, ErrorKind, ErrorView};
use crate::filesystem::{
    backups_of,
    file_in,
    free_space,
    is_oldest,
    BackupFile,
    BackupFileView,
    Filesystem,
    FilesystemView,
};
use crate::lsblk::Lsblk;
use crate::paths::{join_normalized, normalized_join};
use crate::protocol::{action_view, command_words, Action, ActionView, Event, EventView};
use crate::text::{
    concat,
    concat3,
    hyphenated,
    join,
    joined,
    opt_view,
    push_text,
    replace_spaces,
    views,
};
use crate::utils::{byte_size, current_date};

verus! {

/// One backup operation.
#[derive(Debug)]
pub struct BackUp<'a> {
    /// The destination filesystem.
    pub dst_filesystem: &'a Filesystem,
    /// The device that is backed up.
    pub back_up_device: &'a Device,
    /// The options of the run.
    pub back_up_args: &'a BackupArgs,
    /// The date that file names carry.
    pub date: String,
}

/// The mathematical value of a [`BackUp`].
pub struct BackUpView {
    pub filesystem: FilesystemView,
    pub device: DeviceView,
    pub dry_run: bool,
    pub date: Seq<char>,
}

impl<'a> View for BackUp<'a> {
    type V = BackUpView;

    open spec fn view(&self) -> BackUpView {
        BackUpView {
            filesystem: self.dst_filesystem@,
            device: self.back_up_device@,
            dry_run: self.back_up_args.dry_run,
            date: self.date@,
        }
    }
}

/// Where an operation stands.
#[derive(Debug, PartialEq, Eq)]
pub enum BackupState {
    /// Nothing has been done.
    Init,
    /// Asked whether the target file exists.
    CheckingTarget,
    /// Asked for the backups that the destination holds.
    CountingCopies,
    /// Asked to remove the oldest backup, the one at this path.
    Evicting(String),
    /// Asked for the free space of the destination.
    CheckingSpace,
    /// Every check has passed and the copy has been asked for.
    Validated,
    /// The copy is made and its owner is being set.
    Copied,
    /// The operation has ended well.
    Done,
    /// The operation was left out: the target file exists already.
    Skipped,
    /// The operation has failed.
    Failed,
}

/// The mathematical value of a [`BackupState`].
pub enum BackupStateView {
    Init,
    CheckingTarget,
    CountingCopies,
    Evicting(Seq<char>),
    CheckingSpace,
    Validated,
    Copied,
    Done,
    Skipped,
    Failed,
}

impl View for BackupState {
    type V = BackupStateView;

    open spec fn view(&self) -> BackupStateView {
        match self {
            BackupState::Init => BackupStateView::Init,
            BackupState::CheckingTarget => BackupStateView::CheckingTarget,
            BackupState::CountingCopies => BackupStateView::CountingCopies,
            BackupState::Evicting(path) => BackupStateView::Evicting(path@),
            BackupState::CheckingSpace => BackupStateView::CheckingSpace,
            BackupState::Validated => BackupStateView::Validated,
            BackupState::Copied => BackupStateView::Copied,
            BackupState::Done => BackupStateView::Done,
            BackupState::Skipped => BackupStateView::Skipped,
            BackupState::Failed => BackupStateView::Failed,
        }
    }
}

impl Clone for BackupState {
    fn clone(&self) -> (r: Self)
        ensures
            r@ == self@,
    {
        match self {
            BackupState::Init => BackupState::Init,
            BackupState::CheckingTarget => BackupState::CheckingTarget,
            BackupState::CountingCopies => BackupState::CountingCopies,
            BackupState::Evicting(path) => BackupState::Evicting(path.clone()),
            BackupState::CheckingSpace => BackupState::CheckingSpace,
            BackupState::Validated => BackupState::Validated,
            BackupState::Copied => BackupState::Copied,
            BackupState::Done => BackupState::Done,
            BackupState::Skipped => BackupState::Skipped,
            BackupState::Failed => BackupState::Failed,
        }
    }
}

impl BackupStateView {
    /// The operation has ended, one way or another.
    pub open spec fn is_final(self) -> bool {
        self is Done || self is Skipped || self is Failed
    }
}

/// What one step of an operation comes to.
#[derive(Debug)]
pub struct Progress {
    /// Where the operation stands now.
    pub state: BackupState,
    /// What is to be done next; nothing once the operation has ended.
    pub action: Option<Action>,
    /// Lines for the operator.
    pub notices: Vec<String>,
    /// Why the operation was left out or failed.
    pub failure: Option<Error>,
}

/// The mathematical value of a [`Progress`].
pub struct ProgressView {
    pub state: BackupStateView,
    pub action: Option<ActionView>,
    pub notices: Seq<Seq<char>>,
    pub failure: Option<ErrorView>,
}

impl View for Progress {
    type V = ProgressView;

    open spec fn view(&self) -> ProgressView {
        ProgressView {
            state: self.state@,
            action: action_view(self.action),
            notices: views(self.notices@),
            failure: match self.failure {
                Some(e) => Some(e@),
                None => None,
            },
        }
    }
}

/// Whether the free space is known to suffice.
#[derive(Clone, Copy, Debug, PartialEq, Eq, Structural)]
pub enum Admission {
    /// Both sizes are known, and the device is smaller than what is free.
    Sufficient,
    /// A size is unknown: the backup is let through unchecked.
    Unverified,
}

/// The model and the serial, as far as they are there.
pub open spec fn name_parts(model: Option<Seq<char>>, serial: Option<Seq<char>>) -> Seq<Seq<char>> {
    (match model {
        Some(m) => seq![m],
        None => seq![],
    }) + (match serial {
        Some(s) => seq![s],
        None => seq![],
    })
}

/// The end of every backup file name of one device: its model and serial
/// joined by an underscore, with hyphens for spaces, and `.img`.
pub open spec fn stable_suffix(model: Option<Seq<char>>, serial: Option<Seq<char>>) -> Seq<char> {
    hyphenated(joined(name_parts(model, serial), "_"@)) + ".img"@
}

/// The name of the backup file of one device on one day.
pub open spec fn backup_file_name(
    date: Seq<char>,
    name: Seq<char>,
    model: Option<Seq<char>>,
    serial: Option<Seq<char>>,
) -> Seq<char> {
    date + "_"@ + name + "_"@ + stable_suffix(model, serial)
}

/// The error of a target file that exists already.
pub open spec fn already_present(path: Seq<char>) -> ErrorView {
    ErrorView {
        kind: ErrorKind::AlreadyPresent,
        message: "Backup file is already present "@ + path
            + ". Skipping. If you want to do more than 1 backup per day, rename file manually"@,
    }
}

/// The error of a destination with too little room for a device.
pub open spec fn insufficient_space(destination: Seq<char>, source: Seq<char>) -> ErrorView {
    ErrorView {
        kind: ErrorKind::InsufficientSpace,
        message: "Not enough space on destination filesystem "@ + destination
            + ", to backup device "@ + source,
    }
}

/// The error of a destination that is not mounted.
pub open spec fn not_mounted(device_path: Seq<char>) -> ErrorView {
    ErrorView {
        kind: ErrorKind::MountFailure,
        message: "Filesystem is not mounted: "@ + device_path,
    }
}

/// The error of an event that answers no question that was asked.
pub open spec fn unexpected_event() -> ErrorView {
    ErrorView { kind: ErrorKind::CommandExecutionFailure, message: "Unexpected event"@ }
}

/// The error of a command that ended badly.
pub open spec fn command_failed(reason: Seq<char>) -> ErrorView {
    ErrorView { kind: ErrorKind::CommandExecutionFailure, message: reason }
}

/// The error of an oldest backup that could not be removed.
pub open spec fn removal_failed(path: Seq<char>, reason: Seq<char>) -> ErrorView {
    ErrorView {
        kind: ErrorKind::RetentionDeletionFailure,
        message: "Failed to delete oldest backup file '"@ + path + "': "@ + reason,
    }
}

/// The line that tells of a backup being removed.
pub open spec fn removal_notice(path: Seq<char>) -> Seq<char> {
    "Removing old back up file: "@ + path
}

/// The line that tells that space could not be checked.
pub open spec fn unverified_notice() -> Seq<char> {
    "Could not check if sufficient space is available"@
}

/// The line that tells what a dry run would have done.
pub open spec fn dry_run_notice(input: Seq<char>, output: Seq<char>) -> Seq<char> {
    "[Dry-Run] backup would run with command: "@ + joined(
        command_words(ActionView::Copy { input, output })->Some_0,
        " "@,
    )
}

/// Whether a device of `needed` bytes is let onto a destination with
/// `available` bytes free: it is where it is smaller, and where either
/// number is unknown.
pub open spec fn admitted(available: Option<u64>, needed: Option<u64>) -> Option<Admission> {
    match (available, needed) {
        (Some(a), Some(n)) => if a > n {
            Some(Admission::Sufficient)
        } else {
            None
        },
        _ => Some(Admission::Unverified),
    }
}

impl BackUpView {
    /// The end of the file names of this device's backups.
    pub open spec fn suffix(self) -> Seq<char> {
        stable_suffix(self.device.blockdevice.model, self.device.blockdevice.serial)
    }

    /// The name of the backup file.
    pub open spec fn file_name(self) -> Seq<char> {
        backup_file_name(
            self.date,
            self.device.name,
            self.device.blockdevice.model,
            self.device.blockdevice.serial,
        )
    }

    /// The directory of the backups, on a mounted destination.
    pub open spec fn dir(self) -> Option<Seq<char>> {
        match self.filesystem.blockdevice.mountpoint {
            Some(at) => Some("/"@ + normalized_join(at, self.device.destination_path)),
            None => None,
        }
    }

    /// The path of the backup file, on a mounted destination.
    pub open spec fn file(self) -> Option<Seq<char>> {
        match self.dir() {
            Some(dir) => Some("/"@ + normalized_join(dir, self.file_name())),
            None => None,
        }
    }

    /// How many backups of the device the listing holds.
    pub open spec fn copies_in(self, listing: Result<Seq<BackupFileView>, Seq<char>>) -> nat {
        match listing {
            Ok(files) => backups_of(files, self.suffix()).len(),
            Err(_) => 0,
        }
    }

    /// The destination holds as many backups of the device as are kept.
    pub open spec fn full(self, listing: Result<Seq<BackupFileView>, Seq<char>>) -> bool {
        self.copies_in(listing) >= self.device.copies
    }

    /// The path of the backup that is removed before the copy: none while
    /// fewer backups are there than are kept, and none in a dry run;
    /// otherwise the oldest backup of the device in the directory `dir`. A
    /// removal occurs exactly where there is a path.
    pub open spec fn eviction(
        self,
        dir: Seq<char>,
        listing: Result<Seq<BackupFileView>, Seq<char>>,
    ) -> Result<Option<Seq<char>>, ErrorView> {
        if !self.full(listing) || self.dry_run {
            Ok(None)
        } else {
            match listing {
                Err(reason) => Err(
                    ErrorView {
                        kind: ErrorKind::RetentionDeletionFailure,
                        message: "Failed to read backup directory: "@ + reason,
                    },
                ),
                Ok(files) => if backups_of(files, self.suffix()).len() == 0 {
                    Ok(None)
                } else {
                    let k = choose|k: int| is_oldest(files, self.suffix(), k);
                    Ok(Some(file_in(dir, files[k].name)))
                },
            }
        }
    }

    /// The step that ends the operation in failure.
    pub open spec fn failed(self, failure: ErrorView) -> ProgressView {
        ProgressView {
            state: BackupStateView::Failed,
            action: None,
            notices: seq![],
            failure: Some(failure),
        }
    }

    /// The step that follows the last check: the copy, or in a dry run the
    /// line that tells of it.
    pub open spec fn go(self, file: Seq<char>, notices: Seq<Seq<char>>) -> ProgressView {
        if self.dry_run {
            ProgressView {
                state: BackupStateView::Done,
                action: None,
                notices: notices.push(dry_run_notice(self.device.device_path, file)),
                failure: None,
            }
        } else {
            ProgressView {
                state: BackupStateView::Validated,
                action: Some(ActionView::Copy { input: self.device.device_path, output: file }),
                notices,
                failure: None,
            }
        }
    }

    /// What the free space of the destination, or the failure to learn it,
    /// means for the operation.
    pub open spec fn measured(
        self,
        file: Seq<char>,
        available: Result<Option<u64>, ErrorView>,
    ) -> ProgressView {
        match available {
            Err(e) => self.failed(e),
            Ok(available) => match byte_size(self.device.blockdevice.size) {
                Err(message) => self.failed(ErrorView { kind: ErrorKind::InvalidSize, message }),
                Ok(needed) => match admitted(available, needed) {
                    None => self.failed(
                        insufficient_space(self.filesystem.device_path, self.device.device_path),
                    ),
                    Some(Admission::Sufficient) => self.go(file, seq![]),
                    Some(Admission::Unverified) => self.go(file, seq![unverified_notice()]),
                },
            },
        }
    }

    /// The step that the operation takes from `state` on `event`, with its
    /// backups in the directory `dir` and its target file at `file`.
    ///
    /// The operation starts by asking whether the target file exists. If it
    /// does, the operation is left out. Then the directory is listed. If it
    /// holds as many backups of the device as are kept, and the run is not
    /// dry, the oldest is removed, and the copy follows without a look at
    /// the free space. Wherever nothing is removed, in a dry run too, the
    /// free space is asked for, and the copy follows if the device fits or a
    /// size is unknown. After the copy the owner of the file is set. A dry
    /// run ends where the copy would start. Each failure ends the operation,
    /// and so does an event that answers nothing that was asked.
    pub open spec fn on(
        self,
        dir: Seq<char>,
        file: Seq<char>,
        state: BackupStateView,
        event: EventView,
    ) -> ProgressView {
        if state.is_final() {
            ProgressView { state, action: None, notices: seq![], failure: None }
        } else {
            match (state, event) {
                (BackupStateView::Init, EventView::Start) => ProgressView {
                    state: BackupStateView::CheckingTarget,
                    action: Some(ActionView::Probe { path: file }),
                    notices: seq![],
                    failure: None,
                },
                (BackupStateView::CheckingTarget, EventView::Probed(exists)) => if exists {
                    ProgressView {
                        state: BackupStateView::Skipped,
                        action: None,
                        notices: seq![],
                        failure: Some(already_present(file)),
                    }
                } else {
                    ProgressView {
                        state: BackupStateView::CountingCopies,
                        action: Some(ActionView::List { path: dir }),
                        notices: seq![],
                        failure: None,
                    }
                },
                (BackupStateView::CountingCopies, EventView::Listed(listing)) => {
                    match self.eviction(dir, listing) {
                        Err(e) => self.failed(e),
                        Ok(None) => ProgressView {
                            state: BackupStateView::CheckingSpace,
                            action: Some(ActionView::Inventory),
                            notices: seq![],
                            failure: None,
                        },
                        Ok(Some(path)) => ProgressView {
                            state: BackupStateView::Evicting(path),
                            action: Some(ActionView::Remove { path }),
                            notices: seq![removal_notice(path)],
                            failure: None,
                        },
                    }
                },
                (BackupStateView::Evicting(path), EventView::Finished(outcome)) => match outcome {
                    Ok(_) => self.go(file, seq![]),
                    Err(reason) => self.failed(removal_failed(path, reason)),
                },
                (BackupStateView::CheckingSpace, EventView::Inventoried(captured)) => self.measured(
                    file,
                    match captured {
                        Ok(entries) => Ok(
                            free_space(
                                crate::lsblk::destinations(entries),
                                self.filesystem.blockdevice.uuid,
                                0,
                            ),
                        ),
                        Err(reason) => Err(
                            ErrorView {
                                kind: ErrorKind::CommandExecutionFailure,
                                message: crate::lsblk::probe_failure_message(reason),
                            },
                        ),
                    },
                ),
                (BackupStateView::Validated, EventView::Finished(outcome)) => match outcome {
                    Ok(_) => ProgressView {
                        state: BackupStateView::Copied,
                        action: Some(ActionView::SetOwner { path: file }),
                        notices: seq![],
                        failure: None,
                    },
                    Err(reason) => self.failed(command_failed(reason)),
                },
                (BackupStateView::Copied, EventView::Finished(outcome)) => match outcome {
                    Ok(_) => ProgressView {
                        state: BackupStateView::Done,
                        action: None,
                        notices: seq![],
                        failure: None,
                    },
                    Err(reason) => self.failed(command_failed(reason)),
                },
                _ => self.failed(unexpected_event()),
            }
        }
    }

    /// The step that the operation takes from `state` on `event`: the step
    /// with its own directory and target file. On a destination that is not
    /// mounted there are none, and the operation fails.
    pub open spec fn after(self, state: BackupStateView, event: EventView) -> ProgressView {
        if state.is_final() {
            ProgressView { state, action: None, notices: seq![], failure: None }
        } else {
            match (self.dir(), self.file()) {
                (Some(dir), Some(file)) => self.on(dir, file, state, event),
                _ => self.failed(not_mounted(self.filesystem.device_path)),
            }
        }
    }
}

/// The view of a directory listing or of the reason in its place.
pub open spec fn listing_view(listing: Result<Vec<BackupFile>, String>) -> Result<
    Seq<BackupFileView>,
    Seq<char>,
> {
    match listing {
        Ok(files) => Ok(crate::filesystem::listed(files@)),
        Err(reason) => Err(reason@),
    }
}

/// At most one backup is the oldest.
pub proof fn lemma_oldest_unique(files: Seq<BackupFileView>, suffix: Seq<char>, a: int, b: int)
    requires
        is_oldest(files, suffix, a),
        is_oldest(files, suffix, b),
    ensures
        a == b,
{
    if a < b {
        assert(crate::filesystem::is_backup_of(files[a], suffix));
    } else if b < a {
        assert(crate::filesystem::is_backup_of(files[b], suffix));
    }
}

impl<'a> BackUp<'a> {
    /// An operation dated today.
    pub fn new(
        dst_filesystem: &'a Filesystem,
        back_up_device: &'a Device,
        back_up_args: &'a BackupArgs,
    ) -> (r: BackUp<'a>)
        ensures
            r@.filesystem == dst_filesystem@,
            r@.device == back_up_device@,
            r@.dry_run == back_up_args.dry_run,
    {
        Self::dated(dst_filesystem, back_up_device, back_up_args, current_date())
    }

    /// An operation with the date that its file name is to carry.
    pub fn dated(
        dst_filesystem: &'a Filesystem,
        back_up_device: &'a Device,
        back_up_args: &'a BackupArgs,
        date: String,
    ) -> (r: BackUp<'a>)
        ensures
            r@ == (BackUpView {
                filesystem: dst_filesystem@,
                device: back_up_device@,
                dry_run: back_up_args.dry_run,
                date: date@,
            }),
    {
        BackUp { dst_filesystem, back_up_device, back_up_args, date }
    }

    /// The path that is read: the node of the device.
    pub fn input_file_path(&self) -> (r: String)
        ensures
            r@ == self@.device.device_path,
    {
        self.back_up_device.device_path.clone()
    }

    /// The end of the file names of this device's backups.
    pub fn stable_postfix_file_name(&self) -> (r: String)
        ensures
            r@ == self@.suffix(),
    {
        let mut parts: Vec<String> = Vec::new();
        match &self.back_up_device.blockdevice.model {
            Some(model) => {
                parts.push(model.clone());
            },
            None => {},
        }
        match &self.back_up_device.blockdevice.serial {
            Some(serial) => {
                parts.push(serial.clone());
            },
            None => {},
        }
        assert(views(parts@) =~= name_parts(
            self@.device.blockdevice.model,
            self@.device.blockdevice.serial,
        ));
        let line = join(&parts, "_");
        let mut r = replace_spaces(line.as_str());
        push_text(&mut r, ".img");
        r
    }

    /// The name of the backup file.
    pub fn file_name(&self) -> (r: String)
        ensures
            r@ == self@.file_name(),
    {
        let mut r = concat3(self.date.as_str(), "_", self.back_up_device.name.as_str());
        push_text(&mut r, "_");
        push_text(&mut r, self.stable_postfix_file_name().as_str());
        r
    }

    /// The directory of the backups. There is none on a destination that is
    /// not mounted.
    pub fn back_up_dir_path(&self) -> (r: Result<String, Error>)
        ensures
            match self@.dir() {
                Some(dir) => r matches Ok(p) && p@ == dir,
                None => r matches Err(e) && e@ == not_mounted(self@.filesystem.device_path),
            },
    {
        match &self.dst_filesystem.blockdevice.mountpoint {
            Some(at) => {
                let relative = join_normalized(
                    at.as_str(),
                    self.back_up_device.destination_path.as_str(),
                );
                Ok(concat("/", relative.as_str()))
            },
            None => Err(
                Error::new(
                    ErrorKind::MountFailure,
                    concat("Filesystem is not mounted: ", self.dst_filesystem.device_path.as_str()),
                ),
            ),
        }
    }

    /// The path of the backup file. There is none on a destination that is
    /// not mounted.
    pub fn back_up_file_path(&self) -> (r: Result<String, Error>)
        ensures
            match self@.file() {
                Some(file) => r matches Ok(p) && p@ == file,
                None => r matches Err(e) && e@ == not_mounted(self@.filesystem.device_path),
            },
    {
        match self.back_up_dir_path() {
            Ok(dir) => {
                let relative = join_normalized(dir.as_str(), self.file_name().as_str());
                Ok(concat("/", relative.as_str()))
            },
            Err(e) => Err(e),
        }
    }

    /// Whether the destination holds as many backups of the device as are
    /// kept, so that one has to go before another is made.
    pub fn needs_deletion(&self, listing: &Result<Vec<BackupFile>, String>) -> (r: bool)
        ensures
            r == self@.full(listing_view(*listing)),
    {
        let suffix = self.stable_postfix_file_name();
        let present = self.dst_filesystem.present_number_of_copies(suffix.as_str(), listing);
        present >= self.back_up_device.copies
    }

    /// Refuses to write over a backup: a target file that exists is an
    /// error.
    pub fn check_if_target_file_is_present(&self, exists: bool) -> (r: Result<(), Error>)
        ensures
            match self@.file() {
                Some(file) => if exists {
                    r matches Err(e) && e@ == already_present(file)
                } else {
                    r is Ok
                },
                None => r matches Err(e) && e@ == not_mounted(self@.filesystem.device_path),
            },
    {
        let file = self.back_up_file_path()?;
        Self::refuse_existing(file.as_str(), exists)
    }

    /// Refuses to write over the file at `file` where it exists.
    pub fn refuse_existing(file: &str, present: bool) -> (r: Result<(), Error>)
        ensures
            present ==> (r matches Err(e) && e@ == already_present(file@)),
            !present ==> (r is Ok),
    {
        if present {
            let mut message = concat("Backup file is already present ", file);
            push_text(
                &mut message,
                ". Skipping. If you want to do more than 1 backup per day, rename file manually",
            );
            Err(Error::new(ErrorKind::AlreadyPresent, message))
        } else {
            Ok(())
        }
    }

    /// The path of the backup that is removed before the copy, where one is
    /// removed: the oldest backup of the device, on a destination that
    /// holds as many as are kept, outside a dry run. A removal occurs
    /// exactly where there is a path.
    pub fn delete_oldest_backup_if_needed(&self, listing: &Result<Vec<BackupFile>, String>) -> (r:
        Result<Option<String>, Error>)
        ensures
            match self@.dir() {
                None => r matches Err(e) && e@ == not_mounted(self@.filesystem.device_path),
                Some(dir) => match self@.eviction(dir, listing_view(*listing)) {
                    Ok(path) => r matches Ok(p) && opt_view(p) == path,
                    Err(e) => r matches Err(x) && x@ == e,
                },
            },
    {
        let dir = self.back_up_dir_path()?;
        self.evict_in(dir.as_str(), listing)
    }

    /// The path of the backup that is removed from the directory `dir`
    /// before the copy, where one is removed.
    pub fn evict_in(&self, dir: &str, listing: &Result<Vec<BackupFile>, String>) -> (r: Result<
        Option<String>,
        Error,
    >)
        ensures
            match self@.eviction(dir@, listing_view(*listing)) {
                Ok(path) => r matches Ok(p) && opt_view(p) == path,
                Err(e) => r matches Err(x) && x@ == e,
            },
    {
        let needs_deletion = self.needs_deletion(listing);
        if needs_deletion && !self.back_up_args.dry_run {
            let suffix = self.stable_postfix_file_name();
            let path = self.dst_filesystem.delete_oldest_backup(suffix.as_str(), dir, listing)?;
            proof {
                if path is Some && *listing is Ok {
                    let ghost p = path->Some_0@;
                    let ghost all = crate::filesystem::listed(listing->Ok_0@);
                    let k = choose|k: int|
                        is_oldest(all, self@.suffix(), k) && p == file_in(
                            dir@,
                            #[trigger] all[k].name,
                        );
                    let c = choose|k: int| is_oldest(all, self@.suffix(), k);
                    lemma_oldest_unique(all, self@.suffix(), k, c);
                    assert(crate::filesystem::is_backup_of(all[k], self@.suffix()));
                    all.lemma_filter_contains(
                        |f: BackupFileView| crate::filesystem::is_backup_of(f, self@.suffix()),
                        k,
                    );
                }
            }
            Ok(path)
        } else {
            Ok(None)
        }
    }

    /// Lets the backup through where the device is smaller than the free
    /// space of the destination, and unchecked where either size is
    /// unknown. A device that is not smaller is an error, and so is a size
    /// string of the device without a number.
    pub fn check_if_target_filesystem_has_enough_space(&self, available_space: Option<u64>) -> (r:
        Result<Admission, Error>)
        ensures
            match byte_size(self@.device.blockdevice.size) {
                Err(message) => r matches Err(e) && e@ == (ErrorView {
                    kind: ErrorKind::InvalidSize,
                    message,
                }),
                Ok(needed) => match admitted(available_space, needed) {
                    Some(admission) => r == Ok::<Admission, Error>(admission),
                    None => r matches Err(e) && e@ == insufficient_space(
                        self@.filesystem.device_path,
                        self@.device.device_path,
                    ),
                },
            },
    {
        let needed_space = self.back_up_device.total_size()?;
        match (available_space, needed_space) {
            (Some(available), Some(needed)) => {
                if available > needed {
                    Ok(Admission::Sufficient)
                } else {
                    let mut message = concat(
                        "Not enough space on destination filesystem ",
                        self.dst_filesystem.device_path.as_str(),
                    );
                    push_text(&mut message, ", to backup device ");
                    push_text(&mut message, self.back_up_device.device_path.as_str());
                    Err(Error::new(ErrorKind::InsufficientSpace, message))
                }
            },
            _ => Ok(Admission::Unverified),
        }
    }

    /// The step that ends the operation in failure.
    fn failed(failure: Error) -> (r: Progress)
        ensures
            r@ == (ProgressView {
                state: BackupStateView::Failed,
                action: None,
                notices: seq![],
                failure: Some(failure@),
            }),
    {
        let r = Progress {
            state: BackupState::Failed,
            action: None,
            notices: Vec::new(),
            failure: Some(failure),
        };
        assert(r@.notices =~= seq![]);
        r
    }

    /// The step that asks for `action` and waits in `state`.
    fn ask(state: BackupState, action: Action, notices: Vec<String>) -> (r: Progress)
        ensures
            r@ == (ProgressView {
                state: state@,
                action: Some(action@),
                notices: views(notices@),
                failure: None,
            }),
    {
        Progress { state, action: Some(action), notices, failure: None }
    }

    /// The step that follows the last check.
    fn go(&self, file: String, notices: Vec<String>) -> (r: Progress)
        ensures
            r@ == self@.go(file@, views(notices@)),
    {
        let copy = Action::Copy { input: self.input_file_path(), output: file };
        if self.back_up_args.dry_run {
            let words = match copy.command() {
                Some(words) => words,
                None => Vec::new(),
            };
            let line = join(&words, " ");
            let mut notices = notices;
            let ghost before = notices@;
            let notice = concat("[Dry-Run] backup would run with command: ", line.as_str());
            proof {
                crate::text::lemma_views_push(before, notice);
            }
            notices.push(notice);
            Progress { state: BackupState::Done, action: None, notices, failure: None }
        } else {
            Self::ask(BackupState::Validated, copy, notices)
        }
    }

    /// What the free space of the destination means for the operation.
    fn measured(&self, file: String, available: Result<Option<u64>, Error>) -> (r: Progress)
        ensures
            r@ == self@.measured(
                file@,
                match available {
                    Ok(a) => Ok(a),
                    Err(e) => Err(e@),
                },
            ),
    {
        let available = match available {
            Ok(a) => a,
            Err(e) => {
                return Self::failed(e);
            },
        };
        match self.check_if_target_filesystem_has_enough_space(available) {
            Err(e) => Self::failed(e),
            Ok(Admission::Sufficient) => {
                let notices: Vec<String> = Vec::new();
                assert(views(notices@) =~= seq![]);
                self.go(file, notices)
            },
            Ok(Admission::Unverified) => {
                let mut notices: Vec<String> = Vec::new();
                let notice = "Could not check if sufficient space is available".to_string();
                proof {
                    crate::text::lemma_views_push(notices@, notice);
                }
                notices.push(notice);
                assert(views(notices@) =~= seq![unverified_notice()]);
                self.go(file, notices)
            },
        }
    }

    /// Takes the operation one step on: from where it stands and what has
    /// happened to where it stands next and what is to be done.
    pub fn run(&self, state: BackupState, event: Event) -> (r: Progress)
        ensures
            r@ == self@.after(state@, event@),
    {
        match state {
            BackupState::Done | BackupState::Skipped | BackupState::Failed => {
                let r = Progress { state, action: None, notices: Vec::new(), failure: None };
                assert(r@.notices =~= seq![]);
                return r;
            },
            _ => {},
        }
        let dir = match self.back_up_dir_path() {
            Ok(dir) => dir,
            Err(e) => {
                return Self::failed(e);
            },
        };
        let file = match self.back_up_file_path() {
            Ok(file) => file,
            Err(e) => {
                return Self::failed(e);
            },
        };
        self.advance(dir, file, state, event)
    }

    /// Takes the operation one step on, with its backups in the directory
    /// `dir` and its target file at `file`.
    pub fn advance(&self, dir: String, file: String, state: BackupState, event: Event) -> (r:
        Progress)
        ensures
            r@ == self@.on(dir@, file@, state@, event@),
    {
        let none: Vec<String> = Vec::new();
        assert(views(none@) =~= seq![]);
        match (state, event) {
            (BackupState::Done, _) => Progress {
                state: BackupState::Done,
                action: None,
                notices: none,
                failure: None,
            },
            (BackupState::Skipped, _) => Progress {
                state: BackupState::Skipped,
                action: None,
                notices: none,
                failure: None,
            },
            (BackupState::Failed, _) => Progress {
                state: BackupState::Failed,
                action: None,
                notices: none,
                failure: None,
            },
            (BackupState::Init, Event::Start) => Self::ask(
                BackupState::CheckingTarget,
                Action::Probe { path: file },
                none,
            ),
            (BackupState::CheckingTarget, Event::Probed(exists)) => {
                match Self::refuse_existing(file.as_str(), exists) {
                    Err(e) => Progress {
                        state: BackupState::Skipped,
                        action: None,
                        notices: none,
                        failure: Some(e),
                    },
                    Ok(_) => Self::ask(BackupState::CountingCopies, Action::List { path: dir }, none),
                }
            },
            (BackupState::CountingCopies, Event::Listed(listing)) => {
                match self.evict_in(dir.as_str(), &listing) {
                    Err(e) => Self::failed(e),
                    Ok(None) => Self::ask(BackupState::CheckingSpace, Action::Inventory, none),
                    Ok(Some(path)) => {
                        let mut notices: Vec<String> = Vec::new();
                        let notice = concat("Removing old back up file: ", path.as_str());
                        proof {
                            crate::text::lemma_views_push(notices@, notice);
                        }
                        notices.push(notice);
                        assert(views(notices@) =~= seq![removal_notice(path@)]);
                        Self::ask(
                            BackupState::Evicting(path.clone()),
                            Action::Remove { path },
                            notices,
                        )
                    },
                }
            },
            (BackupState::Evicting(path), Event::Finished(outcome)) => {
                match Filesystem::removal(path.as_str(), outcome) {
                    Ok(_) => self.go(file, none),
                    Err(e) => Self::failed(e),
                }
            },
            (BackupState::CheckingSpace, Event::Inventoried(captured)) => {
                let fresh = Lsblk::new(captured);
                let available = self.dst_filesystem.available_space(&fresh);
                self.measured(file, available)
            },
            (BackupState::Validated, Event::Finished(outcome)) => match outcome {
                Ok(_) => Self::ask(BackupState::Copied, Action::SetOwner { path: file }, none),
                Err(reason) => Self::failed(Error::new(ErrorKind::CommandExecutionFailure, reason)),
            },
            (BackupState::Copied, Event::Finished(outcome)) => match outcome {
                Ok(_) => Progress {
                    state: BackupState::Done,
                    action: None,
                    notices: none,
                    failure: None,
                },
                Err(reason) => Self::failed(Error::new(ErrorKind::CommandExecutionFailure, reason)),
            },
            _ => Self::failed(
                Error::new(ErrorKind::CommandExecutionFailure, "Unexpected event".to_string()),
            ),
        }
    }
}

/// The text with hyphens for spaces, where there is a text.
pub open spec fn sanitized(text: Option<Seq<char>>) -> Option<Seq<char>> {
    match text {
        Some(t) => Some(hyphenated(t)),
        None => None,
    }
}

/// What the model and the serial spell in a file name.
pub open spec fn spelled(model: Option<Seq<char>>, serial: Option<Seq<char>>) -> Seq<char> {
    hyphenated(joined(name_parts(model, serial), "_"@))
}

/// What the model and the serial spell, case by case.
pub proof fn lemma_spelled(model: Option<Seq<char>>, serial: Option<Seq<char>>)
    ensures
        spelled(model, serial) == match (model, serial) {
            (Some(m), Some(s)) => hyphenated(m) + "_"@ + hyphenated(s),
            (Some(m), None) => hyphenated(m),
            (None, Some(s)) => hyphenated(s),
            (None, None) => Seq::<char>::empty(),
        },
        "_"@.len() == 1,
{
    reveal_strlit("_");
    let parts = name_parts(model, serial);
    match (model, serial) {
        (Some(m), Some(s)) => {
            assert(parts =~= seq![m, s]);
            assert(parts.drop_last() =~= seq![m]);
            assert(parts.drop_last().len() == 1 && parts.drop_last()[0] == m);
            assert(joined(parts.drop_last(), "_"@) == m);
            assert(parts.len() == 2 && parts.last() == s);
            assert(joined(parts, "_"@) == m + "_"@ + s);
            crate::text::lemma_hyphenated_add(m + "_"@, s);
            crate::text::lemma_hyphenated_add(m, "_"@);
            assert(hyphenated("_"@) =~= "_"@);
        },
        (Some(m), None) => {
            assert(parts =~= seq![m]);
            assert(parts.len() == 1 && parts[0] == m);
        },
        (None, Some(s)) => {
            assert(parts =~= seq![s]);
            assert(parts.len() == 1 && parts[0] == s);
        },
        (None, None) => {
            assert(parts =~= seq![]);
            assert(hyphenated(Seq::<char>::empty()) =~= Seq::<char>::empty());
        },
    }
}

/// The same device, the same name and the same day give the same file
/// name, and another day gives another name.
pub proof fn law_file_name_tells_date(
    date: Seq<char>,
    other: Seq<char>,
    name: Seq<char>,
    model: Option<Seq<char>>,
    serial: Option<Seq<char>>,
)
    ensures
        backup_file_name(date, name, model, serial) == backup_file_name(other, name, model, serial)
            <==> date == other,
{
    let rest = "_"@ + name + "_"@ + stable_suffix(model, serial);
    assert(backup_file_name(date, name, model, serial) =~= date + rest);
    assert(backup_file_name(other, name, model, serial) =~= other + rest);
    if date + rest == other + rest {
        crate::text::lemma_same_end(date, other, rest);
    }
}

/// Another display name gives another file name.
pub proof fn law_file_name_tells_name(
    date: Seq<char>,
    name: Seq<char>,
    other: Seq<char>,
    model: Option<Seq<char>>,
    serial: Option<Seq<char>>,
)
    ensures
        backup_file_name(date, name, model, serial) == backup_file_name(date, other, model, serial)
            <==> name == other,
{
    let head = date + "_"@;
    let rest = "_"@ + stable_suffix(model, serial);
    assert(backup_file_name(date, name, model, serial) =~= head + (name + rest));
    assert(backup_file_name(date, other, model, serial) =~= head + (other + rest));
    if head + (name + rest) == head + (other + rest) {
        crate::text::lemma_same_start(head, name + rest, other + rest);
        crate::text::lemma_same_end(name, other, rest);
    }
}

/// Two devices share their file names exactly where model and serial spell
/// the same.
pub proof fn law_file_name_tells_device(
    date: Seq<char>,
    name: Seq<char>,
    model: Option<Seq<char>>,
    serial: Option<Seq<char>>,
    other_model: Option<Seq<char>>,
    other_serial: Option<Seq<char>>,
)
    ensures
        backup_file_name(date, name, model, serial) == backup_file_name(
            date,
            name,
            other_model,
            other_serial,
        ) <==> spelled(model, serial) == spelled(other_model, other_serial),
        stable_suffix(model, serial) == stable_suffix(other_model, other_serial) <==> spelled(
            model,
            serial,
        ) == spelled(other_model, other_serial),
{
    let head = date + "_"@ + name + "_"@;
    let a = stable_suffix(model, serial);
    let b = stable_suffix(other_model, other_serial);
    if head + a == head + b {
        crate::text::lemma_same_start(head, a, b);
    }
    if a == b {
        crate::text::lemma_same_end(
            spelled(model, serial),
            spelled(other_model, other_serial),
            ".img"@,
        );
    }
}

/// Another model gives another file name, unless the two models differ in
/// nothing but spaces for hyphens; for a device without a serial, no model
/// counts as an empty model.
pub proof fn law_file_name_tells_model(
    date: Seq<char>,
    name: Seq<char>,
    model: Option<Seq<char>>,
    other: Option<Seq<char>>,
    serial: Option<Seq<char>>,
)
    ensures
        backup_file_name(date, name, model, serial) == backup_file_name(date, name, other, serial)
            <==> (if serial is Some {
            sanitized(model) == sanitized(other)
        } else {
            hyphenated(crate::device::text_or(model, Seq::<char>::empty())) == hyphenated(
                crate::device::text_or(other, Seq::<char>::empty()),
            )
        }),
{
    law_file_name_tells_device(date, name, model, serial, other, serial);
    lemma_spelled(model, serial);
    lemma_spelled(other, serial);
    assert(hyphenated(Seq::<char>::empty()) =~= Seq::<char>::empty());
    match (model, other, serial) {
        (Some(m), Some(o), Some(s)) => {
            let tail = "_"@ + hyphenated(s);
            assert(hyphenated(m) + "_"@ + hyphenated(s) =~= hyphenated(m) + tail);
            assert(hyphenated(o) + "_"@ + hyphenated(s) =~= hyphenated(o) + tail);
            if hyphenated(m) + tail == hyphenated(o) + tail {
                crate::text::lemma_same_end(hyphenated(m), hyphenated(o), tail);
            }
        },
        (Some(m), None, Some(s)) => {
            assert((hyphenated(m) + "_"@ + hyphenated(s)).len() > hyphenated(s).len());
        },
        (None, Some(o), Some(s)) => {
            assert((hyphenated(o) + "_"@ + hyphenated(s)).len() > hyphenated(s).len());
        },
        _ => {},
    }
}

/// Another serial gives another file name, unless the two serials differ
/// in nothing but spaces for hyphens; for a device without a model, no
/// serial counts as an empty serial.
pub proof fn law_file_name_tells_serial(
    date: Seq<char>,
    name: Seq<char>,
    model: Option<Seq<char>>,
    serial: Option<Seq<char>>,
    other: Option<Seq<char>>,
)
    ensures
        backup_file_name(date, name, model, serial) == backup_file_name(date, name, model, other)
            <==> (if model is Some {
            sanitized(serial) == sanitized(other)
        } else {
            hyphenated(crate::device::text_or(serial, Seq::<char>::empty())) == hyphenated(
                crate::device::text_or(other, Seq::<char>::empty()),
            )
        }),
{
    law_file_name_tells_device(date, name, model, serial, model, other);
    lemma_spelled(model, serial);
    lemma_spelled(model, other);
    assert(hyphenated(Seq::<char>::empty()) =~= Seq::<char>::empty());
    match (model, serial, other) {
        (Some(m), Some(s), Some(o)) => {
            let head = hyphenated(m) + "_"@;
            if head + hyphenated(s) == head + hyphenated(o) {
                crate::text::lemma_same_start(head, hyphenated(s), hyphenated(o));
            }
        },
        (Some(m), Some(s), None) => {
            assert((hyphenated(m) + "_"@ + hyphenated(s)).len() > hyphenated(m).len());
        },
        (Some(m), None, Some(o)) => {
            assert((hyphenated(m) + "_"@ + hyphenated(o)).len() > hyphenated(m).len());
        },
        _ => {},
    }
}

/// A destination that holds exactly as many backups of a device as are
/// kept is full; one that holds one less is not.
pub proof fn law_full_at_the_limit(operation: BackUpView, files: Seq<BackupFileView>)
    ensures
        backups_of(files, operation.suffix()).len() == operation.device.copies ==> operation.full(
            Ok(files),
        ),
        backups_of(files, operation.suffix()).len() + 1 == operation.device.copies
            ==> !operation.full(Ok(files)),
{
}

/// What eviction removes is one backup of the device, and the oldest: no
/// backup of the device in the listing was created before it.
pub proof fn law_eviction_takes_the_oldest(
    operation: BackUpView,
    dir: Seq<char>,
    files: Seq<BackupFileView>,
)
    ensures
        operation.eviction(dir, Ok(files)) matches Ok(Some(path)) ==> exists|k: int|
            is_oldest(files, operation.suffix(), k) && path == file_in(
                dir,
                (#[trigger] files[k]).name,
            ),
        operation.full(Ok(files)) && !operation.dry_run && backups_of(
            files,
            operation.suffix(),
        ).len() > 0 ==> operation.eviction(dir, Ok(files)) matches Ok(Some(_)),
{
    if let Ok(Some(path)) = operation.eviction(dir, Ok(files)) {
        let k = crate::filesystem::lemma_oldest_exists(files, operation.suffix());
        let c = choose|k: int| is_oldest(files, operation.suffix(), k);
        assert(is_oldest(files, operation.suffix(), c));
        assert(path == file_in(dir, files[c].name));
    }
}

/// An operation asks for a file to be removed in one step only: on the
/// listing of a full destination, outside a dry run. The file is the
/// oldest backup of the device in that listing.
pub proof fn law_removal_is_eviction(
    operation: BackUpView,
    state: BackupStateView,
    event: EventView,
)
    ensures
        operation.after(state, event).action matches Some(ActionView::Remove { path }) ==> {
            &&& state is CountingCopies
            &&& !operation.dry_run
            &&& event matches EventView::Listed(Ok(files))
            &&& operation.full(Ok(files))
            &&& operation.dir() matches Some(dir)
            &&& exists|k: int|
                is_oldest(files, operation.suffix(), k) && path == file_in(
                    dir,
                    (#[trigger] files[k]).name,
                )
        },
{
    if operation.after(state, event).action is Some {
        if let EventView::Listed(Ok(files)) = event {
            if let Some(dir) = operation.dir() {
                law_eviction_takes_the_oldest(operation, dir, files);
            }
        }
    }
}

/// The states of an operation before the copy.
pub open spec fn is_checking(state: BackupStateView) -> bool {
    state is Init || state is CheckingTarget || state is CountingCopies || state is CheckingSpace
}

/// A dry run changes nothing: from its start an operation of a dry run
/// stays among the checks until it ends, and never asks for a file to be
/// removed, copied or given an owner.
pub proof fn law_dry_run_is_harmless(
    operation: BackUpView,
    state: BackupStateView,
    event: EventView,
)
    requires
        operation.dry_run,
        is_checking(state) || state.is_final(),
    ensures
        ({
            let step = operation.after(state, event);
            &&& is_checking(step.state) || step.state.is_final()
            &&& !(step.action matches Some(ActionView::Remove { .. }))
            &&& !(step.action matches Some(ActionView::Copy { .. }))
            &&& !(step.action matches Some(ActionView::SetOwner { .. }))
        }),
{
}

/// How far an operation has come: every step takes it further.
pub open spec fn stage(state: BackupStateView) -> nat {
    match state {
        BackupStateView::Init => 0,
        BackupStateView::CheckingTarget => 1,
        BackupStateView::CountingCopies => 2,
        BackupStateView::Evicting(_) => 3,
        BackupStateView::CheckingSpace => 3,
        BackupStateView::Validated => 4,
        BackupStateView::Copied => 5,
        BackupStateView::Done => 6,
        BackupStateView::Skipped => 6,
        BackupStateView::Failed => 6,
    }
}

/// An operation moves forward: each step of an operation that has not
/// ended takes it to a later stage, so that it ends within six steps and
/// lists its directory, removes a backup and copies its device once at
/// most. A step that ends it asks for nothing more, and a failure comes
/// with the end only.
pub proof fn law_an_operation_moves_forward(
    operation: BackUpView,
    state: BackupStateView,
    event: EventView,
)
    ensures
        ({
            let step = operation.after(state, event);
            &&& state.is_final() ==> step.state == state
            &&& !state.is_final() ==> stage(step.state) > stage(state)
            &&& step.state.is_final() <==> step.action is None
            &&& step.failure is Some ==> step.state is Skipped || step.state is Failed
        }),
{
}

/// Space is looked at wherever nothing is removed. After the listing an
/// operation that removes no backup, be it because fewer are there than are
/// kept, because the run is dry or because there is none to remove, asks for
/// the free space; a dry run never removes. And a device that is not smaller
/// than the free space fails the operation, in a dry run as in any other.
pub proof fn law_space_is_checked_where_nothing_is_removed(
    operation: BackUpView,
    dir: Seq<char>,
    file: Seq<char>,
    listing: Result<Seq<BackupFileView>, Seq<char>>,
    entries: Seq<crate::lsblk::BlockDeviceView>,
)
    ensures
        operation.dry_run ==> operation.eviction(dir, listing) == Ok::<
            Option<Seq<char>>,
            ErrorView,
        >(None),
        operation.eviction(dir, listing) == Ok::<Option<Seq<char>>, ErrorView>(None) ==> {
            let step = operation.on(
                dir,
                file,
                BackupStateView::CountingCopies,
                EventView::Listed(listing),
            );
            step.state is CheckingSpace && step.action == Some(ActionView::Inventory)
                && step.failure is None
        },
        ({
            let available = free_space(
                crate::lsblk::destinations(entries),
                operation.filesystem.blockdevice.uuid,
                0,
            );
            let step = operation.on(
                dir,
                file,
                BackupStateView::CheckingSpace,
                EventView::Inventoried(Ok(entries)),
            );
            byte_size(operation.device.blockdevice.size) matches Ok(needed) && admitted(
                available,
                needed,
            ) is None ==> step.state is Failed && step.action is None && step.failure == Some(
                insufficient_space(operation.filesystem.device_path, operation.device.device_path),
            )
        }),
{
}

/// Where the destination is mounted at a path of plain names below the
/// root, the backups lie in a directory of plain names below the mount
/// point, or in the mount point itself, and the file name holds no slash,
/// the target file is the path of all these names, one after the other.
pub proof fn law_the_target_path(
    operation: BackUpView,
    mount: Seq<Seq<char>>,
    below: Seq<Seq<char>>,
)
    requires
        crate::paths::all_plain(mount),
        crate::paths::all_plain(below),
        operation.filesystem.blockdevice.mountpoint == Some("/"@ + joined(mount, "/"@)),
        operation.device.destination_path == joined(below, "/"@) || (below.len() == 0
            && operation.device.destination_path == "./"@),
        crate::paths::is_plain(operation.file_name()),
    ensures
        operation.dir() == Some("/"@ + joined(mount + below, "/"@)),
        operation.file() == Some(
            "/"@ + joined((mount + below).push(operation.file_name()), "/"@),
        ),
{
    let all = mount + below;
    if operation.device.destination_path == joined(below, "/"@) {
        crate::paths::law_plain_names_join_as_they_stand(mount, below, true);
    } else {
        crate::paths::law_the_directory_itself(mount, true);
        assert(mount + below =~= mount);
    }
    assert forall|i: int| 0 <= i < all.len() implies crate::paths::is_plain(#[trigger] all[i]) by {
        if i < mount.len() {
            assert(all[i] == mount[i]);
        } else {
            assert(all[i] == below[i - mount.len()]);
        }
    }
    let name = seq![operation.file_name()];
    assert(joined(name, "/"@) == operation.file_name());
    crate::paths::law_plain_names_join_as_they_stand(all, name, true);
    assert(all + name =~= all.push(operation.file_name()));
}

} // verus!
