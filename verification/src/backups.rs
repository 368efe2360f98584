//! One backup group: a destination filesystem and the devices that are
//! backed up to it. The group mounts the destination, lets each device have
//! its operation, whatever became of the one before, and unmounts.

use vstd::prelude::*;
use crate::args::BackupArgs;
use crate::backup::{
    unexpected_event,
    BackUp,
    BackUpView,
    BackupState,
    BackupStateView,
    Progress,
    ProgressView,
};
use crate::config::{BackupConfig, BackupDeviceView, Config};
use crate::device::{resolution, table_view, Device, DeviceView};
use crate::error::{Error, ErrorKind, ErrorView};
use crate::filesystem::{filesystem_resolution, Filesystem, FilesystemView};
use crate::lsblk::{inventory, BlockDeviceView, Lsblk};
use crate::protocol::{action_view, Action, ActionView, Event, EventView};
use crate::text::{append_all, concat, lemma_views_push, views};

verus! {

/// Where a group stands.
#[derive(Debug, PartialEq, Eq)]
pub enum GroupState {
    /// Nothing has been done.
    Init,
    /// Asked to mount the destination.
    Mounting,
    /// The device at this index has its operation, which stands in this
    /// state.
    Running { device: usize, operation: BackupState },
    /// Asked to flush pending writes.
    Syncing,
    /// Asked to unmount the destination.
    Unmounting,
    /// The group has ended.
    Done,
}

/// The mathematical value of a [`GroupState`].
pub enum GroupStateView {
    Init,
    Mounting,
    Running { device: usize, operation: BackupStateView },
    Syncing,
    Unmounting,
    Done,
}

impl View for GroupState {
    type V = GroupStateView;

    open spec fn view(&self) -> GroupStateView {
        match self {
            GroupState::Init => GroupStateView::Init,
            GroupState::Mounting => GroupStateView::Mounting,
            GroupState::Running { device, operation } => GroupStateView::Running {
                device: *device,
                operation: operation@,
            },
            GroupState::Syncing => GroupStateView::Syncing,
            GroupState::Unmounting => GroupStateView::Unmounting,
            GroupState::Done => GroupStateView::Done,
        }
    }
}

impl Clone for GroupState {
    fn clone(&self) -> (r: Self)
        ensures
            r@ == self@,
    {
        match self {
            GroupState::Init => GroupState::Init,
            GroupState::Mounting => GroupState::Mounting,
            GroupState::Running { device, operation } => GroupState::Running {
                device: *device,
                operation: operation.clone(),
            },
            GroupState::Syncing => GroupState::Syncing,
            GroupState::Unmounting => GroupState::Unmounting,
            GroupState::Done => GroupState::Done,
        }
    }
}

/// One backup group in the course of a run.
#[derive(Debug)]
pub struct Backups<'a> {
    /// The destination filesystem.
    pub dst_filesystem: Filesystem,
    /// The devices that are backed up, in order.
    pub backup_devices: Vec<Device>,
    /// The options of the run.
    pub backup_args: &'a BackupArgs,
    /// The date that file names carry.
    pub date: String,
    /// Why configured devices are not among those backed up.
    pub failures: Vec<Error>,
    /// Where the group stands.
    pub state: GroupState,
}

/// The mathematical value of a [`Backups`].
pub struct BackupsView {
    pub filesystem: FilesystemView,
    pub devices: Seq<DeviceView>,
    pub dry_run: bool,
    pub date: Seq<char>,
    pub failures: Seq<ErrorView>,
    pub state: GroupStateView,
}

impl<'a> View for Backups<'a> {
    type V = BackupsView;

    open spec fn view(&self) -> BackupsView {
        BackupsView {
            filesystem: self.dst_filesystem@,
            devices: self.backup_devices@.map_values(|d: Device| d@),
            dry_run: self.backup_args.dry_run,
            date: self.date@,
            failures: self.failures@.map_values(|e: Error| e@),
            state: self.state@,
        }
    }
}

/// What one step of a group comes to.
#[derive(Debug)]
pub struct Advance {
    /// What is to be done next; nothing once the group has ended.
    pub action: Option<Action>,
    /// Lines for the operator.
    pub notices: Vec<String>,
    /// How the group ended, in the step in which it ends.
    pub outcome: Option<Result<(), Error>>,
}

/// The mathematical value of an [`Advance`].
pub struct AdvanceView {
    pub action: Option<ActionView>,
    pub notices: Seq<Seq<char>>,
    pub outcome: Option<Result<(), ErrorView>>,
}

impl View for Advance {
    type V = AdvanceView;

    open spec fn view(&self) -> AdvanceView {
        AdvanceView {
            action: action_view(self.action),
            notices: views(self.notices@),
            outcome: match self.outcome {
                Some(Ok(_)) => Some(Ok(())),
                Some(Err(e)) => Some(Err(e@)),
                None => None,
            },
        }
    }
}

/// The devices that the configured sources resolve to, in order: a source
/// that is absent, mounted or ambiguous has none.
pub open spec fn resolved_devices(
    sources: Seq<BackupDeviceView>,
    entries: Seq<BlockDeviceView>,
    destination_path: Option<Seq<char>>,
    mount_table: Result<Seq<char>, Seq<char>>,
) -> Seq<DeviceView>
    decreases sources.len(),
{
    if sources.len() == 0 {
        seq![]
    } else {
        let before = resolved_devices(sources.drop_last(), entries, destination_path, mount_table);
        match resolution(sources.last(), entries, destination_path, mount_table) {
            Ok(Some(device)) => before.push(device),
            _ => before,
        }
    }
}

/// The errors of the configured sources that are ambiguous, in order.
pub open spec fn resolution_failures(
    sources: Seq<BackupDeviceView>,
    entries: Seq<BlockDeviceView>,
    destination_path: Option<Seq<char>>,
    mount_table: Result<Seq<char>, Seq<char>>,
) -> Seq<ErrorView>
    decreases sources.len(),
{
    if sources.len() == 0 {
        seq![]
    } else {
        let before = resolution_failures(
            sources.drop_last(),
            entries,
            destination_path,
            mount_table,
        );
        match resolution(sources.last(), entries, destination_path, mount_table) {
            Err(e) => before.push(e),
            _ => before,
        }
    }
}

/// The line that tells of a device whose operation did not end well.
pub open spec fn failure_notice(failure: ErrorView) -> Seq<char> {
    "Error performing backup: "@ + failure.message
}

/// The lines of an operation's last step, with the line that tells of its
/// failure where it failed.
pub open spec fn final_notices(p: ProgressView) -> Seq<Seq<char>> {
    match p.failure {
        Some(e) => p.notices.push(failure_notice(e)),
        None => p.notices,
    }
}

impl BackupsView {
    /// The operation of the device at `i`.
    pub open spec fn operation(self, i: int) -> BackUpView {
        BackUpView {
            filesystem: self.filesystem,
            device: self.devices[i],
            dry_run: self.dry_run,
            date: self.date,
        }
    }

    /// This group in another state.
    pub open spec fn in_state(self, state: GroupStateView) -> BackupsView {
        BackupsView { state, ..self }
    }

    /// This group with another destination.
    pub open spec fn with_filesystem(self, filesystem: FilesystemView) -> BackupsView {
        BackupsView { filesystem, ..self }
    }

    /// The step in which the group ends.
    pub open spec fn ended(self, notices: Seq<Seq<char>>, outcome: Result<(), ErrorView>) -> (
        BackupsView,
        AdvanceView,
    ) {
        (
            self.in_state(GroupStateView::Done),
            AdvanceView { action: None, notices, outcome: Some(outcome) },
        )
    }

    /// The step that asks for `action` and waits in `state`.
    pub open spec fn asking(
        self,
        state: GroupStateView,
        action: ActionView,
        notices: Seq<Seq<char>>,
    ) -> (BackupsView, AdvanceView) {
        (self.in_state(state), AdvanceView { action: Some(action), notices, outcome: None })
    }

    /// The step that follows the last device: the flush that goes before the
    /// unmount. A destination that is not mounted cannot be unmounted, and
    /// the group ends in failure.
    pub open spec fn leave(self, notices: Seq<Seq<char>>) -> (BackupsView, AdvanceView) {
        match self.filesystem.blockdevice.mountpoint {
            Some(_) => self.asking(GroupStateView::Syncing, ActionView::Sync, notices),
            None => self.ended(
                notices,
                Err(
                    ErrorView {
                        kind: ErrorKind::UnmountFailure,
                        message: self.filesystem.mountpath,
                    },
                ),
            ),
        }
    }

    /// The step that starts with the device at `i`: its operation is asked
    /// for its first action. After the last device the group leaves.
    pub open spec fn start_from(self, i: int, notices: Seq<Seq<char>>) -> (BackupsView, AdvanceView)
        decreases self.devices.len() - i, 1int,
    {
        if 0 <= i < self.devices.len() {
            self.absorb(
                i,
                self.operation(i).after(BackupStateView::Init, EventView::Start),
                notices,
            )
        } else {
            self.leave(notices)
        }
    }

    /// The step that takes in what the operation of the device at `i` has
    /// come to. An operation that has ended, however it ended, makes room
    /// for the next device; a failure leaves a line behind.
    pub open spec fn absorb(self, i: int, p: ProgressView, notices: Seq<Seq<char>>) -> (
        BackupsView,
        AdvanceView,
    )
        decreases self.devices.len() - i, 0int,
    {
        if !(0 <= i < self.devices.len()) {
            self.leave(notices)
        } else if p.state.is_final() || p.action is None {
            self.start_from(i + 1, notices + final_notices(p))
        } else {
            self.asking(
                GroupStateView::Running { device: i as usize, operation: p.state },
                p.action->Some_0,
                notices + p.notices,
            )
        }
    }

    /// The step that the group takes on `event`.
    ///
    /// A group whose destination is not mounted starts by mounting it; if
    /// that fails, the group ends in failure. Then each device in turn has
    /// its operation, and every event goes to the operation that is under
    /// way. After the last device pending writes are flushed and the
    /// destination is unmounted; a failure of either ends the group in
    /// failure. An event that answers nothing that was asked ends the group
    /// in failure as well.
    pub open spec fn after(self, event: EventView) -> (BackupsView, AdvanceView) {
        match (self.state, event) {
            (GroupStateView::Done, _) => (
                self,
                AdvanceView { action: None, notices: seq![], outcome: None },
            ),
            (GroupStateView::Init, EventView::Start) => match self.filesystem.blockdevice.mountpoint {
                Some(_) => self.start_from(0, seq![]),
                None => self.asking(
                    GroupStateView::Mounting,
                    ActionView::Mount {
                        device: self.filesystem.device_path,
                        path: self.filesystem.mountpath,
                    },
                    seq![],
                ),
            },
            (GroupStateView::Mounting, EventView::Finished(outcome)) => match outcome {
                Ok(_) => self.with_filesystem(
                    self.filesystem.with_mountpoint(Some(self.filesystem.mountpath)),
                ).start_from(0, seq!["Filesystem mounted successfully"@]),
                Err(reason) => self.ended(
                    seq![],
                    Err(ErrorView { kind: ErrorKind::MountFailure, message: reason }),
                ),
            },
            (GroupStateView::Running { device, operation }, event) => {
                if device < self.devices.len() {
                    self.absorb(
                        device as int,
                        self.operation(device as int).after(operation, event),
                        seq![],
                    )
                } else {
                    self.leave(seq![])
                }
            },
            (GroupStateView::Syncing, EventView::Finished(outcome)) => match outcome {
                Ok(_) => match self.filesystem.blockdevice.mountpoint {
                    Some(at) => self.asking(
                        GroupStateView::Unmounting,
                        ActionView::Unmount { path: at },
                        seq![],
                    ),
                    None => self.ended(
                        seq![],
                        Err(
                            ErrorView {
                                kind: ErrorKind::UnmountFailure,
                                message: self.filesystem.mountpath,
                            },
                        ),
                    ),
                },
                Err(reason) => self.ended(
                    seq![],
                    Err(ErrorView { kind: ErrorKind::CommandExecutionFailure, message: reason }),
                ),
            },
            (GroupStateView::Unmounting, EventView::Finished(outcome)) => match (
                self.filesystem.blockdevice.mountpoint,
                outcome,
            ) {
                (None, _) => self.ended(
                    seq![],
                    Err(
                        ErrorView {
                            kind: ErrorKind::UnmountFailure,
                            message: self.filesystem.mountpath,
                        },
                    ),
                ),
                (Some(_), Ok(_)) => self.with_filesystem(
                    self.filesystem.with_mountpoint(None),
                ).ended(seq!["Filesystem unmounted successfully"@], Ok(())),
                (Some(_), Err(reason)) => self.ended(
                    seq![],
                    Err(ErrorView { kind: ErrorKind::UnmountFailure, message: reason }),
                ),
            },
            _ => self.ended(seq![], Err(unexpected_event())),
        }
    }
}

/// The view of the way a group ended.
pub open spec fn outcome_view(outcome: Result<(), Error>) -> Result<(), ErrorView> {
    match outcome {
        Ok(_) => Ok(()),
        Err(e) => Err(e@),
    }
}

/// No lines.
fn no_notices() -> (r: Vec<String>)
    ensures
        views(r@) == Seq::<Seq<char>>::empty(),
{
    let r: Vec<String> = Vec::new();
    assert(views(r@) =~= Seq::<Seq<char>>::empty());
    r
}

/// One line.
fn one_notice(line: String) -> (r: Vec<String>)
    ensures
        views(r@) == seq![line@],
{
    let mut r: Vec<String> = Vec::new();
    r.push(line);
    assert(views(r@) =~= seq![line@]);
    r
}

impl<'a> Backups<'a> {
    /// Resolves one configured group against the inventory. There is no
    /// group where no filesystem carries the uuid, and it is an error if
    /// several do. Of the configured devices, those that resolve are backed
    /// up; the errors of those that are ambiguous are kept for the operator.
    pub fn new(
        backup_config: &BackupConfig,
        lsblk: &Lsblk,
        backup_args: &'a BackupArgs,
        config: &Config,
        mount_table: &Result<String, String>,
        date: String,
    ) -> (r: Result<Option<Backups<'a>>, Error>)
        ensures
            match filesystem_resolution(
                backup_config@.uuid,
                inventory(lsblk.available_filesystems@),
                config@.mountpath,
            ) {
                Err(e) => r matches Err(x) && x@ == e,
                Ok(None) => r matches Ok(None),
                Ok(Some(filesystem)) => r matches Ok(Some(group)) && group@ == (BackupsView {
                    filesystem,
                    devices: resolved_devices(
                        backup_config@.backup_devices,
                        inventory(lsblk.available_devices@),
                        backup_config@.destination_path,
                        table_view(*mount_table),
                    ),
                    dry_run: backup_args.dry_run,
                    date: date@,
                    failures: resolution_failures(
                        backup_config@.backup_devices,
                        inventory(lsblk.available_devices@),
                        backup_config@.destination_path,
                        table_view(*mount_table),
                    ),
                    state: GroupStateView::Init,
                }),
            },
    {
        let dst_filesystem = match Filesystem::new(
            backup_config.uuid.as_str(),
            &lsblk.available_filesystems,
            config.mountpath.clone(),
        ) {
            Err(e) => {
                return Err(e);
            },
            Ok(None) => {
                return Ok(None);
            },
            Ok(Some(filesystem)) => filesystem,
        };
        let ghost sources = backup_config@.backup_devices;
        let ghost entries = inventory(lsblk.available_devices@);
        let ghost destination = backup_config@.destination_path;
        let mut backup_devices: Vec<Device> = Vec::new();
        let mut failures: Vec<Error> = Vec::new();
        let mut i: usize = 0;
        assert(sources.take(0).len() == 0);
        while i < backup_config.backup_devices.len()
            invariant
                i <= backup_config.backup_devices.len(),
                sources == backup_config@.backup_devices,
                entries == inventory(lsblk.available_devices@),
                destination == backup_config@.destination_path,
                backup_devices@.map_values(|d: Device| d@) == resolved_devices(
                    sources.take(i as int),
                    entries,
                    destination,
                    table_view(*mount_table),
                ),
                failures@.map_values(|e: Error| e@) == resolution_failures(
                    sources.take(i as int),
                    entries,
                    destination,
                    table_view(*mount_table),
                ),
            decreases backup_config.backup_devices.len() - i,
        {
            proof {
                assert(sources.take(i + 1).drop_last() == sources.take(i as int));
                assert(sources.take(i + 1).last() == backup_config.backup_devices@[i as int]@);
            }
            let ghost devices_before = backup_devices@.map_values(|d: Device| d@);
            let ghost failures_before = failures@.map_values(|e: Error| e@);
            match Device::new(
                &backup_config.backup_devices[i],
                lsblk.available_devices.as_slice(),
                backup_config.destination_path.clone(),
                mount_table,
            ) {
                Ok(Some(device)) => {
                    backup_devices.push(device);
                    assert(backup_devices@.map_values(|d: Device| d@) =~= devices_before.push(
                        device@,
                    ));
                },
                Ok(None) => {},
                Err(e) => {
                    failures.push(e);
                    assert(failures@.map_values(|e: Error| e@) =~= failures_before.push(e@));
                },
            }
            i += 1;
        }
        assert(sources.take(i as int) == sources);
        Ok(
            Some(
                Backups {
                    dst_filesystem,
                    backup_devices,
                    backup_args,
                    date,
                    failures,
                    state: GroupState::Init,
                },
            ),
        )
    }

    /// The operation of the device at `i`.
    fn operation(&self, i: usize) -> (r: BackUp<'_>)
        requires
            i < self.backup_devices.len(),
        ensures
            r@ == self@.operation(i as int),
    {
        BackUp::dated(
            &self.dst_filesystem,
            &self.backup_devices[i],
            self.backup_args,
            self.date.clone(),
        )
    }

    /// The step in which the group ends.
    fn ended(&mut self, notices: Vec<String>, outcome: Result<(), Error>) -> (r: Advance)
        ensures
            (final(self)@, r@) == old(self)@.ended(views(notices@), outcome_view(outcome)),
    {
        self.state = GroupState::Done;
        Advance { action: None, notices, outcome: Some(outcome) }
    }

    /// The step that asks for `action` and waits in `state`.
    fn asking(&mut self, state: GroupState, action: Action, notices: Vec<String>) -> (r: Advance)
        ensures
            (final(self)@, r@) == old(self)@.asking(state@, action@, views(notices@)),
    {
        self.state = state;
        Advance { action: Some(action), notices, outcome: None }
    }

    /// The step that follows the last device.
    fn leave(&mut self, notices: Vec<String>) -> (r: Advance)
        ensures
            (final(self)@, r@) == old(self)@.leave(views(notices@)),
    {
        match self.dst_filesystem.unmount_target() {
            Ok(_) => self.asking(GroupState::Syncing, Action::Sync, notices),
            Err(e) => self.ended(notices, Err(e)),
        }
    }

    /// The step that starts with the device at `i`.
    fn start_from(&mut self, i: usize, notices: Vec<String>) -> (r: Advance)
        ensures
            (final(self)@, r@) == old(self)@.start_from(i as int, views(notices@)),
        decreases old(self).backup_devices.len() - i, 1int,
    {
        if i < self.backup_devices.len() {
            let p = self.operation(i).run(BackupState::Init, Event::Start);
            self.absorb(i, p, notices)
        } else {
            self.leave(notices)
        }
    }

    /// The step that takes in what the operation of the device at `i` has
    /// come to.
    fn absorb(&mut self, i: usize, p: Progress, notices: Vec<String>) -> (r: Advance)
        ensures
            (final(self)@, r@) == old(self)@.absorb(i as int, p@, views(notices@)),
        decreases old(self).backup_devices.len() - i, 0int,
    {
        if i >= self.backup_devices.len() {
            return self.leave(notices);
        }
        let ghost given = views(notices@);
        let ghost step = p@;
        let Progress { state, action, notices: lines, failure } = p;
        let mut notices = notices;
        append_all(&mut notices, lines);
        let ended = match state {
            BackupState::Done | BackupState::Skipped | BackupState::Failed => true,
            _ => false,
        };
        match action {
            Some(action) => {
                if !ended {
                    return self.asking(
                        GroupState::Running { device: i, operation: state },
                        action,
                        notices,
                    );
                }
            },
            None => {},
        }
        match failure {
            Some(e) => {
                let line = concat("Error performing backup: ", e.message.as_str());
                proof {
                    lemma_views_push(notices@, line);
                }
                notices.push(line);
            },
            None => {},
        }
        assert(views(notices@) =~= given + final_notices(step));
        self.start_from(i + 1, notices)
    }

    /// Takes the group one step on: what has happened goes in, what is to
    /// be done next comes out.
    pub fn run(&mut self, event: Event) -> (r: Advance)
        ensures
            (final(self)@, r@) == old(self)@.after(event@),
    {
        let state = self.state.clone();
        match (state, event) {
            (GroupState::Done, _) => Advance {
                action: None,
                notices: no_notices(),
                outcome: None,
            },
            (GroupState::Init, Event::Start) => {
                if self.dst_filesystem.is_mounted() {
                    self.start_from(0, no_notices())
                } else {
                    let action = Action::Mount {
                        device: self.dst_filesystem.device_path.clone(),
                        path: self.dst_filesystem.mountpath.clone(),
                    };
                    self.asking(GroupState::Mounting, action, no_notices())
                }
            },
            (GroupState::Mounting, Event::Finished(outcome)) => {
                match self.dst_filesystem.mount(outcome) {
                    Ok(_) => self.start_from(
                        0,
                        one_notice("Filesystem mounted successfully".to_string()),
                    ),
                    Err(e) => self.ended(no_notices(), Err(e)),
                }
            },
            (GroupState::Running { device, operation }, event) => {
                if device < self.backup_devices.len() {
                    let p = self.operation(device).run(operation, event);
                    self.absorb(device, p, no_notices())
                } else {
                    self.leave(no_notices())
                }
            },
            (GroupState::Syncing, Event::Finished(outcome)) => match outcome {
                Ok(_) => match self.dst_filesystem.unmount_target() {
                    Ok(at) => self.asking(
                        GroupState::Unmounting,
                        Action::Unmount { path: at },
                        no_notices(),
                    ),
                    Err(e) => self.ended(no_notices(), Err(e)),
                },
                Err(reason) => self.ended(
                    no_notices(),
                    Err(Error::new(ErrorKind::CommandExecutionFailure, reason)),
                ),
            },
            (GroupState::Unmounting, Event::Finished(outcome)) => {
                match self.dst_filesystem.unmount(outcome) {
                    Ok(_) => self.ended(
                        one_notice("Filesystem unmounted successfully".to_string()),
                        Ok(()),
                    ),
                    Err(e) => self.ended(no_notices(), Err(e)),
                }
            },
            _ => self.ended(
                no_notices(),
                Err(Error::new(ErrorKind::CommandExecutionFailure, "Unexpected event".to_string())),
            ),
        }
    }
}


/// Taking in an operation's step changes nothing of a group but its state.
pub proof fn lemma_absorb_keeps_the_plan(
    group: BackupsView,
    i: int,
    p: ProgressView,
    notices: Seq<Seq<char>>,
)
    ensures
        group.absorb(i, p, notices).0 == group.in_state(group.absorb(i, p, notices).0.state),
    decreases group.devices.len() - i, 0int,
{
    if 0 <= i < group.devices.len() && (p.state.is_final() || p.action is None) {
        lemma_start_keeps_the_plan(group, i + 1, notices + final_notices(p));
    }
}

/// Starting a device changes nothing of a group but its state.
pub proof fn lemma_start_keeps_the_plan(group: BackupsView, i: int, notices: Seq<Seq<char>>)
    ensures
        group.start_from(i, notices).0 == group.in_state(group.start_from(i, notices).0.state),
    decreases group.devices.len() - i, 1int,
{
    if 0 <= i < group.devices.len() {
        lemma_absorb_keeps_the_plan(
            group,
            i,
            group.operation(i).after(BackupStateView::Init, EventView::Start),
            notices,
        );
    }
}

/// The event tells of a command that ended well.
pub open spec fn ended_well(event: EventView) -> bool {
    event matches EventView::Finished(Ok(_))
}

/// No step changes what a group is made of: its devices, its options, its
/// date and the errors of its resolution stay, and so does its destination
/// but for the mount state. The mount state changes in two steps only: it
/// becomes the mount path when the mount command has ended well, and
/// nothing when the unmount command has ended well.
pub proof fn law_mount_state_follows_the_commands(group: BackupsView, event: EventView)
    ensures
        ({
            let next = group.after(event).0;
            &&& next.devices == group.devices
            &&& next.dry_run == group.dry_run
            &&& next.date == group.date
            &&& next.failures == group.failures
            &&& {
                ||| next.filesystem == group.filesystem
                ||| group.state is Mounting && ended_well(event) && next.filesystem == group.filesystem.with_mountpoint(
                    Some(group.filesystem.mountpath),
                )
                ||| group.state is Unmounting && ended_well(event) && next.filesystem == group.filesystem.with_mountpoint(None)
            }
        }),
{
    match (group.state, event) {
        (GroupStateView::Init, EventView::Start) => {
            lemma_start_keeps_the_plan(group, 0, seq![]);
        },
        (GroupStateView::Mounting, EventView::Finished(Ok(_))) => {
            lemma_start_keeps_the_plan(
                group.with_filesystem(
                    group.filesystem.with_mountpoint(Some(group.filesystem.mountpath)),
                ),
                0,
                seq!["Filesystem mounted successfully"@],
            );
        },
        (GroupStateView::Running { device, operation }, event) => {
            if device < group.devices.len() {
                lemma_absorb_keeps_the_plan(
                    group,
                    device as int,
                    group.operation(device as int).after(operation, event),
                    seq![],
                );
            }
        },
        _ => {},
    }
}

/// On a mounted destination, taking in an operation's step never ends the
/// group: it asks for an action.
pub proof fn lemma_absorb_goes_on(
    group: BackupsView,
    i: int,
    p: ProgressView,
    notices: Seq<Seq<char>>,
)
    requires
        group.filesystem.blockdevice.mountpoint is Some,
    ensures
        group.absorb(i, p, notices).1.outcome is None,
        group.absorb(i, p, notices).1.action is Some,
        group.absorb(i, p, notices).0.state is Running || group.absorb(
            i,
            p,
            notices,
        ).0.state is Syncing,
    decreases group.devices.len() - i, 0int,
{
    if 0 <= i < group.devices.len() && (p.state.is_final() || p.action is None) {
        lemma_start_goes_on(group, i + 1, notices + final_notices(p));
    }
}

/// On a mounted destination, starting a device never ends the group.
pub proof fn lemma_start_goes_on(group: BackupsView, i: int, notices: Seq<Seq<char>>)
    requires
        group.filesystem.blockdevice.mountpoint is Some,
    ensures
        group.start_from(i, notices).1.outcome is None,
        group.start_from(i, notices).1.action is Some,
        group.start_from(i, notices).0.state is Running || group.start_from(
            i,
            notices,
        ).0.state is Syncing,
    decreases group.devices.len() - i, 1int,
{
    if 0 <= i < group.devices.len() {
        lemma_absorb_goes_on(
            group,
            i,
            group.operation(i).after(BackupStateView::Init, EventView::Start),
            notices,
        );
    }
}

/// No device ends its group. While the destination is mounted and a device
/// has its operation, whatever happens, be it a failure of the operation or
/// an event that nobody asked for, the group goes on: it asks for the next
/// action, of this device, of a later one, or the flush before the unmount.
pub proof fn law_devices_do_not_end_the_group(group: BackupsView, event: EventView)
    requires
        group.state is Running,
        group.filesystem.blockdevice.mountpoint is Some,
    ensures
        group.after(event).1.outcome is None,
        group.after(event).1.action is Some,
        group.after(event).0.state is Running || group.after(event).0.state is Syncing,
{
    let device = group.state->device;
    let operation = group.state->operation;
    if device < group.devices.len() {
        let p = group.operation(device as int).after(operation, event);
        lemma_absorb_goes_on(group, device as int, p, seq![]);
    }
}

/// A group that ends well leaves its destination unmounted.
pub proof fn law_a_group_that_ends_well_is_unmounted(group: BackupsView, event: EventView)
    ensures
        group.after(event).1.outcome == Some(Ok::<(), ErrorView>(())) ==> group.after(
            event,
        ).0.filesystem.blockdevice.mountpoint is None,
{
    match (group.state, event) {
        (GroupStateView::Init, EventView::Start) => {
            lemma_start_never_ends_well(group, 0, seq![]);
        },
        (GroupStateView::Mounting, EventView::Finished(Ok(_))) => {
            lemma_start_never_ends_well(
                group.with_filesystem(
                    group.filesystem.with_mountpoint(Some(group.filesystem.mountpath)),
                ),
                0,
                seq!["Filesystem mounted successfully"@],
            );
        },
        (GroupStateView::Running { device, operation }, event) => {
            if device < group.devices.len() {
                lemma_absorb_never_ends_well(
                    group,
                    device as int,
                    group.operation(device as int).after(operation, event),
                    seq![],
                );
            }
        },
        _ => {},
    }
}

/// Taking in an operation's step never ends a group well: before that the
/// destination has to be unmounted.
proof fn lemma_absorb_never_ends_well(
    group: BackupsView,
    i: int,
    p: ProgressView,
    notices: Seq<Seq<char>>,
)
    ensures
        !(group.absorb(i, p, notices).1.outcome matches Some(Ok(_))),
    decreases group.devices.len() - i, 0int,
{
    if 0 <= i < group.devices.len() && (p.state.is_final() || p.action is None) {
        lemma_start_never_ends_well(group, i + 1, notices + final_notices(p));
    }
}

/// Starting a device never ends a group well.
proof fn lemma_start_never_ends_well(group: BackupsView, i: int, notices: Seq<Seq<char>>)
    ensures
        !(group.start_from(i, notices).1.outcome matches Some(Ok(_))),
    decreases group.devices.len() - i, 1int,
{
    if 0 <= i < group.devices.len() {
        lemma_absorb_never_ends_well(
            group,
            i,
            group.operation(i).after(BackupStateView::Init, EventView::Start),
            notices,
        );
    }
}

/// The group after one more event, whatever the step asks for.
pub open spec fn next(group: BackupsView, event: EventView) -> BackupsView {
    group.after(event).0
}

/// A command has ended well.
pub open spec fn well() -> EventView {
    EventView::Finished(Ok(()))
}

/// A destination that is not mounted, with one device, an empty directory
/// and everything going well: the group mounts, looks for the target file,
/// lists the directory, asks for the free space, copies the device, sets
/// the owner, flushes and unmounts, in this order and each once, and ends
/// well with its destination unmounted. The copy reads the node of the
/// device and writes the target file.
pub proof fn law_one_device_on_an_empty_destination(
    group: BackupsView,
    entries: Seq<BlockDeviceView>,
)
    requires
        group.state is Init,
        group.filesystem.blockdevice.mountpoint is None,
        group.devices.len() == 1,
        !group.dry_run,
        group.devices[0].copies >= 1,
        crate::utils::byte_size(group.devices[0].blockdevice.size) matches Ok(needed)
            && crate::backup::admitted(
            crate::filesystem::free_space(
                crate::lsblk::destinations(entries),
                group.filesystem.blockdevice.uuid,
                0,
            ),
            needed,
        ) is Some,
    ensures
        ({
            let filesystem = group.filesystem.with_mountpoint(Some(group.filesystem.mountpath));
            let operation = group.with_filesystem(filesystem).operation(0);
            let dir = operation.dir()->Some_0;
            let file = operation.file()->Some_0;
            let g1 = next(group, EventView::Start);
            let g2 = next(g1, well());
            let g3 = next(g2, EventView::Probed(false));
            let g4 = next(g3, EventView::Listed(Ok(seq![])));
            let g5 = next(g4, EventView::Inventoried(Ok(entries)));
            let g6 = next(g5, well());
            let g7 = next(g6, well());
            let g8 = next(g7, well());
            &&& group.after(EventView::Start).1.action == Some(
                ActionView::Mount {
                    device: group.filesystem.device_path,
                    path: group.filesystem.mountpath,
                },
            )
            &&& g1.after(well()).1.action == Some(ActionView::Probe { path: file })
            &&& g2.after(EventView::Probed(false)).1.action == Some(ActionView::List { path: dir })
            &&& g3.after(EventView::Listed(Ok(seq![]))).1.action == Some(ActionView::Inventory)
            &&& g4.after(EventView::Inventoried(Ok(entries))).1.action == Some(
                ActionView::Copy { input: group.devices[0].device_path, output: file },
            )
            &&& g5.after(well()).1.action == Some(ActionView::SetOwner { path: file })
            &&& g6.after(well()).1.action == Some(ActionView::Sync)
            &&& g7.after(well()).1.action == Some(
                ActionView::Unmount { path: group.filesystem.mountpath },
            )
            &&& g8.after(well()).1.action is None
            &&& g8.after(well()).1.outcome == Some(Ok::<(), ErrorView>(()))
            &&& next(g8, well()).filesystem.blockdevice.mountpoint is None
            &&& group.after(EventView::Start).1.outcome is None
            &&& g1.after(well()).1.outcome is None
            &&& g2.after(EventView::Probed(false)).1.outcome is None
            &&& g3.after(EventView::Listed(Ok(seq![]))).1.outcome is None
            &&& g4.after(EventView::Inventoried(Ok(entries))).1.outcome is None
            &&& g5.after(well()).1.outcome is None
            &&& g6.after(well()).1.outcome is None
            &&& g7.after(well()).1.outcome is None
        }),
{
    let filesystem = group.filesystem.with_mountpoint(Some(group.filesystem.mountpath));
    let mounted = group.with_filesystem(filesystem);
    let operation = mounted.operation(0);
    let dir = operation.dir()->Some_0;
    let file = operation.file()->Some_0;
    let hello = seq!["Filesystem mounted successfully"@];
    // mount
    let g1 = next(group, EventView::Start);
    assert(g1 == group.in_state(GroupStateView::Mounting));
    // the first device starts
    let started = operation.after(BackupStateView::Init, EventView::Start);
    assert(started.state is CheckingTarget);
    assert(mounted.start_from(0, hello) == mounted.absorb(0, started, hello));
    let g2 = next(g1, well());
    assert(g2 == mounted.in_state(
        GroupStateView::Running { device: 0, operation: BackupStateView::CheckingTarget },
    ));
    // the target file is not there
    let g3 = next(g2, EventView::Probed(false));
    assert(g3 == mounted.in_state(
        GroupStateView::Running { device: 0, operation: BackupStateView::CountingCopies },
    ));
    // the directory is empty
    assert(crate::filesystem::backups_of(seq![], operation.suffix()).len() == 0) by {
        reveal(Seq::filter);
    }
    let g4 = next(g3, EventView::Listed(Ok(seq![])));
    assert(g4 == mounted.in_state(
        GroupStateView::Running { device: 0, operation: BackupStateView::CheckingSpace },
    ));
    // the device fits
    let g5 = next(g4, EventView::Inventoried(Ok(entries)));
    assert(g5 == mounted.in_state(
        GroupStateView::Running { device: 0, operation: BackupStateView::Validated },
    ));
    // the copy is made
    let g6 = next(g5, well());
    assert(g6 == mounted.in_state(
        GroupStateView::Running { device: 0, operation: BackupStateView::Copied },
    ));
    // the owner is set, and no device is left
    let owned = operation.after(BackupStateView::Copied, well());
    assert(owned.state is Done);
    assert(mounted.in_state(g6.state).absorb(0, owned, seq![]) == mounted.in_state(
        g6.state,
    ).start_from(1, seq![] + final_notices(owned)));
    let g7 = next(g6, well());
    assert(g7 == mounted.in_state(GroupStateView::Syncing));
    let g8 = next(g7, well());
    assert(g8 == mounted.in_state(GroupStateView::Unmounting));
}

} // verus!
