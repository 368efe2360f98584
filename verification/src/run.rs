//! A whole run: every configured group in turn. A group whose destination
//! is absent or cannot be mounted is passed over; a destination that cannot
//! be unmounted ends the run.

use vstd::prelude::*;
use crate::args::BackupArgs;
use crate::backups::{
    resolution_failures,
    resolved_devices,
    Advance,
    AdvanceView,
    Backups,
    BackupsView,
    GroupStateView,
};
use crate::config::{BackupConfigView, Config};
use crate::error::{Error, ErrorKind, ErrorView};
use crate::device::table_view;
use crate::filesystem::filesystem_resolution;
use crate::lsblk::{inventory, BlockDeviceView, Lsblk};
use crate::protocol::{ActionView, Event, EventView};
use crate::text::{append_all, concat, lemma_views_push, views};

verus! {

/// The groups of a run and how far the run has come.
#[derive(Debug)]
pub struct Run<'a> {
    /// The groups whose destination is there, in order.
    pub groups: Vec<Backups<'a>>,
    /// Why configured groups are not among them.
    pub failures: Vec<Error>,
    /// The index of the group that is under way.
    pub current: usize,
    /// The run has ended.
    pub ended: bool,
}

/// The mathematical value of a [`Run`].
pub struct RunView {
    pub groups: Seq<BackupsView>,
    pub failures: Seq<ErrorView>,
    pub current: usize,
    pub ended: bool,
}

impl<'a> View for Run<'a> {
    type V = RunView;

    open spec fn view(&self) -> RunView {
        RunView {
            groups: self.groups@.map_values(|g: Backups<'a>| g@),
            failures: self.failures@.map_values(|e: Error| e@),
            current: self.current,
            ended: self.ended,
        }
    }
}

/// What the run knows of the system when it starts.
pub struct Survey {
    /// The candidate sources of the inventory.
    pub devices: Seq<BlockDeviceView>,
    /// The candidate destinations of the inventory.
    pub filesystems: Seq<BlockDeviceView>,
    /// The mount table.
    pub mount_table: Result<Seq<char>, Seq<char>>,
    /// The mount path of the configuration.
    pub mountpath: Option<Seq<char>>,
    /// Whether the run is dry.
    pub dry_run: bool,
    /// The date that file names carry.
    pub date: Seq<char>,
}

/// The group that a configured group resolves to, on a destination that is
/// there.
pub open spec fn planned_group(group: BackupConfigView, survey: Survey) -> Result<
    Option<BackupsView>,
    ErrorView,
> {
    match filesystem_resolution(group.uuid, survey.filesystems, survey.mountpath) {
        Err(e) => Err(e),
        Ok(None) => Ok(None),
        Ok(Some(filesystem)) => Ok(
            Some(
                BackupsView {
                    filesystem,
                    devices: resolved_devices(
                        group.backup_devices,
                        survey.devices,
                        group.destination_path,
                        survey.mount_table,
                    ),
                    dry_run: survey.dry_run,
                    date: survey.date,
                    failures: resolution_failures(
                        group.backup_devices,
                        survey.devices,
                        group.destination_path,
                        survey.mount_table,
                    ),
                    state: GroupStateView::Init,
                },
            ),
        ),
    }
}

/// The groups of a run, in the order of the configuration: those whose
/// destination is there and is not ambiguous.
pub open spec fn planned_groups(groups: Seq<BackupConfigView>, survey: Survey) -> Seq<BackupsView>
    decreases groups.len(),
{
    if groups.len() == 0 {
        seq![]
    } else {
        let before = planned_groups(groups.drop_last(), survey);
        match planned_group(groups.last(), survey) {
            Ok(Some(group)) => before.push(group),
            _ => before,
        }
    }
}

/// The errors of the configured groups whose destination is ambiguous, in
/// order.
pub open spec fn planning_failures(groups: Seq<BackupConfigView>, survey: Survey) -> Seq<ErrorView>
    decreases groups.len(),
{
    if groups.len() == 0 {
        seq![]
    } else {
        let before = planning_failures(groups.drop_last(), survey);
        match planned_group(groups.last(), survey) {
            Err(e) => before.push(e),
            _ => before,
        }
    }
}

/// The line that tells of a group that was passed over.
pub open spec fn passed_over_notice(failure: ErrorView) -> Seq<char> {
    "Skipping destination: "@ + failure.message
}

/// The lines of a group's last step, with the line that tells of a
/// destination that could not be mounted.
pub open spec fn closing_notices(step: AdvanceView) -> Seq<Seq<char>> {
    match step.outcome {
        Some(Err(e)) => step.notices.push(passed_over_notice(e)),
        _ => step.notices,
    }
}

impl RunView {
    /// This run with the group at `i` replaced.
    pub open spec fn with_group(self, i: int, group: BackupsView) -> RunView {
        RunView { groups: self.groups.update(i, group), ..self }
    }

    /// The step in which the run ends.
    pub open spec fn finished(self, notices: Seq<Seq<char>>, outcome: Result<(), ErrorView>) -> (
        RunView,
        AdvanceView,
    ) {
        (
            RunView { ended: true, ..self },
            AdvanceView { action: None, notices, outcome: Some(outcome) },
        )
    }

    /// The step that starts with the group at `i`. After the last group the
    /// run ends well.
    pub open spec fn enter(self, i: int, notices: Seq<Seq<char>>) -> (RunView, AdvanceView)
        decreases self.groups.len() - i, 1int,
    {
        if 0 <= i < self.groups.len() {
            let (group, step) = self.groups[i].after(EventView::Start);
            RunView { current: i as usize, ..self }.with_group(i, group).settle(i, step, notices)
        } else {
            self.finished(notices, Ok(()))
        }
    }

    /// The step that takes in what the group at `i` has come to. A group
    /// that is under way asks for its next action. A group that has ended
    /// makes room for the next one, unless it ended in a failure that ends
    /// the run.
    pub open spec fn settle(self, i: int, step: AdvanceView, notices: Seq<Seq<char>>) -> (
        RunView,
        AdvanceView,
    )
        decreases self.groups.len() - i, 0int,
    {
        if !(0 <= i < self.groups.len()) {
            self.finished(notices, Ok(()))
        } else if step.action is Some && step.outcome is None {
            (self, AdvanceView { action: step.action, notices: notices + step.notices, outcome: None })
        } else {
            match step.outcome {
                Some(Err(e)) => if e.kind == ErrorKind::MountFailure {
                    self.enter(i + 1, notices + closing_notices(step))
                } else {
                    self.finished(notices + step.notices, Err(e))
                },
                _ => self.enter(i + 1, notices + step.notices),
            }
        }
    }

    /// The step that the run takes on `event`: the event goes to the group
    /// that is under way, and the first event starts the first group.
    pub open spec fn after(self, event: EventView) -> (RunView, AdvanceView) {
        if self.ended {
            (self, AdvanceView { action: None, notices: seq![], outcome: None })
        } else if self.current < self.groups.len() {
            let i = self.current as int;
            let (group, step) = self.groups[i].after(event);
            self.with_group(i, group).settle(i, step, seq![])
        } else {
            self.finished(seq![], Ok(()))
        }
    }
}

/// The view of the way a run ended.
pub open spec fn run_outcome(outcome: Result<(), Error>) -> Result<(), ErrorView> {
    match outcome {
        Ok(_) => Ok(()),
        Err(e) => Err(e@),
    }
}

impl<'a> Run<'a> {
    /// What a run knows of the system when it starts.
    pub open spec fn survey(
        lsblk: Lsblk,
        backup_args: BackupArgs,
        config: Config,
        mount_table: Result<Seq<char>, Seq<char>>,
        date: Seq<char>,
    ) -> Survey {
        Survey {
            devices: inventory(lsblk.available_devices@),
            filesystems: inventory(lsblk.available_filesystems@),
            mount_table,
            mountpath: config@.mountpath,
            dry_run: backup_args.dry_run,
            date,
        }
    }

    /// Plans a run: resolves every configured group against the inventory
    /// and the mount table. Groups whose destination is absent are left
    /// out; the errors of those whose destination is ambiguous are kept for
    /// the operator.
    pub fn new(
        backup_args: &'a BackupArgs,
        config: &Config,
        lsblk: &Lsblk,
        mount_table: &Result<String, String>,
        date: &str,
    ) -> (r: Run<'a>)
        ensures
            r@ == (RunView {
                groups: planned_groups(
                    config@.backups,
                    Self::survey(*lsblk, *backup_args, *config, table_view(*mount_table), date@),
                ),
                failures: planning_failures(
                    config@.backups,
                    Self::survey(*lsblk, *backup_args, *config, table_view(*mount_table), date@),
                ),
                current: 0,
                ended: false,
            }),
    {
        let ghost survey = Self::survey(*lsblk, *backup_args, *config, table_view(*mount_table), date@);
        let ghost all = config@.backups;
        let mut groups: Vec<Backups<'a>> = Vec::new();
        let mut failures: Vec<Error> = Vec::new();
        let mut i: usize = 0;
        assert(all.take(0).len() == 0);
        while i < config.backups.len()
            invariant
                i <= config.backups.len(),
                all == config@.backups,
                survey == Self::survey(*lsblk, *backup_args, *config, table_view(*mount_table), date@),
                groups@.map_values(|g: Backups<'a>| g@) == planned_groups(all.take(i as int), survey),
                failures@.map_values(|e: Error| e@) == planning_failures(
                    all.take(i as int),
                    survey,
                ),
            decreases config.backups.len() - i,
        {
            proof {
                assert(all.take(i + 1).drop_last() == all.take(i as int));
                assert(all.take(i + 1).last() == config.backups@[i as int]@);
            }
            let ghost groups_before = groups@.map_values(|g: Backups<'a>| g@);
            let ghost failures_before = failures@.map_values(|e: Error| e@);
            let mut stamp = String::new();
            crate::text::push_text(&mut stamp, date);
            assert(stamp@ =~= date@);
            match Backups::new(&config.backups[i], lsblk, backup_args, config, mount_table, stamp) {
                Ok(Some(group)) => {
                    groups.push(group);
                    assert(groups@.map_values(|g: Backups<'a>| g@) =~= groups_before.push(group@));
                },
                Ok(None) => {},
                Err(e) => {
                    failures.push(e);
                    assert(failures@.map_values(|e: Error| e@) =~= failures_before.push(e@));
                },
            }
            i += 1;
        }
        assert(all.take(i as int) == all);
        Run { groups, failures, current: 0, ended: false }
    }

    /// The step in which the run ends.
    fn finished(&mut self, notices: Vec<String>, outcome: Result<(), Error>) -> (r: Advance)
        ensures
            (final(self)@, r@) == old(self)@.finished(views(notices@), run_outcome(outcome)),
    {
        self.ended = true;
        Advance { action: None, notices, outcome: Some(outcome) }
    }

    /// The step that starts with the group at `i`.
    fn enter(&mut self, i: usize, notices: Vec<String>) -> (r: Advance)
        ensures
            (final(self)@, r@) == old(self)@.enter(i as int, views(notices@)),
        decreases old(self).groups.len() - i, 1int,
    {
        if i < self.groups.len() {
            self.current = i;
            let step = self.groups[i].run(Event::Start);
            assert(self@.groups =~= old(self)@.groups.update(i as int, self.groups@[i as int]@));
            self.settle(i, step, notices)
        } else {
            self.finished(notices, Ok(()))
        }
    }

    /// The step that takes in what the group at `i` has come to.
    fn settle(&mut self, i: usize, step: Advance, notices: Vec<String>) -> (r: Advance)
        ensures
            (final(self)@, r@) == old(self)@.settle(i as int, step@, views(notices@)),
        decreases old(self).groups.len() - i, 0int,
    {
        if i >= self.groups.len() {
            return self.finished(notices, Ok(()));
        }
        let ghost given = views(notices@);
        let ghost taken = step@;
        let Advance { action, notices: lines, outcome } = step;
        let mut notices = notices;
        append_all(&mut notices, lines);
        match outcome {
            None => match action {
                Some(action) => Advance { action: Some(action), notices, outcome: None },
                None => self.enter(i + 1, notices),
            },
            Some(Ok(_)) => self.enter(i + 1, notices),
            Some(Err(e)) => {
                if e.kind == ErrorKind::MountFailure {
                    let line = concat("Skipping destination: ", e.message.as_str());
                    proof {
                        lemma_views_push(notices@, line);
                    }
                    notices.push(line);
                    assert(views(notices@) =~= given + closing_notices(taken));
                    self.enter(i + 1, notices)
                } else {
                    self.finished(notices, Err(e))
                }
            },
        }
    }
}

/// Takes the run one step on: what has happened goes in, what is to be done
/// next comes out. The first event of a run is `Event::Start`; the run has
/// ended when a step comes with an outcome.
pub fn run<'a>(plan: &mut Run<'a>, event: Event) -> (r: Advance)
    ensures
        (final(plan)@, r@) == old(plan)@.after(event@),
{
    if plan.ended {
        let notices: Vec<String> = Vec::new();
        assert(views(notices@) =~= Seq::<Seq<char>>::empty());
        Advance { action: None, notices, outcome: None }
    } else if plan.current < plan.groups.len() {
        let i = plan.current;
        let step = plan.groups[i].run(event);
        assert(plan@.groups =~= old(plan)@.groups.update(i as int, plan.groups@[i as int]@));
        let notices: Vec<String> = Vec::new();
        assert(views(notices@) =~= Seq::<Seq<char>>::empty());
        plan.settle(i, step, notices)
    } else {
        let notices: Vec<String> = Vec::new();
        assert(views(notices@) =~= Seq::<Seq<char>>::empty());
        plan.finished(notices, Ok(()))
    }
}


/// Taking in a group's step never ends the run with the failure of a mount.
proof fn lemma_settle_passes_mount_failures(
    run: RunView,
    i: int,
    step: AdvanceView,
    notices: Seq<Seq<char>>,
)
    ensures
        run.settle(i, step, notices).1.outcome matches Some(Err(e)) ==> e.kind
            != ErrorKind::MountFailure,
    decreases run.groups.len() - i, 0int,
{
    if 0 <= i < run.groups.len() && !(step.action is Some && step.outcome is None) {
        match step.outcome {
            Some(Err(e)) => {
                if e.kind == ErrorKind::MountFailure {
                    lemma_enter_passes_mount_failures(run, i + 1, notices + closing_notices(step));
                }
            },
            _ => {
                lemma_enter_passes_mount_failures(run, i + 1, notices + step.notices);
            },
        }
    }
}

/// Starting a group never ends the run with the failure of a mount.
proof fn lemma_enter_passes_mount_failures(run: RunView, i: int, notices: Seq<Seq<char>>)
    ensures
        run.enter(i, notices).1.outcome matches Some(Err(e)) ==> e.kind != ErrorKind::MountFailure,
    decreases run.groups.len() - i, 1int,
{
    if 0 <= i < run.groups.len() {
        let (group, step) = run.groups[i].after(EventView::Start);
        lemma_settle_passes_mount_failures(
            RunView { current: i as usize, ..run }.with_group(i, group),
            i,
            step,
            notices,
        );
    }
}

/// A destination that cannot be mounted does not end the run: no step of a
/// run ends it with the failure of a mount.
pub proof fn law_mount_failures_do_not_end_the_run(run: RunView, event: EventView)
    ensures
        run.after(event).1.outcome matches Some(Err(e)) ==> e.kind != ErrorKind::MountFailure,
{
    if !run.ended && run.current < run.groups.len() {
        let i = run.current as int;
        let (group, step) = run.groups[i].after(event);
        lemma_settle_passes_mount_failures(run.with_group(i, group), i, step, seq![]);
    }
}

/// The lines that tell of a failure can be told from the others: the line
/// of a device whose backup did not end well and the line of a destination
/// that was passed over are such lines, and the lines that tell of a mount,
/// an unmount, a removal, a dry run or an unknown size are not.
pub proof fn law_failure_lines_are_told_apart(
    failure: ErrorView,
    path: Seq<char>,
    input: Seq<char>,
    output: Seq<char>,
)
    ensures
        crate::protocol::tells_of_failure(crate::backups::failure_notice(failure)),
        crate::protocol::tells_of_failure(passed_over_notice(failure)),
        !crate::protocol::tells_of_failure("Filesystem mounted successfully"@),
        !crate::protocol::tells_of_failure("Filesystem unmounted successfully"@),
        !crate::protocol::tells_of_failure(crate::backup::removal_notice(path)),
        !crate::protocol::tells_of_failure(crate::backup::unverified_notice()),
        !crate::protocol::tells_of_failure(crate::backup::dry_run_notice(input, output)),
{
    reveal_strlit("Error performing backup: ");
    reveal_strlit("Skipping destination: ");
    reveal_strlit("Filesystem mounted successfully");
    reveal_strlit("Filesystem unmounted successfully");
    reveal_strlit("Removing old back up file: ");
    reveal_strlit("Could not check if sufficient space is available");
    reveal_strlit("[Dry-Run] backup would run with command: ");
    let error = "Error performing backup: "@;
    let skip = "Skipping destination: "@;
    assert((error + failure.message).take(error.len() as int) =~= error);
    assert((skip + failure.message).take(skip.len() as int) =~= skip);
    let others = seq![
        "Filesystem mounted successfully"@,
        "Filesystem unmounted successfully"@,
        crate::backup::removal_notice(path),
        crate::backup::unverified_notice(),
        crate::backup::dry_run_notice(input, output),
    ];
    assert forall|i: int| 0 <= i < others.len() implies !crate::protocol::tells_of_failure(
        #[trigger] others[i],
    ) by {
        let line = others[i];
        assert(line.len() > 0);
        assert(line[0] != 'E' && line[0] != 'S');
        if crate::protocol::begins_with(line, error) {
            assert(line.take(error.len() as int)[0] == error[0]);
        }
        if crate::protocol::begins_with(line, skip) {
            assert(line.take(skip.len() as int)[0] == skip[0]);
        }
    }
    assert(others[0] == "Filesystem mounted successfully"@);
    assert(others[1] == "Filesystem unmounted successfully"@);
    assert(others[2] == crate::backup::removal_notice(path));
    assert(others[3] == crate::backup::unverified_notice());
    assert(others[4] == crate::backup::dry_run_notice(input, output));
}

/// A run of one group, at its start.
pub open spec fn alone(group: BackupsView, failures: Seq<ErrorView>) -> RunView {
    RunView { groups: seq![group], failures, current: 0, ended: false }
}

/// The run after one more event, whatever the step asks for.
pub open spec fn next_run(run: RunView, event: EventView) -> RunView {
    run.after(event).0
}

/// A run of one group goes as the group goes: while the group asks for an
/// action, the run asks for it; when the group ends well, the run ends
/// well.
pub proof fn lemma_a_group_alone(group: BackupsView, failures: Seq<ErrorView>, event: EventView)
    ensures
        ({
            let inner = group.after(event);
            let outer = alone(group, failures).after(event);
            &&& inner.1.action is Some && inner.1.outcome is None ==> outer.0 == alone(
                inner.0,
                failures,
            ) && outer.1.action == inner.1.action && outer.1.outcome is None
            &&& inner.1.outcome == Some(Ok::<(), ErrorView>(())) ==> outer.0.ended
                && outer.1.action is None && outer.1.outcome == Some(Ok::<(), ErrorView>(()))
        }),
{
    let run = alone(group, failures);
    let inner = group.after(event);
    assert(run.groups[0] == group);
    let held = run.with_group(0, inner.0);
    assert(held.groups =~= seq![inner.0]);
    assert(held == alone(inner.0, failures));
    if inner.1.outcome == Some(Ok::<(), ErrorView>(())) {
        assert(held.settle(0, inner.1, seq![]) == held.enter(1, seq![] + inner.1.notices));
    }
}

/// The course of a run whose one group has one device, with an empty
/// directory, room enough and every command going well: the run mounts the
/// destination, looks for the target file, lists the directory, asks for
/// the free space, copies the node of the device into the target file, sets
/// the owner, flushes and unmounts, each once and in this order, and ends
/// well.
pub open spec fn runs_its_course(run: RunView, group: BackupsView, fresh: Seq<BlockDeviceView>) -> bool {
    let mountpath = group.filesystem.mountpath;
    let mounted = group.with_filesystem(group.filesystem.with_mountpoint(Some(mountpath)));
    let dir = mounted.operation(0).dir()->Some_0;
    let file = mounted.operation(0).file()->Some_0;
    let well = crate::backups::well();
    let r1 = next_run(run, EventView::Start);
    let r2 = next_run(r1, well);
    let r3 = next_run(r2, EventView::Probed(false));
    let r4 = next_run(r3, EventView::Listed(Ok(seq![])));
    let r5 = next_run(r4, EventView::Inventoried(Ok(fresh)));
    let r6 = next_run(r5, well);
    let r7 = next_run(r6, well);
    let r8 = next_run(r7, well);
    &&& run.after(EventView::Start).1.action == Some(
        ActionView::Mount { device: group.filesystem.device_path, path: mountpath },
    )
    &&& r1.after(well).1.action == Some(ActionView::Probe { path: file })
    &&& r2.after(EventView::Probed(false)).1.action == Some(ActionView::List { path: dir })
    &&& r3.after(EventView::Listed(Ok(seq![]))).1.action == Some(ActionView::Inventory)
    &&& r4.after(EventView::Inventoried(Ok(fresh))).1.action == Some(
        ActionView::Copy { input: group.devices[0].device_path, output: file },
    )
    &&& r5.after(well).1.action == Some(ActionView::SetOwner { path: file })
    &&& r6.after(well).1.action == Some(ActionView::Sync)
    &&& r7.after(well).1.action == Some(ActionView::Unmount { path: mountpath })
    &&& r8.after(well).1.action is None
    &&& r8.after(well).1.outcome == Some(Ok::<(), ErrorView>(()))
    &&& next_run(r8, well).ended
    &&& run.after(EventView::Start).1.outcome is None
    &&& r1.after(well).1.outcome is None
    &&& r2.after(EventView::Probed(false)).1.outcome is None
    &&& r3.after(EventView::Listed(Ok(seq![]))).1.outcome is None
    &&& r4.after(EventView::Inventoried(Ok(fresh))).1.outcome is None
    &&& r5.after(well).1.outcome is None
    &&& r6.after(well).1.outcome is None
    &&& r7.after(well).1.outcome is None
}

/// A run of one group with one device, on a destination that is not
/// mounted, runs its course where the directory is empty, the device fits
/// and every command goes well.
pub proof fn law_a_run_of_one_device(
    group: BackupsView,
    failures: Seq<ErrorView>,
    fresh: Seq<BlockDeviceView>,
)
    requires
        group.state is Init,
        group.filesystem.blockdevice.mountpoint is None,
        group.devices.len() == 1,
        !group.dry_run,
        group.devices[0].copies >= 1,
        crate::utils::byte_size(group.devices[0].blockdevice.size) matches Ok(needed)
            && crate::backup::admitted(
            crate::filesystem::free_space(
                crate::lsblk::destinations(fresh),
                group.filesystem.blockdevice.uuid,
                0,
            ),
            needed,
        ) is Some,
    ensures
        runs_its_course(alone(group, failures), group, fresh),
{
    crate::backups::law_one_device_on_an_empty_destination(group, fresh);
    let well = crate::backups::well();
    let g1 = crate::backups::next(group, EventView::Start);
    let g2 = crate::backups::next(g1, well);
    let g3 = crate::backups::next(g2, EventView::Probed(false));
    let g4 = crate::backups::next(g3, EventView::Listed(Ok(seq![])));
    let g5 = crate::backups::next(g4, EventView::Inventoried(Ok(fresh)));
    let g6 = crate::backups::next(g5, well);
    let g7 = crate::backups::next(g6, well);
    let g8 = crate::backups::next(g7, well);
    lemma_a_group_alone(group, failures, EventView::Start);
    lemma_a_group_alone(g1, failures, well);
    lemma_a_group_alone(g2, failures, EventView::Probed(false));
    lemma_a_group_alone(g3, failures, EventView::Listed(Ok(seq![])));
    lemma_a_group_alone(g4, failures, EventView::Inventoried(Ok(fresh)));
    lemma_a_group_alone(g5, failures, well);
    lemma_a_group_alone(g6, failures, well);
    lemma_a_group_alone(g7, failures, well);
    lemma_a_group_alone(g8, failures, well);
}

/// What comes of planning one configured group of which the source at
/// `which` alone resolves, to the entry at `source`, and of which the
/// others leave the errors `failures`.
pub open spec fn planned_alone(
    configured: BackupConfigView,
    survey: Survey,
    destination: int,
    which: int,
    source: int,
    failures: Seq<ErrorView>,
) -> BackupsView {
    BackupsView {
        filesystem: crate::filesystem::bound_filesystem(
            survey.filesystems[destination],
            survey.mountpath,
        ),
        devices: seq![
            crate::device::bound_device(
                survey.devices[source],
                configured.backup_devices[which],
                configured.destination_path,
            ),
        ],
        dry_run: survey.dry_run,
        date: survey.date,
        failures,
        state: GroupStateView::Init,
    }
}

/// The destination of a configured group is there, once, and not mounted.
pub open spec fn destination_is_ready(configured: BackupConfigView, survey: Survey, destination: int) -> bool {
    &&& 0 <= destination < survey.filesystems.len()
    &&& survey.filesystems[destination].uuid == Some(configured.uuid)
    &&& forall|j: int|
        0 <= j < survey.filesystems.len() && j != destination ==> (
        #[trigger] survey.filesystems[j]).uuid != Some(configured.uuid)
    &&& survey.filesystems[destination].mountpoint is None
}

/// The configured source at `which` is there, once, at the entry `source`,
/// is not mounted, keeps a copy at least, and fits into the free space that
/// the fresh inventory tells of the destination.
pub open spec fn source_is_ready(
    configured: BackupConfigView,
    survey: Survey,
    which: int,
    source: int,
    fresh: Seq<BlockDeviceView>,
) -> bool {
    &&& 0 <= which < configured.backup_devices.len()
    &&& 0 <= source < survey.devices.len()
    &&& survey.devices[source].serial == Some(configured.backup_devices[which].serial)
    &&& forall|j: int|
        0 <= j < survey.devices.len() && j != source ==> (#[trigger] survey.devices[j]).serial
            != Some(configured.backup_devices[which].serial)
    &&& survey.mount_table matches Ok(table) && !crate::device::mounted(
        table,
        crate::device::node_path(survey.devices[source].name),
    )
    &&& configured.backup_devices[which].copies != Some(0usize)
    &&& crate::utils::byte_size(survey.devices[source].size) matches Ok(needed)
        && crate::backup::admitted(
        crate::filesystem::free_space(
            crate::lsblk::destinations(fresh),
            Some(configured.uuid),
            0,
        ),
        needed,
    ) is Some
}

/// One device is backed up to an empty destination. One destination, which
/// one entry carries and which is not mounted, and one device, whose serial
/// one entry carries and which the mount table does not name: the plan
/// holds the device, and the run runs its course. The copy reads the node
/// of the device; the target file carries the date, the name, the model and
/// the serial.
pub proof fn law_one_device_is_backed_up(
    configured: BackupConfigView,
    survey: Survey,
    destination: int,
    source: int,
    fresh: Seq<BlockDeviceView>,
)
    requires
        configured.backup_devices.len() == 1,
        destination_is_ready(configured, survey, destination),
        source_is_ready(configured, survey, 0, source, fresh),
        !survey.dry_run,
    ensures
        ({
            let group = planned_alone(configured, survey, destination, 0, source, seq![]);
            &&& planned_groups(seq![configured], survey) == seq![group]
            &&& planning_failures(seq![configured], survey).len() == 0
            &&& runs_its_course(alone(group, seq![]), group, fresh)
            &&& group.filesystem.device_path == crate::device::node_path(
                survey.filesystems[destination].name,
            )
            &&& group.devices[0].device_path == crate::device::node_path(
                survey.devices[source].name,
            )
            &&& group.operation(0).file_name() == crate::backup::backup_file_name(
                survey.date,
                group.devices[0].name,
                survey.devices[source].model,
                survey.devices[source].serial,
            )
        }),
{
    let group = planned_alone(configured, survey, destination, 0, source, seq![]);
    let sources = configured.backup_devices;
    crate::filesystem::law_unique_uuid_resolves(
        configured.uuid,
        survey.filesystems,
        survey.mountpath,
        destination,
    );
    let table = survey.mount_table->Ok_0;
    crate::device::law_unique_serial_resolves(
        sources[0],
        survey.devices,
        configured.destination_path,
        table,
        source,
    );
    assert(survey.mount_table == Ok::<Seq<char>, Seq<char>>(table));
    assert(sources.drop_last().len() == 0 && sources.last() == sources[0]);
    assert(resolved_devices(
        sources.drop_last(),
        survey.devices,
        configured.destination_path,
        survey.mount_table,
    ) =~= seq![]);
    assert(resolved_devices(
        sources,
        survey.devices,
        configured.destination_path,
        survey.mount_table,
    ) =~= group.devices);
    assert(resolution_failures(
        sources.drop_last(),
        survey.devices,
        configured.destination_path,
        survey.mount_table,
    ) =~= seq![]);
    assert(resolution_failures(
        sources,
        survey.devices,
        configured.destination_path,
        survey.mount_table,
    ) =~= group.failures);
    assert(planned_group(configured, survey) == Ok::<Option<BackupsView>, ErrorView>(Some(group)));
    let all = seq![configured];
    assert(all.drop_last().len() == 0 && all.last() == configured);
    assert(planned_groups(all.drop_last(), survey) =~= seq![]);
    assert(planned_groups(all, survey) =~= seq![group]);
    assert(planning_failures(all.drop_last(), survey) =~= seq![]);
    law_a_run_of_one_device(group, seq![], fresh);
}

/// An ambiguous device does not stop the next. One destination, which one
/// entry carries and which is not mounted, and two devices: the serial of
/// the first is carried by two entries, that of the second by one entry,
/// which the mount table does not name. Then the plan holds the second
/// device alone and keeps the error of the first, and the run runs its
/// course with the second device: it copies the node of that device, once,
/// between one mount and one unmount, and ends well.
pub proof fn law_an_ambiguous_device_does_not_stop_the_next(
    configured: BackupConfigView,
    survey: Survey,
    destination: int,
    first: int,
    again: int,
    source: int,
    fresh: Seq<BlockDeviceView>,
)
    requires
        configured.backup_devices.len() == 2,
        destination_is_ready(configured, survey, destination),
        0 <= first < again < survey.devices.len(),
        survey.devices[first].serial == Some(configured.backup_devices[0].serial),
        survey.devices[again].serial == Some(configured.backup_devices[0].serial),
        source_is_ready(configured, survey, 1, source, fresh),
        !survey.dry_run,
    ensures
        ({
            let failures = seq![
                crate::device::ambiguous_serial(configured.backup_devices[0].serial),
            ];
            let group = planned_alone(configured, survey, destination, 1, source, failures);
            &&& planned_groups(seq![configured], survey) == seq![group]
            &&& planning_failures(seq![configured], survey).len() == 0
            &&& runs_its_course(alone(group, seq![]), group, fresh)
            &&& group.failures[0].kind == ErrorKind::NonUniqueIdentifier
            &&& group.filesystem.device_path == crate::device::node_path(
                survey.filesystems[destination].name,
            )
            &&& group.devices[0].device_path == crate::device::node_path(
                survey.devices[source].name,
            )
        }),
{
    let failures = seq![crate::device::ambiguous_serial(configured.backup_devices[0].serial)];
    let group = planned_alone(configured, survey, destination, 1, source, failures);
    let sources = configured.backup_devices;
    crate::filesystem::law_unique_uuid_resolves(
        configured.uuid,
        survey.filesystems,
        survey.mountpath,
        destination,
    );
    let table = survey.mount_table->Ok_0;
    crate::device::law_shared_serial_fails(
        sources[0],
        survey.devices,
        configured.destination_path,
        table,
        first,
        again,
    );
    crate::device::law_unique_serial_resolves(
        sources[1],
        survey.devices,
        configured.destination_path,
        table,
        source,
    );
    assert(survey.mount_table == Ok::<Seq<char>, Seq<char>>(table));
    let one = sources.drop_last();
    assert(one.len() == 1 && one.last() == sources[0] && sources.last() == sources[1]);
    assert(one.drop_last().len() == 0);
    assert(resolved_devices(
        one.drop_last(),
        survey.devices,
        configured.destination_path,
        survey.mount_table,
    ) =~= seq![]);
    assert(resolved_devices(one, survey.devices, configured.destination_path, survey.mount_table)
        =~= seq![]);
    assert(resolved_devices(
        sources,
        survey.devices,
        configured.destination_path,
        survey.mount_table,
    ) =~= group.devices);
    assert(resolution_failures(
        one.drop_last(),
        survey.devices,
        configured.destination_path,
        survey.mount_table,
    ) =~= seq![]);
    assert(resolution_failures(
        one,
        survey.devices,
        configured.destination_path,
        survey.mount_table,
    ) =~= group.failures);
    assert(resolution_failures(
        sources,
        survey.devices,
        configured.destination_path,
        survey.mount_table,
    ) =~= group.failures);
    assert(planned_group(configured, survey) == Ok::<Option<BackupsView>, ErrorView>(Some(group)));
    let all = seq![configured];
    assert(all.drop_last().len() == 0 && all.last() == configured);
    assert(planned_groups(all.drop_last(), survey) =~= seq![]);
    assert(planned_groups(all, survey) =~= seq![group]);
    assert(planning_failures(all.drop_last(), survey) =~= seq![]);
    law_a_run_of_one_device(group, seq![], fresh);
}

/// A backup of today is not written over, and the run goes on. Where the
/// target file of the one device of the one group exists, nothing is
/// listed, removed or copied: the operation is left out with the error of a
/// file that is there already, the line that tells of it is handed out, and
/// the run flushes, unmounts and ends well.
pub proof fn law_a_backup_of_today_is_not_written_over(group: BackupsView, failures: Seq<ErrorView>)
    requires
        group.state is Init,
        group.filesystem.blockdevice.mountpoint is None,
        group.devices.len() == 1,
    ensures
        ({
            let mountpath = group.filesystem.mountpath;
            let mounted = group.with_filesystem(group.filesystem.with_mountpoint(Some(mountpath)));
            let file = mounted.operation(0).file()->Some_0;
            let well = crate::backups::well();
            let run = alone(group, failures);
            let r1 = next_run(run, EventView::Start);
            let r2 = next_run(r1, well);
            let r3 = next_run(r2, EventView::Probed(true));
            let r4 = next_run(r3, well);
            &&& run.after(EventView::Start).1.action == Some(
                ActionView::Mount { device: group.filesystem.device_path, path: mountpath },
            )
            &&& r1.after(well).1.action == Some(ActionView::Probe { path: file })
            &&& r2.after(EventView::Probed(true)).1.action == Some(ActionView::Sync)
            &&& r2.after(EventView::Probed(true)).1.notices == seq![
                crate::backups::failure_notice(crate::backup::already_present(file)),
            ]
            &&& crate::backup::already_present(file).kind == ErrorKind::AlreadyPresent
            &&& r2.after(EventView::Probed(true)).1.outcome is None
            &&& r3.after(well).1.action == Some(ActionView::Unmount { path: mountpath })
            &&& r4.after(well).1.action is None
            &&& r4.after(well).1.outcome == Some(Ok::<(), ErrorView>(()))
        }),
{
    let mountpath = group.filesystem.mountpath;
    let mounted = group.with_filesystem(group.filesystem.with_mountpoint(Some(mountpath)));
    let operation = mounted.operation(0);
    let file = operation.file()->Some_0;
    let well = crate::backups::well();
    let hello = seq!["Filesystem mounted successfully"@];
    let g1 = crate::backups::next(group, EventView::Start);
    assert(g1 == group.in_state(GroupStateView::Mounting));
    let started = operation.after(crate::backup::BackupStateView::Init, EventView::Start);
    assert(started.state is CheckingTarget);
    assert(mounted.start_from(0, hello) == mounted.absorb(0, started, hello));
    let g2 = crate::backups::next(g1, well);
    assert(g2 == mounted.in_state(
        GroupStateView::Running {
            device: 0,
            operation: crate::backup::BackupStateView::CheckingTarget,
        },
    ));
    let probed = operation.after(crate::backup::BackupStateView::CheckingTarget, EventView::Probed(true));
    assert(probed.state is Skipped);
    assert(probed.failure == Some(crate::backup::already_present(file)));
    let lines = Seq::<Seq<char>>::empty() + crate::backups::final_notices(probed);
    assert(lines =~= seq![crate::backups::failure_notice(crate::backup::already_present(file))]);
    assert(g2.absorb(0, probed, seq![]) == g2.start_from(1, lines));
    let g3 = crate::backups::next(g2, EventView::Probed(true));
    assert(g3 == mounted.in_state(GroupStateView::Syncing));
    let g4 = crate::backups::next(g3, well);
    assert(g4 == mounted.in_state(GroupStateView::Unmounting));
    lemma_a_group_alone(group, failures, EventView::Start);
    lemma_a_group_alone(g1, failures, well);
    lemma_a_group_alone(g2, failures, EventView::Probed(true));
    lemma_a_group_alone(g3, failures, well);
    lemma_a_group_alone(g4, failures, well);
    assert(Seq::<Seq<char>>::empty() + g2.after(EventView::Probed(true)).1.notices =~= lines);
}

} // verus!
