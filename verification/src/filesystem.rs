//! The filesystem resolver and what a destination filesystem knows: its
//! mount state, the backups it holds of a device, and which of them goes
//! first when room has to be made.

use vstd::prelude::*;
use crate::device::{node_path, text_or};
use crate::error::{Error, ErrorKind, ErrorView};
use crate::lsblk::{inventory, lookup, matching, BlockDevice, BlockDeviceView, Key, Lookup, Lsblk};
use crate::text::{concat, concat3, contains, contains_text, opt_view, same_text};
use crate::utils::{byte_size, convert_to_byte_size};

verus! {

/// A destination filesystem bound to its entry in the inventory.
#[derive(Debug)]
pub struct Filesystem {
    /// The entry of the inventory; its mount point is the live mount state.
    pub blockdevice: BlockDevice,
    /// The path of the device node.
    pub device_path: String,
    /// Where the filesystem is mounted by this library.
    pub mountpath: String,
    /// The free space in bytes, where the inventory told it.
    pub fsavail: Option<u64>,
}

/// The mathematical value of a [`Filesystem`].
pub struct FilesystemView {
    pub blockdevice: BlockDeviceView,
    pub device_path: Seq<char>,
    pub mountpath: Seq<char>,
    pub fsavail: Option<u64>,
}

impl View for Filesystem {
    type V = FilesystemView;

    open spec fn view(&self) -> FilesystemView {
        FilesystemView {
            blockdevice: self.blockdevice@,
            device_path: self.device_path@,
            mountpath: self.mountpath@,
            fsavail: self.fsavail,
        }
    }
}

impl FilesystemView {
    /// This filesystem with another mount state.
    pub open spec fn with_mountpoint(self, mountpoint: Option<Seq<char>>) -> FilesystemView {
        FilesystemView {
            blockdevice: BlockDeviceView { mountpoint, ..self.blockdevice },
            ..self
        }
    }
}

/// One entry of a directory: its name and when it was created, counted from
/// the epoch, where that could be read.
#[derive(Debug)]
pub struct BackupFile {
    pub name: String,
    pub created: Option<u64>,
}

/// The mathematical value of a [`BackupFile`].
pub struct BackupFileView {
    pub name: Seq<char>,
    pub created: Option<u64>,
}

impl View for BackupFile {
    type V = BackupFileView;

    open spec fn view(&self) -> BackupFileView {
        BackupFileView { name: self.name@, created: self.created }
    }
}

/// The values of a directory listing, in order.
pub open spec fn listed(files: Seq<BackupFile>) -> Seq<BackupFileView> {
    files.map_values(|f: BackupFile| f@)
}

/// The number of bytes that an optional size string tells; a string that
/// cannot be read tells none.
pub open spec fn known_size(text: Option<Seq<char>>) -> Option<u64> {
    match text {
        Some(t) => match byte_size(t) {
            Ok(size) => size,
            Err(_) => None,
        },
        None => None,
    }
}

/// The filesystem that binds a destination to `entry`.
pub open spec fn bound_filesystem(entry: BlockDeviceView, mountpath: Option<Seq<char>>) -> FilesystemView {
    FilesystemView {
        blockdevice: entry,
        device_path: node_path(entry.name),
        mountpath: text_or(mountpath, "/mnt"@),
        fsavail: known_size(entry.fsavail),
    }
}

/// The error for a uuid that several entries carry.
pub open spec fn ambiguous_uuid(uuid: Seq<char>) -> ErrorView {
    ErrorView { kind: ErrorKind::NonUniqueIdentifier, message: "Not a unique UUID: "@ + uuid }
}

/// What resolving a destination gives: the filesystem, nothing where no
/// entry carries the uuid, or the error of an ambiguous uuid.
pub open spec fn filesystem_resolution(
    uuid: Seq<char>,
    entries: Seq<BlockDeviceView>,
    mountpath: Option<Seq<char>>,
) -> Result<Option<FilesystemView>, ErrorView> {
    let found = matching(entries, Key::Uuid, uuid);
    if found.len() == 0 {
        Ok(None)
    } else if found.len() >= 2 {
        Err(ambiguous_uuid(uuid))
    } else {
        Ok(Some(bound_filesystem(found[0], mountpath)))
    }
}

/// The view of a result of resolution.
pub open spec fn resolved_filesystem(r: Result<Option<Filesystem>, Error>) -> Result<
    Option<FilesystemView>,
    ErrorView,
> {
    match r {
        Ok(Some(f)) => Ok(Some(f@)),
        Ok(None) => Ok(None),
        Err(e) => Err(e@),
    }
}

/// The file is a backup of the device with the stable suffix `suffix`.
pub open spec fn is_backup_of(file: BackupFileView, suffix: Seq<char>) -> bool {
    contains(file.name, suffix)
}

/// The backups of one device in a listing, in order.
pub open spec fn backups_of(files: Seq<BackupFileView>, suffix: Seq<char>) -> Seq<BackupFileView> {
    files.filter(|f: BackupFileView| is_backup_of(f, suffix))
}

/// The moment by which a file is ordered: its creation, or the epoch where
/// that is unknown.
pub open spec fn age(file: BackupFileView) -> u64 {
    match file.created {
        Some(t) => t,
        None => 0,
    }
}

/// The file at `k` is the backup that goes first: no backup of the device is
/// older, and none before it in the listing is as old.
pub open spec fn is_oldest(files: Seq<BackupFileView>, suffix: Seq<char>, k: int) -> bool {
    &&& 0 <= k < files.len()
    &&& is_backup_of(files[k], suffix)
    &&& forall|j: int|
        0 <= j < files.len() && is_backup_of(#[trigger] files[j], suffix) ==> age(files[k]) <= age(
            files[j],
        )
    &&& forall|j: int|
        0 <= j < k && is_backup_of(#[trigger] files[j], suffix) ==> age(files[k]) < age(files[j])
}

/// The path of the file `name` in the directory `dir`.
pub open spec fn file_in(dir: Seq<char>, name: Seq<char>) -> Seq<char> {
    dir + "/"@ + name
}

/// The free space of the first entry that carries `uuid`, among
/// `entries[from..]`.
pub open spec fn free_space(entries: Seq<BlockDeviceView>, uuid: Option<Seq<char>>, from: int) -> Option<
    u64,
>
    decreases entries.len() - from,
{
    if from < 0 || from >= entries.len() {
        None
    } else if entries[from].uuid == uuid {
        known_size(entries[from].fsavail)
    } else {
        free_space(entries, uuid, from + 1)
    }
}

/// The number of bytes that an optional size string tells.
fn size_of(text: &Option<String>) -> (r: Option<u64>)
    ensures
        r == known_size(opt_view(*text)),
{
    match text {
        Some(t) => match convert_to_byte_size(t.as_str()) {
            Ok(size) => size,
            Err(_) => None,
        },
        None => None,
    }
}

/// Whether two optional texts are the same.
fn same_option(a: &Option<String>, b: &Option<String>) -> (r: bool)
    ensures
        r == (opt_view(*a) == opt_view(*b)),
{
    match (a, b) {
        (Some(x), Some(y)) => same_text(x.as_str(), y.as_str()),
        (None, None) => true,
        _ => false,
    }
}

impl Filesystem {
    /// Resolves a destination uuid against the candidate filesystems. A uuid
    /// that no candidate carries gives `None`; one that several carry is an
    /// error. The mount state is the one the inventory reports.
    pub fn new(uuid: &str, available_filesystems: &Vec<BlockDevice>, mountpath: Option<String>) -> (r:
        Result<Option<Filesystem>, Error>)
        ensures
            resolved_filesystem(r) == filesystem_resolution(
                uuid@,
                inventory(available_filesystems@),
                opt_view(mountpath),
            ),
    {
        match lookup(available_filesystems.as_slice(), Key::Uuid, uuid) {
            Lookup::Absent => Ok(None),
            Lookup::Ambiguous => Err(
                Error::new(ErrorKind::NonUniqueIdentifier, concat("Not a unique UUID: ", uuid)),
            ),
            Lookup::Unique(at) => {
                let blockdevice = &available_filesystems[at];
                let mountpath = match mountpath {
                    Some(p) => p,
                    None => "/mnt".to_string(),
                };
                Ok(
                    Some(
                        Filesystem {
                            blockdevice: blockdevice.clone(),
                            device_path: concat("/dev/", blockdevice.name.as_str()),
                            mountpath,
                            fsavail: size_of(&blockdevice.fsavail),
                        },
                    ),
                )
            },
        }
    }

    /// Whether the filesystem is mounted.
    pub fn is_mounted(&self) -> (r: bool)
        ensures
            r == (self@.blockdevice.mountpoint is Some),
    {
        self.blockdevice.mountpoint.is_some()
    }

    /// Takes in how the mount command ended. After a success the filesystem
    /// is mounted at its mount path; after a failure its state is as before
    /// and the command's diagnostic comes back as the error.
    pub fn mount(&mut self, outcome: Result<(), String>) -> (r: Result<(), Error>)
        ensures
            match outcome {
                Ok(_) => r is Ok && final(self)@ == old(self)@.with_mountpoint(
                    Some(old(self)@.mountpath),
                ),
                Err(reason) => r matches Err(e) && e@ == (ErrorView {
                    kind: ErrorKind::MountFailure,
                    message: reason@,
                }) && final(self)@ == old(self)@,
            },
    {
        match outcome {
            Ok(_) => {
                self.blockdevice.mountpoint = Some(self.mountpath.clone());
                Ok(())
            },
            Err(reason) => Err(Error::new(ErrorKind::MountFailure, reason)),
        }
    }

    /// Where the filesystem is to be unmounted from: its mount point. A
    /// filesystem that is not mounted has none, and the error names the
    /// mount path where it was expected.
    pub fn unmount_target(&self) -> (r: Result<String, Error>)
        ensures
            match self@.blockdevice.mountpoint {
                Some(at) => r matches Ok(p) && p@ == at,
                None => r matches Err(e) && e@ == (ErrorView {
                    kind: ErrorKind::UnmountFailure,
                    message: self@.mountpath,
                }),
            },
    {
        match &self.blockdevice.mountpoint {
            Some(at) => Ok(at.clone()),
            None => Err(Error::new(ErrorKind::UnmountFailure, self.mountpath.clone())),
        }
    }

    /// Takes in how the unmount command ended. A filesystem that is not
    /// mounted cannot be unmounted, whatever the command did. After a
    /// success the filesystem is unmounted; after a failure its state is as
    /// before and the command's diagnostic comes back as the error.
    pub fn unmount(&mut self, outcome: Result<(), String>) -> (r: Result<(), Error>)
        ensures
            match (old(self)@.blockdevice.mountpoint, outcome) {
                (None, _) => r matches Err(e) && e@ == (ErrorView {
                    kind: ErrorKind::UnmountFailure,
                    message: old(self)@.mountpath,
                }) && final(self)@ == old(self)@,
                (Some(_), Ok(_)) => r is Ok && final(self)@ == old(self)@.with_mountpoint(None),
                (Some(_), Err(reason)) => r matches Err(e) && e@ == (ErrorView {
                    kind: ErrorKind::UnmountFailure,
                    message: reason@,
                }) && final(self)@ == old(self)@,
            },
    {
        if self.blockdevice.mountpoint.is_none() {
            return Err(Error::new(ErrorKind::UnmountFailure, self.mountpath.clone()));
        }
        match outcome {
            Ok(_) => {
                self.blockdevice.mountpoint = None;
                Ok(())
            },
            Err(reason) => Err(Error::new(ErrorKind::UnmountFailure, reason)),
        }
    }

    /// How many entries of the listing are backups of the device with the
    /// given stable suffix. A directory that could not be read holds none.
    pub fn present_number_of_copies(
        &self,
        suffix_file_name_pattern: &str,
        listing: &Result<Vec<BackupFile>, String>,
    ) -> (r: usize)
        ensures
            match *listing {
                Ok(files) => r == backups_of(listed(files@), suffix_file_name_pattern@).len(),
                Err(_) => r == 0,
            },
    {
        match listing {
            Err(_) => 0,
            Ok(files) => {
                let ghost all = listed(files@);
                let ghost pred = |f: BackupFileView| is_backup_of(f, suffix_file_name_pattern@);
                let mut count: usize = 0;
                let mut i: usize = 0;
                proof {
                    reveal(Seq::filter);
                    assert(all.take(0).filter(pred).len() == 0);
                }
                while i < files.len()
                    invariant
                        i <= files.len(),
                        all == listed(files@),
                        pred == |f: BackupFileView| is_backup_of(f, suffix_file_name_pattern@),
                        count == all.take(i as int).filter(pred).len(),
                        count <= i,
                    decreases files.len() - i,
                {
                    proof {
                        all.lemma_take_succ_push(i as int);
                        all.take(i as int).lemma_filter_push(all[i as int], pred);
                    }
                    if contains_text(files[i].name.as_str(), suffix_file_name_pattern) {
                        count += 1;
                    }
                    i += 1;
                }
                assert(all.take(i as int) == all);
                count
            },
        }
    }

    /// The path of the backup that is removed to make room: among the
    /// backups of the device in the listing, the one created first, and of
    /// several created at the same moment the one listed first. A file whose
    /// creation time is unknown counts as created at the epoch. There is
    /// nothing to remove where the listing holds no backup of the device,
    /// and a directory that could not be read is an error.
    pub fn delete_oldest_backup(
        &self,
        suffix_file_name_pattern: &str,
        backup_dst_path: &str,
        listing: &Result<Vec<BackupFile>, String>,
    ) -> (r: Result<Option<String>, Error>)
        ensures
            match *listing {
                Ok(files) => match r {
                    Ok(Some(path)) => exists|k: int|
                        is_oldest(listed(files@), suffix_file_name_pattern@, k) && path@
                            == file_in(backup_dst_path@, #[trigger] listed(files@)[k].name),
                    Ok(None) => backups_of(listed(files@), suffix_file_name_pattern@).len() == 0,
                    Err(_) => false,
                },
                Err(reason) => r matches Err(e) && e@ == (ErrorView {
                    kind: ErrorKind::RetentionDeletionFailure,
                    message: "Failed to read backup directory: "@ + reason@,
                }),
            },
    {
        match listing {
            Err(reason) => Err(
                Error::new(
                    ErrorKind::RetentionDeletionFailure,
                    concat("Failed to read backup directory: ", reason.as_str()),
                ),
            ),
            Ok(files) => {
                let ghost all = listed(files@);
                let ghost suffix = suffix_file_name_pattern@;
                let ghost pred = |f: BackupFileView| is_backup_of(f, suffix);
                let mut best: Option<usize> = None;
                let mut best_age: u64 = 0;
                let mut i: usize = 0;
                proof {
                    reveal(Seq::filter);
                    assert(all.take(0).filter(pred).len() == 0);
                }
                while i < files.len()
                    invariant
                        i <= files.len(),
                        all == listed(files@),
                        suffix == suffix_file_name_pattern@,
                        pred == |f: BackupFileView| is_backup_of(f, suffix),
                        match best {
                            Some(k) => k < i && best_age == age(all[k as int]) && is_oldest(
                                all.take(i as int),
                                suffix,
                                k as int,
                            ),
                            None => all.take(i as int).filter(pred).len() == 0,
                        },
                    decreases files.len() - i,
                {
                    proof {
                        all.lemma_take_succ_push(i as int);
                        all.take(i as int).lemma_filter_push(all[i as int], pred);
                    }
                    let file = &files[i];
                    let hit = contains_text(file.name.as_str(), suffix_file_name_pattern);
                    let created: u64 = match file.created {
                        Some(t) => t,
                        None => 0,
                    };
                    proof {
                        let kept: Option<int> = match best {
                            Some(k) => Some(k as int),
                            None => None,
                        };
                        lemma_oldest_after_push(all.take(i as int), suffix, kept, all[i as int]);
                    }
                    if hit {
                        let newer = match best {
                            Some(_) => created < best_age,
                            None => true,
                        };
                        if newer {
                            best = Some(i);
                            best_age = created;
                        }
                    }
                    i += 1;
                }
                assert(all.take(i as int) == all);
                match best {
                    Some(k) => {
                        proof {
                            reveal_strlit("/");
                        }
                        Ok(Some(concat3(backup_dst_path, "/", files[k].name.as_str())))
                    },
                    None => Ok(None),
                }
            },
        }
    }

    /// The error for an oldest backup at `path` that could not be removed
    /// for the given reason; none where it was removed.
    pub fn removal(path: &str, outcome: Result<(), String>) -> (r: Result<(), Error>)
        ensures
            match outcome {
                Ok(_) => r is Ok,
                Err(reason) => r matches Err(e) && e@ == (ErrorView {
                    kind: ErrorKind::RetentionDeletionFailure,
                    message: "Failed to delete oldest backup file '"@ + path@ + "': "@ + reason@,
                }),
            },
    {
        match outcome {
            Ok(_) => Ok(()),
            Err(reason) => {
                let head = concat3("Failed to delete oldest backup file '", path, "': ");
                Err(
                    Error::new(
                        ErrorKind::RetentionDeletionFailure,
                        concat(head.as_str(), reason.as_str()),
                    ),
                )
            },
        }
    }

    /// The free space of this filesystem in bytes as a fresh inventory
    /// reports it: that of the first candidate with this filesystem's uuid.
    /// It is unknown where no candidate carries the uuid or the inventory
    /// tells no size that can be read; a failed inventory is an error.
    #[verifier::loop_isolation(false)]
    pub fn available_space(&self, fresh: &Result<Lsblk, Error>) -> (r: Result<Option<u64>, Error>)
        ensures
            match *fresh {
                Ok(lsblk) => r == Ok::<Option<u64>, Error>(
                    free_space(
                        inventory(lsblk.available_filesystems@),
                        self@.blockdevice.uuid,
                        0,
                    ),
                ),
                Err(cause) => r matches Err(e) && e@ == cause@,
            },
    {
        match fresh {
            Err(cause) => Err(cause.clone()),
            Ok(lsblk) => {
                let ghost all = inventory(lsblk.available_filesystems@);
                let mut i: usize = 0;
                while i < lsblk.available_filesystems.len()
                    invariant
                        i <= lsblk.available_filesystems.len(),
                        all == inventory(lsblk.available_filesystems@),
                        free_space(all, self@.blockdevice.uuid, 0) == free_space(
                            all,
                            self@.blockdevice.uuid,
                            i as int,
                        ),
                    decreases lsblk.available_filesystems.len() - i,
                {
                    let entry = &lsblk.available_filesystems[i];
                    assert(all[i as int] == entry@);
                    if same_option(&entry.uuid, &self.blockdevice.uuid) {
                        return Ok(size_of(&entry.fsavail));
                    }
                    i += 1;
                }
                Ok(None)
            },
        }
    }
}


/// A uuid that exactly one entry carries resolves to the filesystem bound
/// to that entry, with the entry's node path and mount state.
pub proof fn law_unique_uuid_resolves(
    uuid: Seq<char>,
    entries: Seq<BlockDeviceView>,
    mountpath: Option<Seq<char>>,
    i: int,
)
    requires
        0 <= i < entries.len(),
        entries[i].uuid == Some(uuid),
        forall|j: int| 0 <= j < entries.len() && j != i ==> (#[trigger] entries[j]).uuid != Some(uuid),
    ensures
        filesystem_resolution(uuid, entries, mountpath) == Ok::<Option<FilesystemView>, ErrorView>(
            Some(bound_filesystem(entries[i], mountpath)),
        ),
        bound_filesystem(entries[i], mountpath).device_path == node_path(entries[i].name),
        bound_filesystem(entries[i], mountpath).blockdevice.mountpoint == entries[i].mountpoint,
{
    assert forall|j: int| 0 <= j < entries.len() && j != i implies crate::lsblk::key_of(
        #[trigger] entries[j],
        Key::Uuid,
    ) != Some(uuid) by {
        assert(entries[j].uuid != Some(uuid));
    }
    crate::lsblk::lemma_matching_single(entries, Key::Uuid, uuid, i);
}

/// A uuid that two entries carry does not resolve: the result is the error
/// of a uuid that is not unique.
pub proof fn law_shared_uuid_fails(
    uuid: Seq<char>,
    entries: Seq<BlockDeviceView>,
    mountpath: Option<Seq<char>>,
    i: int,
    j: int,
)
    requires
        0 <= i < j < entries.len(),
        entries[i].uuid == Some(uuid),
        entries[j].uuid == Some(uuid),
    ensures
        filesystem_resolution(uuid, entries, mountpath) == Err::<Option<FilesystemView>, ErrorView>(
            ambiguous_uuid(uuid),
        ),
        ambiguous_uuid(uuid).kind == ErrorKind::NonUniqueIdentifier,
{
    crate::lsblk::lemma_matching_several(entries, Key::Uuid, uuid, i, j);
}

/// A uuid that no entry carries resolves to nothing, without an error.
pub proof fn law_unknown_uuid_is_absent(
    uuid: Seq<char>,
    entries: Seq<BlockDeviceView>,
    mountpath: Option<Seq<char>>,
)
    requires
        forall|j: int| 0 <= j < entries.len() ==> (#[trigger] entries[j]).uuid != Some(uuid),
    ensures
        filesystem_resolution(uuid, entries, mountpath) == Ok::<Option<FilesystemView>, ErrorView>(
            None,
        ),
{
    assert forall|j: int| 0 <= j < entries.len() implies crate::lsblk::key_of(
        #[trigger] entries[j],
        Key::Uuid,
    ) != Some(uuid) by {
        assert(entries[j].uuid != Some(uuid));
    }
    crate::lsblk::lemma_matching_none(entries, Key::Uuid, uuid);
}

/// The oldest backup of a listing that got one more file: the new file
/// where it is a backup of the device and older than the oldest so far, or
/// the first such backup at all; the oldest so far otherwise.
pub open spec fn oldest_after_push(
    files: Seq<BackupFileView>,
    suffix: Seq<char>,
    best: Option<int>,
    file: BackupFileView,
) -> Option<int> {
    if is_backup_of(file, suffix) && (match best {
        Some(k) => age(file) < age(files[k]),
        None => true,
    }) {
        Some(files.len() as int)
    } else {
        best
    }
}

/// `best` tells the oldest backup of the device in `files`, or that there
/// is none.
pub open spec fn tells_oldest(files: Seq<BackupFileView>, suffix: Seq<char>, best: Option<int>) -> bool {
    match best {
        Some(k) => is_oldest(files, suffix, k),
        None => backups_of(files, suffix).len() == 0,
    }
}

/// What is known of the oldest backup goes on to a listing with one more
/// file.
pub proof fn lemma_oldest_after_push(
    files: Seq<BackupFileView>,
    suffix: Seq<char>,
    best: Option<int>,
    file: BackupFileView,
)
    requires
        tells_oldest(files, suffix, best),
    ensures
        tells_oldest(files.push(file), suffix, oldest_after_push(files, suffix, best, file)),
{
    let pred = |f: BackupFileView| is_backup_of(f, suffix);
    let after = files.push(file);
    let next = oldest_after_push(files, suffix, best, file);
    files.lemma_filter_push(file, pred);
    assert forall|j: int| 0 <= j < files.len() implies after[j] == files[j] by {}
    if best is None {
        assert forall|j: int| 0 <= j < files.len() implies !is_backup_of(
            #[trigger] after[j],
            suffix,
        ) by {
            if is_backup_of(files[j], suffix) {
                files.lemma_filter_contains(pred, j);
            }
        }
    }
    match next {
        Some(k) => {
            assert forall|j: int|
                0 <= j < after.len() && is_backup_of(#[trigger] after[j], suffix) implies age(
                after[k],
            ) <= age(after[j]) by {
                if j < files.len() {
                    assert(after[j] == files[j]);
                }
            }
            assert forall|j: int| 0 <= j < k && is_backup_of(
                #[trigger] after[j],
                suffix,
            ) implies age(after[k]) < age(after[j]) by {
                assert(after[j] == files[j]);
            }
        },
        None => {},
    }
}

/// Where a listing holds a backup of the device, one of them is the oldest.
pub proof fn lemma_oldest_exists(files: Seq<BackupFileView>, suffix: Seq<char>) -> (k: int)
    requires
        backups_of(files, suffix).len() > 0,
    ensures
        is_oldest(files, suffix, k),
{
    let best = lemma_oldest_known(files, suffix);
    best->Some_0
}

/// Of every listing it can be told which backup of the device is the
/// oldest, or that there is none.
proof fn lemma_oldest_known(files: Seq<BackupFileView>, suffix: Seq<char>) -> (best: Option<int>)
    ensures
        tells_oldest(files, suffix, best),
    decreases files.len(),
{
    if files.len() == 0 {
        reveal(Seq::filter);
        None
    } else {
        let before = lemma_oldest_known(files.drop_last(), suffix);
        lemma_oldest_after_push(files.drop_last(), suffix, before, files.last());
        assert(files.drop_last().push(files.last()) =~= files);
        oldest_after_push(files.drop_last(), suffix, before, files.last())
    }
}

} // verus!
