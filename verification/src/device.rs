//! The device resolver: from a configured source device and the inventory to
//! the one device that is backed up, or to the reason why there is none.

use vstd::prelude::*;
use crate::config::{BackupDevice, BackupDeviceView};
use crate::error::{Error, ErrorKind};
use crate::lsblk::{inventory, lookup, matching, BlockDevice, BlockDeviceView, Key, Lookup};
use crate::text::{
    concat,
    contains,
    contains_chars,
    hyphenated,
    opt_view,
    replace_spaces,
    rows,
    split,
    split_chars,
    to_chars,
};
use crate::utils::{byte_size, convert_to_byte_size};

verus! {

/// A source device bound to its entry in the inventory.
#[derive(Debug)]
pub struct Device {
    /// The entry of the inventory.
    pub blockdevice: BlockDevice,
    /// The path of the device node.
    pub device_path: String,
    /// The name used in file names, without spaces.
    pub name: String,
    /// The directory on the destination, relative to its mount point.
    pub destination_path: String,
    /// How many backups of this device are kept.
    pub copies: usize,
}

/// The mathematical value of a [`Device`].
pub struct DeviceView {
    pub blockdevice: BlockDeviceView,
    pub device_path: Seq<char>,
    pub name: Seq<char>,
    pub destination_path: Seq<char>,
    pub copies: usize,
}

impl View for Device {
    type V = DeviceView;

    open spec fn view(&self) -> DeviceView {
        DeviceView {
            blockdevice: self.blockdevice@,
            device_path: self.device_path@,
            name: self.name@,
            destination_path: self.destination_path@,
            copies: self.copies,
        }
    }
}

/// The path of the device node called `name`.
pub open spec fn node_path(name: Seq<char>) -> Seq<char> {
    "/dev/"@ + name
}

/// The text, or the fallback where there is none.
pub open spec fn text_or(text: Option<Seq<char>>, fallback: Seq<char>) -> Seq<char> {
    match text {
        Some(t) => t,
        None => fallback,
    }
}

/// The device that binds the configured source `source` to `entry`.
pub open spec fn bound_device(
    entry: BlockDeviceView,
    source: BackupDeviceView,
    destination_path: Option<Seq<char>>,
) -> DeviceView {
    DeviceView {
        blockdevice: entry,
        device_path: node_path(entry.name),
        name: hyphenated(text_or(source.name, ""@)),
        destination_path: text_or(destination_path, "./"@),
        copies: match source.copies {
            Some(c) => c,
            None => 1,
        },
    }
}

/// A line of the mount table names a source that contains `path`: the line
/// has at least two fields, and `path` stands in the first.
pub open spec fn line_mounts(line: Seq<char>, path: Seq<char>) -> bool {
    let fields = split(line, ' ');
    fields.len() >= 2 && contains(fields[0], path)
}

/// Some line of the mount table names a source that contains `path`.
pub open spec fn mounted(table: Seq<char>, path: Seq<char>) -> bool {
    exists|k: int| 0 <= k < split(table, '\n').len() && line_mounts(#[trigger] split(table, '\n')[k], path)
}

/// The error for a serial that several entries carry.
pub open spec fn ambiguous_serial(serial: Seq<char>) -> crate::error::ErrorView {
    crate::error::ErrorView {
        kind: ErrorKind::NonUniqueIdentifier,
        message: "Device has not a unique serial: "@ + serial,
    }
}

/// The error for a serial that no entry carries.
pub open spec fn missing_serial(serial: Seq<char>) -> crate::error::ErrorView {
    crate::error::ErrorView {
        kind: ErrorKind::DeviceNotFound,
        message: "Device not found: "@ + serial,
    }
}

/// The error for a mount table that could not be read.
pub open spec fn unread_mount_table(reason: Seq<char>) -> crate::error::ErrorView {
    crate::error::ErrorView {
        kind: ErrorKind::CommandExecutionFailure,
        message: "Failed to open /proc/mounts: "@ + reason,
    }
}

/// The view of a mount table, or of the reason why there is none.
pub open spec fn table_view(mount_table: Result<String, String>) -> Result<Seq<char>, Seq<char>> {
    match mount_table {
        Ok(table) => Ok(table@),
        Err(reason) => Err(reason@),
    }
}

/// What resolving a configured source gives: the device, nothing where the
/// source is absent or mounted, or the error of an ambiguous serial. The
/// mount table is looked at for a serial that exactly one entry carries,
/// and for no other; where it is needed and could not be read, that is an
/// error.
pub open spec fn resolution(
    source: BackupDeviceView,
    entries: Seq<BlockDeviceView>,
    destination_path: Option<Seq<char>>,
    mount_table: Result<Seq<char>, Seq<char>>,
) -> Result<Option<DeviceView>, crate::error::ErrorView> {
    let found = matching(entries, Key::Serial, source.serial);
    if found.len() == 0 {
        Ok(None)
    } else if found.len() >= 2 {
        Err(ambiguous_serial(source.serial))
    } else {
        match mount_table {
            Err(reason) => Err(unread_mount_table(reason)),
            Ok(table) => if mounted(table, node_path(found[0].name)) {
                Ok(None)
            } else {
                Ok(Some(bound_device(found[0], source, destination_path)))
            },
        }
    }
}

/// The view of a result of resolution.
pub open spec fn resolved(r: Result<Option<Device>, Error>) -> Result<
    Option<DeviceView>,
    crate::error::ErrorView,
> {
    match r {
        Ok(Some(d)) => Ok(Some(d@)),
        Ok(None) => Ok(None),
        Err(e) => Err(e@),
    }
}

impl Device {
    /// Resolves a configured source against the candidate devices and the
    /// mount table. A serial that no candidate carries gives `None`, and so
    /// does a device that the mount table names; a serial that several
    /// candidates carry is an error.
    pub fn new(
        backup_device: &BackupDevice,
        available_devices: &[BlockDevice],
        destination_path: Option<String>,
        mount_table: &Result<String, String>,
    ) -> (r: Result<Option<Device>, Error>)
        ensures
            resolved(r) == resolution(
                backup_device@,
                inventory(available_devices@),
                opt_view(destination_path),
                table_view(*mount_table),
            ),
    {
        match Self::validate_serial(backup_device.serial.as_str(), available_devices) {
            Ok(blockdevice) => {
                let device_path = concat("/dev/", blockdevice.name.as_str());
                let table = match mount_table {
                    Ok(table) => table,
                    Err(reason) => {
                        return Err(
                            Error::new(
                                ErrorKind::CommandExecutionFailure,
                                concat("Failed to open /proc/mounts: ", reason.as_str()),
                            ),
                        );
                    },
                };
                if Self::is_device_mounted(device_path.as_str(), table.as_str()) {
                    Ok(None)
                } else {
                    let name = match &backup_device.name {
                        Some(n) => replace_spaces(n.as_str()),
                        None => replace_spaces(""),
                    };
                    let destination_path = match destination_path {
                        Some(p) => p,
                        None => "./".to_string(),
                    };
                    let copies = match backup_device.copies {
                        Some(c) => c,
                        None => 1,
                    };
                    Ok(
                        Some(
                            Device {
                                blockdevice: blockdevice.clone(),
                                device_path,
                                name,
                                destination_path,
                                copies,
                            },
                        ),
                    )
                }
            },
            Err(e) => {
                if e.kind == ErrorKind::DeviceNotFound {
                    Ok(None)
                } else {
                    Err(e)
                }
            },
        }
    }

    /// The one candidate that carries `serial`. It is an error if none does,
    /// and another if several do.
    pub fn validate_serial<'a>(serial: &str, available_devices: &'a [BlockDevice]) -> (r: Result<
        &'a BlockDevice,
        Error,
    >)
        ensures
            match r {
                Ok(entry) => matching(inventory(available_devices@), Key::Serial, serial@)
                    == seq![entry@],
                Err(e) => {
                    let found = matching(inventory(available_devices@), Key::Serial, serial@);
                    ||| found.len() == 0 && e@ == missing_serial(serial@)
                    ||| found.len() >= 2 && e@ == ambiguous_serial(serial@)
                },
            },
    {
        match lookup(available_devices, Key::Serial, serial) {
            Lookup::Unique(at) => Ok(&available_devices[at]),
            Lookup::Ambiguous => Err(
                Error::new(
                    ErrorKind::NonUniqueIdentifier,
                    concat("Device has not a unique serial: ", serial),
                ),
            ),
            Lookup::Absent => Err(
                Error::new(ErrorKind::DeviceNotFound, concat("Device not found: ", serial)),
            ),
        }
    }

    /// Whether the mount table names a source that contains `device_path`.
    #[verifier::loop_isolation(false)]
    pub fn is_device_mounted(device_path: &str, mount_table: &str) -> (r: bool)
        ensures
            r == mounted(mount_table@, device_path@),
    {
        let path = to_chars(device_path);
        let table = to_chars(mount_table);
        let lines = split_chars(&table, '\n');
        let mut i: usize = 0;
        while i < lines.len()
            invariant
                i <= lines.len(),
                rows(lines@) == split(table@, '\n'),
                forall|k: int| 0 <= k < i ==> !line_mounts(#[trigger] split(table@, '\n')[k], path@),
            decreases lines.len() - i,
        {
            let fields = split_chars(&lines[i], ' ');
            assert(rows(lines@)[i as int] == lines@[i as int]@);
            if fields.len() >= 2 {
                assert(rows(fields@)[0] == fields@[0]@);
                if contains_chars(&fields[0], &path) {
                    assert(line_mounts(split(table@, '\n')[i as int], path@));
                    return true;
                }
            }
            i += 1;
        }
        false
    }

    /// The capacity of the device in bytes, where its size string tells it.
    pub fn total_size(&self) -> (r: Result<Option<u64>, Error>)
        ensures
            match r {
                Ok(size) => byte_size(self@.blockdevice.size) == Ok::<Option<u64>, Seq<char>>(size),
                Err(e) => e@.kind == ErrorKind::InvalidSize && byte_size(self@.blockdevice.size)
                    == Err::<Option<u64>, Seq<char>>(e@.message),
            },
    {
        convert_to_byte_size(self.blockdevice.size.as_str())
    }
}


/// A serial that exactly one entry carries resolves to the device bound to
/// that entry, with the entry's node path, unless the mount table names it.
/// Where the mount table could not be read, such a serial does not resolve.
pub proof fn law_unique_serial_resolves(
    source: BackupDeviceView,
    entries: Seq<BlockDeviceView>,
    destination_path: Option<Seq<char>>,
    mount_table: Seq<char>,
    i: int,
)
    requires
        0 <= i < entries.len(),
        entries[i].serial == Some(source.serial),
        forall|j: int|
            0 <= j < entries.len() && j != i ==> (#[trigger] entries[j]).serial != Some(
                source.serial,
            ),
        !mounted(mount_table, node_path(entries[i].name)),
    ensures
        resolution(source, entries, destination_path, Ok(mount_table)) == Ok::<
            Option<DeviceView>,
            crate::error::ErrorView,
        >(Some(bound_device(entries[i], source, destination_path))),
        bound_device(entries[i], source, destination_path).device_path == node_path(
            entries[i].name,
        ),
{
    assert forall|j: int| 0 <= j < entries.len() && j != i implies crate::lsblk::key_of(
        #[trigger] entries[j],
        Key::Serial,
    ) != Some(source.serial) by {
        assert(entries[j].serial != Some(source.serial));
    }
    crate::lsblk::lemma_matching_single(entries, Key::Serial, source.serial, i);
}

/// A serial that two entries carry does not resolve: the result is the
/// error of a serial that is not unique.
pub proof fn law_shared_serial_fails(
    source: BackupDeviceView,
    entries: Seq<BlockDeviceView>,
    destination_path: Option<Seq<char>>,
    mount_table: Seq<char>,
    i: int,
    j: int,
)
    requires
        0 <= i < j < entries.len(),
        entries[i].serial == Some(source.serial),
        entries[j].serial == Some(source.serial),
    ensures
        resolution(source, entries, destination_path, Ok(mount_table)) == Err::<
            Option<DeviceView>,
            crate::error::ErrorView,
        >(ambiguous_serial(source.serial)),
        ambiguous_serial(source.serial).kind == ErrorKind::NonUniqueIdentifier,
{
    crate::lsblk::lemma_matching_several(entries, Key::Serial, source.serial, i, j);
}

/// A serial that no entry carries resolves to nothing, without an error.
pub proof fn law_unknown_serial_is_absent(
    source: BackupDeviceView,
    entries: Seq<BlockDeviceView>,
    destination_path: Option<Seq<char>>,
    mount_table: Seq<char>,
)
    requires
        forall|j: int|
            0 <= j < entries.len() ==> (#[trigger] entries[j]).serial != Some(source.serial),
    ensures
        resolution(source, entries, destination_path, Ok(mount_table)) == Ok::<
            Option<DeviceView>,
            crate::error::ErrorView,
        >(None),
{
    assert forall|j: int| 0 <= j < entries.len() implies crate::lsblk::key_of(
        #[trigger] entries[j],
        Key::Serial,
    ) != Some(source.serial) by {
        assert(entries[j].serial != Some(source.serial));
    }
    crate::lsblk::lemma_matching_none(entries, Key::Serial, source.serial);
}

/// A device that the mount table names is never resolved: whatever else
/// the inventory holds, a source whose serial an entry with a mounted node
/// carries does not resolve to a device. And no device that resolution
/// gives is named by the mount table.
pub proof fn law_mounted_device_is_absent(
    source: BackupDeviceView,
    entries: Seq<BlockDeviceView>,
    destination_path: Option<Seq<char>>,
    mount_table: Seq<char>,
    i: int,
)
    requires
        0 <= i < entries.len(),
        entries[i].serial == Some(source.serial),
        mounted(mount_table, node_path(entries[i].name)),
    ensures
        !(resolution(source, entries, destination_path, Ok(mount_table)) matches Ok(Some(_))),
{
    let found = matching(entries, Key::Serial, source.serial);
    let pred = |d: BlockDeviceView| crate::lsblk::key_of(d, Key::Serial) == Some(source.serial);
    assert(pred(entries[i]));
    entries.lemma_filter_contains(pred, i);
    if found.len() == 1 {
        let k = choose|k: int| 0 <= k < found.len() && found[k] == entries[i];
        assert(found[0] == entries[i]);
    }
}

/// No device that resolution gives is named by the mount table.
pub proof fn law_resolved_device_is_unmounted(
    source: BackupDeviceView,
    entries: Seq<BlockDeviceView>,
    destination_path: Option<Seq<char>>,
    mount_table: Seq<char>,
)
    ensures
        resolution(source, entries, destination_path, Ok(mount_table)) matches Ok(Some(device))
            ==> !mounted(mount_table, device.device_path),
{
}

/// Without a mount table no device is resolved: a serial that exactly one
/// entry carries gives the error of the table that could not be read, and
/// every other serial resolves as it does with any mount table.
pub proof fn law_an_unread_mount_table_resolves_nothing(
    source: BackupDeviceView,
    entries: Seq<BlockDeviceView>,
    destination_path: Option<Seq<char>>,
    reason: Seq<char>,
    mount_table: Seq<char>,
)
    ensures
        !(resolution(source, entries, destination_path, Err(reason)) matches Ok(Some(_))),
        matching(entries, Key::Serial, source.serial).len() == 1 ==> resolution(
            source,
            entries,
            destination_path,
            Err(reason),
        ) == Err::<Option<DeviceView>, crate::error::ErrorView>(unread_mount_table(reason)),
        matching(entries, Key::Serial, source.serial).len() != 1 ==> resolution(
            source,
            entries,
            destination_path,
            Err(reason),
        ) == resolution(source, entries, destination_path, Ok(mount_table)),
{
}

} // verus!
