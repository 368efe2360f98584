//! The configuration of a run: destinations, the devices to back up to each
//! of them, and the rules a configuration has to meet.

use vstd::prelude::*;
use crate::error::{Error, ErrorKind};
use crate::text::{all_distinct, concat, concat3, opt_view, views};

verus! {

/// One source device of a backup group.
#[derive(Debug, PartialEq)]
pub struct BackupDevice {
    /// The serial number of the device.
    pub serial: String,
    /// A name for the device, used in file names.
    pub name: Option<String>,
    /// How many backups of this device are kept; one where absent.
    pub copies: Option<usize>,
}

/// The mathematical value of a [`BackupDevice`].
pub struct BackupDeviceView {
    pub serial: Seq<char>,
    pub name: Option<Seq<char>>,
    pub copies: Option<usize>,
}

impl View for BackupDevice {
    type V = BackupDeviceView;

    open spec fn view(&self) -> BackupDeviceView {
        BackupDeviceView { serial: self.serial@, name: opt_view(self.name), copies: self.copies }
    }
}

/// One backup group: a destination filesystem and the devices backed up to
/// it.
#[derive(Debug, PartialEq)]
pub struct BackupConfig {
    /// The devices to back up.
    pub backup_devices: Vec<BackupDevice>,
    /// The uuid of the destination filesystem.
    pub uuid: String,
    /// The directory on the destination, relative to its mount point.
    pub destination_path: Option<String>,
    /// The command that checks the destination filesystem.
    pub fsck_command: Option<String>,
    /// Whether the filesystem check is left out.
    pub skip_fsck: Option<bool>,
    /// Whether the destination is taken as mounted already.
    pub skip_mount: Option<bool>,
}

/// The mathematical value of a [`BackupConfig`].
pub struct BackupConfigView {
    pub backup_devices: Seq<BackupDeviceView>,
    pub uuid: Seq<char>,
    pub destination_path: Option<Seq<char>>,
    pub fsck_command: Option<Seq<char>>,
    pub skip_fsck: Option<bool>,
    pub skip_mount: Option<bool>,
}

impl View for BackupConfig {
    type V = BackupConfigView;

    open spec fn view(&self) -> BackupConfigView {
        BackupConfigView {
            backup_devices: self.backup_devices@.map_values(|d: BackupDevice| d@),
            uuid: self.uuid@,
            destination_path: opt_view(self.destination_path),
            fsck_command: opt_view(self.fsck_command),
            skip_fsck: self.skip_fsck,
            skip_mount: self.skip_mount,
        }
    }
}

/// The whole configuration.
#[derive(Debug, PartialEq)]
pub struct Config {
    /// The backup groups, in the order in which they run.
    pub backups: Vec<BackupConfig>,
    /// Where destinations are mounted; `/mnt` where absent.
    pub mountpath: Option<String>,
}

/// The mathematical value of a [`Config`].
pub struct ConfigView {
    pub backups: Seq<BackupConfigView>,
    pub mountpath: Option<Seq<char>>,
}

impl View for Config {
    type V = ConfigView;

    open spec fn view(&self) -> ConfigView {
        ConfigView {
            backups: self.backups@.map_values(|b: BackupConfig| b@),
            mountpath: opt_view(self.mountpath),
        }
    }
}

/// The uuids of the groups, in order.
pub open spec fn uuids(config: ConfigView) -> Seq<Seq<char>> {
    config.backups.map_values(|b: BackupConfigView| b.uuid)
}

/// The serials of the devices of a group, in order.
pub open spec fn serials(group: BackupConfigView) -> Seq<Seq<char>> {
    group.backup_devices.map_values(|d: BackupDeviceView| d.serial)
}

/// The message for a device that is to keep no copy at all.
pub open spec fn copies_message(serial: Seq<char>) -> Seq<char> {
    "Invalid number of copies for device with serial '"@ + serial
        + "'. Must be greater than 0."@
}

/// The message for a group that names a serial twice.
pub open spec fn serial_message(uuid: Seq<char>) -> Seq<char> {
    "Duplicate serial number found in backup with UUID '"@ + uuid + "'"@
}

/// The complaint about the first device, among `devices[from..]`, that is
/// to keep no copy.
pub open spec fn copies_fault(devices: Seq<BackupDeviceView>, from: int) -> Option<Seq<char>>
    decreases devices.len() - from,
{
    if from < 0 || from >= devices.len() {
        None
    } else if devices[from].copies == Some(0usize) {
        Some(copies_message(devices[from].serial))
    } else {
        copies_fault(devices, from + 1)
    }
}

/// What is wrong with one group: a serial named twice, or else a device that
/// is to keep no copy.
pub open spec fn group_fault(group: BackupConfigView) -> Option<Seq<char>> {
    if !serials(group).no_duplicates() {
        Some(serial_message(group.uuid))
    } else {
        copies_fault(group.backup_devices, 0)
    }
}

/// The complaint about the first faulty group among `groups[from..]`.
pub open spec fn groups_fault(groups: Seq<BackupConfigView>, from: int) -> Option<Seq<char>>
    decreases groups.len() - from,
{
    if from < 0 || from >= groups.len() {
        None
    } else if group_fault(groups[from]) is Some {
        group_fault(groups[from])
    } else {
        groups_fault(groups, from + 1)
    }
}

/// What is wrong with a configuration, if anything: a uuid named twice, or
/// else the fault of the first faulty group.
pub open spec fn config_fault(config: ConfigView) -> Option<Seq<char>> {
    if !uuids(config).no_duplicates() {
        Some("Duplicate UUID found in backups"@)
    } else {
        groups_fault(config.backups, 0)
    }
}

/// The directory of the configuration below the home directory `home`.
pub open spec fn config_home(home: Seq<char>) -> Seq<char> {
    child_path(child_path(home, ".config"@), "dd_backup"@)
}

/// The configuration file of the user whose home directory is `home`.
pub open spec fn user_config_file(home: Seq<char>) -> Seq<char> {
    child_path(config_home(home), "config.json"@)
}

/// The error of a user without a home directory, as it reaches those who
/// ask for the configuration file.
pub open spec fn home_failure() -> crate::error::ErrorView {
    crate::error::ErrorView {
        kind: ErrorKind::ConfigurationError,
        message: "Failed reading or creating data directory -> "@ + "Failed to find Home dir"@,
    }
}

/// The path of `name` inside the directory `base`.
pub open spec fn child_path(base: Seq<char>, name: Seq<char>) -> Seq<char> {
    if base.len() == 0 {
        name
    } else if base.last() == '/' {
        base + name
    } else {
        base + "/"@ + name
    }
}

/// The path of `name` inside the directory `base`.
pub fn join_path(base: &str, name: &str) -> (r: String)
    ensures
        r@ == child_path(base@, name@),
{
    let chars = crate::text::to_chars(base);
    if chars.len() == 0 {
        let mut r = String::new();
        crate::text::push_text(&mut r, name);
        r
    } else if chars[chars.len() - 1] == '/' {
        concat(base, name)
    } else {
        proof {
            reveal_strlit("/");
        }
        concat3(base, "/", name)
    }
}

/// Calls `dirs::home_dir()` and takes the path as text, with what is not
/// valid text in it replaced. Nothing is promised of the result, since it
/// depends on the environment of the process.
#[verifier::external_body]
fn home_dir() -> (home: Option<String>) {
    dirs::home_dir().map(|p| p.to_string_lossy().into_owned())
}

impl Config {
    /// Checks a configuration that was read, or hands on the reason why it
    /// could not be read.
    pub fn new(loaded: Result<Config, String>) -> (r: Result<Config, Error>)
        ensures
            match loaded {
                Ok(config) => match r {
                    Ok(valid) => valid@ == config@ && config_fault(config@) is None,
                    Err(e) => e@.kind == ErrorKind::ConfigurationError && config_fault(config@)
                        == Some(e@.message),
                },
                Err(reason) => r matches Err(e) && e@.kind == ErrorKind::ConfigurationError
                    && e@.message == reason@,
            },
    {
        Self::validate_config(loaded)
    }

    /// Accepts a configuration in which no uuid occurs twice, no group names
    /// a serial twice, and every given number of copies is at least one.
    #[verifier::loop_isolation(false)]
    pub fn validate_config(config: Result<Config, String>) -> (r: Result<Config, Error>)
        ensures
            match config {
                Ok(config) => match r {
                    Ok(valid) => valid@ == config@ && config_fault(config@) is None,
                    Err(e) => e@.kind == ErrorKind::ConfigurationError && config_fault(config@)
                        == Some(e@.message),
                },
                Err(reason) => r matches Err(e) && e@.kind == ErrorKind::ConfigurationError
                    && e@.message == reason@,
            },
    {
        let config = match config {
            Ok(config) => config,
            Err(reason) => {
                return Err(Error::new(ErrorKind::ConfigurationError, reason));
            },
        };
        let mut names: Vec<String> = Vec::new();
        let mut i: usize = 0;
        while i < config.backups.len()
            invariant
                i <= config.backups.len(),
                views(names@) == uuids(config@).take(i as int),
            decreases config.backups.len() - i,
        {
            let ghost before = names@;
            names.push(config.backups[i].uuid.clone());
            proof {
                assert forall|k: int| 0 <= k <= i implies views(names@)[k] == uuids(config@)[k] by {
                    if k < i {
                        assert(views(before)[k] == uuids(config@).take(i as int)[k]);
                    } else {
                        assert(config@.backups[k] == config.backups@[k]@);
                    }
                }
                assert(views(names@) =~= uuids(config@).take(i + 1));
            }
            i += 1;
        }
        assert(uuids(config@).take(i as int) == uuids(config@));
        if !all_distinct(&names) {
            return Err(
                Error::new(
                    ErrorKind::ConfigurationError,
                    "Duplicate UUID found in backups".to_string(),
                ),
            );
        }
        let mut g: usize = 0;
        while g < config.backups.len()
            invariant
                g <= config.backups.len(),
                uuids(config@).no_duplicates(),
                groups_fault(config@.backups, 0) == groups_fault(config@.backups, g as int),
            decreases config.backups.len() - g,
        {
            assert(config@.backups[g as int] == config.backups@[g as int]@);
            match Self::check_group(&config.backups[g]) {
                Some(e) => {
                    return Err(e);
                },
                None => {},
            }
            g += 1;
        }
        Ok(config)
    }

    /// The fault of one group, if it has one.
    #[verifier::loop_isolation(false)]
    fn check_group(group: &BackupConfig) -> (r: Option<Error>)
        ensures
            match r {
                Some(e) => e@.kind == ErrorKind::ConfigurationError && group_fault(group@) == Some(
                    e@.message,
                ),
                None => group_fault(group@) is None,
            },
    {
        let mut names: Vec<String> = Vec::new();
        let mut i: usize = 0;
        while i < group.backup_devices.len()
            invariant
                i <= group.backup_devices.len(),
                views(names@) == serials(group@).take(i as int),
            decreases group.backup_devices.len() - i,
        {
            let ghost before = names@;
            names.push(group.backup_devices[i].serial.clone());
            proof {
                assert forall|k: int| 0 <= k <= i implies views(names@)[k] == serials(group@)[k] by {
                    if k < i {
                        assert(views(before)[k] == serials(group@).take(i as int)[k]);
                    } else {
                        assert(group@.backup_devices[k] == group.backup_devices@[k]@);
                    }
                }
                assert(views(names@) =~= serials(group@).take(i + 1));
            }
            i += 1;
        }
        assert(serials(group@).take(i as int) == serials(group@));
        if !all_distinct(&names) {
            let message = concat3(
                "Duplicate serial number found in backup with UUID '",
                group.uuid.as_str(),
                "'",
            );
            return Some(Error::new(ErrorKind::ConfigurationError, message));
        }
        let mut d: usize = 0;
        while d < group.backup_devices.len()
            invariant
                d <= group.backup_devices.len(),
                serials(group@).no_duplicates(),
                copies_fault(group@.backup_devices, 0) == copies_fault(
                    group@.backup_devices,
                    d as int,
                ),
            decreases group.backup_devices.len() - d,
        {
            assert(group@.backup_devices[d as int] == group.backup_devices@[d as int]@);
            let device = &group.backup_devices[d];
            match device.copies {
                Some(copies) => {
                    if copies == 0 {
                        let message = concat3(
                            "Invalid number of copies for device with serial '",
                            device.serial.as_str(),
                            "'. Must be greater than 0.",
                        );
                        return Some(Error::new(ErrorKind::ConfigurationError, message));
                    }
                },
                None => {},
            }
            d += 1;
        }
        None
    }

    /// The directory that holds the configuration of the user whose home
    /// directory is `home`; without a home directory there is none.
    pub fn config_home_in(home: Option<String>) -> (r: Result<String, Error>)
        ensures
            match home {
                Some(h) => r matches Ok(p) && p@ == config_home(h@),
                None => r matches Err(e) && e@.kind == ErrorKind::ConfigurationError && e@.message
                    == "Failed to find Home dir"@,
            },
    {
        match home {
            Some(h) => {
                let dot = join_path(h.as_str(), ".config");
                Ok(join_path(dot.as_str(), "dd_backup"))
            },
            None => Err(
                Error::new(ErrorKind::ConfigurationError, "Failed to find Home dir".to_string()),
            ),
        }
    }

    /// The directory that holds the configuration of the current user.
    pub fn config_home_path() -> (r: Result<String, Error>)
        ensures
            match r {
                Ok(p) => exists|home: Seq<char>| p@ == config_home(home),
                Err(e) => e@.kind == ErrorKind::ConfigurationError && e@.message
                    == "Failed to find Home dir"@,
            },
    {
        Self::config_home_in(home_dir())
    }

    /// The configuration file inside the directory `home`, or the reason why
    /// there is no such directory.
    pub fn config_file_in(home: Result<String, Error>) -> (r: Result<String, Error>)
        ensures
            match home {
                Ok(dir) => r matches Ok(p) && p@ == child_path(dir@, "config.json"@),
                Err(cause) => r matches Err(e) && e@.kind == ErrorKind::ConfigurationError
                    && e@.message == "Failed reading or creating data directory -> "@
                    + cause@.message,
            },
    {
        match home {
            Ok(dir) => Ok(join_path(dir.as_str(), "config.json")),
            Err(cause) => Err(
                Error::new(
                    ErrorKind::ConfigurationError,
                    concat(
                        "Failed reading or creating data directory -> ",
                        cause.message.as_str(),
                    ),
                ),
            ),
        }
    }

    /// The path of the configuration file of the current user.
    pub fn default_config_file_path() -> (r: Result<String, Error>)
        ensures
            match r {
                Ok(p) => exists|home: Seq<char>| p@ == user_config_file(home),
                Err(e) => e@ == home_failure(),
            },
    {
        let home = Self::config_home_path();
        let ghost found = if home is Ok {
            home->Ok_0@
        } else {
            Seq::<char>::empty()
        };
        let ghost witness = choose|h: Seq<char>| found == config_home(h);
        let r = Self::config_file_in(home);
        assert(r matches Ok(p) ==> p@ == user_config_file(witness));
        r
    }

    /// The path of the configuration file of the current user.
    pub fn config_file_path() -> (r: Result<String, Error>)
        ensures
            match r {
                Ok(p) => exists|home: Seq<char>| p@ == user_config_file(home),
                Err(e) => e@ == home_failure(),
            },
    {
        Self::default_config_file_path()
    }
}

} // verus!
