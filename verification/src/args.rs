//! The options of a run as the command line gives them, and the
//! configuration they stand for.

use vstd::prelude::*;
use crate::config::{
    config_fault,
    BackupConfig,
    BackupConfigView,
    BackupDevice,
    BackupDeviceView,
    Config,
    ConfigView,
};
use crate::error::{Error, ErrorKind, ErrorView};
use crate::text::{concat, concat3, opt_view};

verus! {

/// The options for a run that reads its configuration from a file.
#[derive(Debug, Clone)]
pub struct FileConfigArgs {
    /// The path of the configuration file; the user's own where absent.
    pub config_file_path: Option<String>,
}

/// The options for a run that backs up one device to one destination,
/// without a configuration file.
#[derive(Debug, Clone)]
pub struct SingleBackupArgs {
    /// The uuid of the destination filesystem.
    pub destination_uuid: Option<String>,
    /// The serial of the source device.
    pub source_serial: Option<String>,
    /// The directory on the destination.
    pub destination_path: Option<String>,
    /// How many backups are kept.
    pub copies: Option<usize>,
    /// The name of the device in file names.
    pub name: Option<String>,
    /// The command that checks the destination filesystem.
    pub fsck_command: String,
    /// Whether the filesystem check is left out.
    pub skip_fsck: bool,
    /// Whether the destination is taken as mounted already.
    pub skip_mount: bool,
}

/// The options of a run.
#[derive(Debug)]
pub struct BackupArgs {
    /// Go through every check, but remove and copy nothing.
    pub dry_run: bool,
    /// The options of a run from a configuration file.
    pub file_config_args: Option<FileConfigArgs>,
    /// The options of a run for a single device.
    pub single_backup_args: Option<SingleBackupArgs>,
    /// Where destinations are mounted; goes before the configuration's own.
    pub mountpath: Option<String>,
}

/// What reading the configuration file gave.
#[derive(Debug)]
pub enum Loaded {
    /// The file was read and understood.
    Parsed(Config),
    /// The file at `path` could not be opened.
    Unreadable { reason: String, path: String },
    /// The file does not hold a configuration.
    Malformed { reason: String },
    /// There is no telling where the file is.
    Unlocated { reason: String },
}

/// Where the configuration of a run comes from.
#[derive(Debug, PartialEq, Eq)]
pub enum Source {
    /// From the file at this path.
    File(String),
    /// From the configuration file of the current user.
    UserFile,
    /// From the command line alone.
    CommandLine,
}

/// The message that goes with a missing source serial.
pub open spec fn serial_needed() -> Seq<char> {
    "Source serial needs to be provided in single backup mode, like: `--source-serial x...x`"@
}

/// The message that goes with a missing destination uuid.
pub open spec fn uuid_needed() -> Seq<char> {
    "Destination UUID needs to be provided in single backup mode, like: `--destination-uuid x...x`"@
}

/// A configuration error that tells why no configuration came about.
pub open spec fn creation_failure(reason: Seq<char>) -> ErrorView {
    ErrorView {
        kind: ErrorKind::ConfigurationError,
        message: "Failed to create Config struct object: "@ + reason,
    }
}

/// A configuration error with the message as it stands.
pub open spec fn bare_failure(message: Seq<char>) -> ErrorView {
    ErrorView { kind: ErrorKind::ConfigurationError, message }
}

/// Whether the options ask for a configuration file.
pub open spec fn reads_file(args: BackupArgs) -> bool {
    args.file_config_args is Some || args.single_backup_args is None
}

/// What came of reading the file: the configuration, or why there is none.
pub open spec fn reading(loaded: Option<Loaded>) -> Result<ConfigView, Seq<char>> {
    match loaded {
        Some(Loaded::Parsed(config)) => Ok(config@),
        Some(Loaded::Unreadable { reason, path }) => Err(reason@ + ": "@ + path@),
        Some(Loaded::Malformed { reason }) => Err("Cannot parse config file -> "@ + reason@),
        Some(Loaded::Unlocated { reason }) => Err(reason@),
        None => Err("No configuration file was read"@),
    }
}

/// The configuration with the mount path of the command line, where it
/// gives one.
pub open spec fn overridden(config: ConfigView, mountpath: Option<Seq<char>>) -> ConfigView {
    ConfigView {
        mountpath: match mountpath {
            Some(p) => Some(p),
            None => config.mountpath,
        },
        ..config
    }
}

/// The configuration that stands for the options of a single backup.
pub open spec fn single_config(
    single: SingleBackupArgs,
    serial: Seq<char>,
    uuid: Seq<char>,
    mountpath: Option<Seq<char>>,
) -> ConfigView {
    ConfigView {
        mountpath: Some(
            match mountpath {
                Some(p) => p,
                None => "/mnt"@,
            },
        ),
        backups: seq![
            BackupConfigView {
                backup_devices: seq![
                    BackupDeviceView {
                        serial,
                        name: opt_view(single.name),
                        copies: single.copies,
                    },
                ],
                uuid,
                destination_path: opt_view(single.destination_path),
                fsck_command: Some(single.fsck_command@),
                skip_fsck: Some(single.skip_fsck || single.skip_mount),
                skip_mount: Some(single.skip_mount),
            },
        ],
    }
}

/// The configuration of a run, or why there is none. With options for a
/// file, or with no options at all, it is the configuration that was read,
/// if it is valid. With options for a single backup alone it is made of
/// them; the serial and the uuid must be there.
pub open spec fn configuration(args: BackupArgs, loaded: Option<Loaded>) -> Result<
    ConfigView,
    ErrorView,
> {
    if reads_file(args) {
        match reading(loaded) {
            Err(reason) => Err(creation_failure(reason)),
            Ok(config) => match config_fault(config) {
                Some(fault) => Err(creation_failure(fault)),
                None => Ok(overridden(config, opt_view(args.mountpath))),
            },
        }
    } else {
        let single = args.single_backup_args->Some_0;
        match (single.source_serial, single.destination_uuid) {
            (None, _) => Err(bare_failure(serial_needed())),
            (Some(_), None) => Err(bare_failure(uuid_needed())),
            (Some(serial), Some(uuid)) => {
                let config = single_config(single, serial@, uuid@, opt_view(args.mountpath));
                match config_fault(config) {
                    Some(fault) => Err(creation_failure(fault)),
                    None => Ok(config),
                }
            },
        }
    }
}

/// The view of a configuration or of the error in its place.
pub open spec fn configured(r: Result<Config, Error>) -> Result<ConfigView, ErrorView> {
    match r {
        Ok(c) => Ok(c@),
        Err(e) => Err(e@),
    }
}

/// The error `e` with the note that no configuration came about.
fn creation_error(e: Error) -> (r: Error)
    ensures
        r@ == creation_failure(e@.message),
{
    Error::new(
        ErrorKind::ConfigurationError,
        concat("Failed to create Config struct object: ", e.message.as_str()),
    )
}

impl Config {
    /// What came of reading the configuration file: the configuration, or
    /// the message that tells why there is none.
    pub fn read_config_file(loaded: Option<Loaded>) -> (r: Result<Config, String>)
        ensures
            match r {
                Ok(config) => reading(loaded) == Ok::<ConfigView, Seq<char>>(config@),
                Err(reason) => reading(loaded) == Err::<ConfigView, Seq<char>>(reason@),
            },
    {
        match loaded {
            Some(Loaded::Parsed(config)) => Ok(config),
            Some(Loaded::Unreadable { reason, path }) => Err(
                concat3(reason.as_str(), ": ", path.as_str()),
            ),
            Some(Loaded::Malformed { reason }) => Err(
                concat("Cannot parse config file -> ", reason.as_str()),
            ),
            Some(Loaded::Unlocated { reason }) => Err(reason),
            None => Err("No configuration file was read".to_string()),
        }
    }
}

/// Where the configuration of a run comes from: from a file where the
/// options name one or where there are no options for a single backup, from
/// the command line otherwise.
pub fn config_source(backup_args: &BackupArgs) -> (r: Source)
    ensures
        reads_file(*backup_args) <==> r != Source::CommandLine,
        match r {
            Source::File(path) => backup_args.file_config_args matches Some(f)
                && f.config_file_path matches Some(p) && p@ == path@,
            Source::UserFile => !(backup_args.file_config_args matches Some(f)
                && f.config_file_path is Some),
            Source::CommandLine => true,
        },
{
    match &backup_args.file_config_args {
        Some(file) => match &file.config_file_path {
            Some(path) => Source::File(path.clone()),
            None => Source::UserFile,
        },
        None => match &backup_args.single_backup_args {
            Some(_) => Source::CommandLine,
            None => Source::UserFile,
        },
    }
}

/// The configuration of a run, from its options and from what reading the
/// configuration file gave, where a file was to be read.
pub fn backup_args_to_config(backup_args: &BackupArgs, loaded: Option<Loaded>) -> (r: Result<
    Config,
    Error,
>)
    ensures
        configured(r) == configuration(*backup_args, loaded),
{
    let single = match (&backup_args.file_config_args, &backup_args.single_backup_args) {
        (None, Some(single)) => Some(single),
        _ => None,
    };
    match single {
        None => match Config::new(Config::read_config_file(loaded)) {
            Err(e) => Err(creation_error(e)),
            Ok(config) => {
                let Config { backups, mountpath } = config;
                let mountpath = match &backup_args.mountpath {
                    Some(p) => Some(p.clone()),
                    None => mountpath,
                };
                Ok(Config { backups, mountpath })
            },
        },
        Some(single) => single_backup_config(single, &backup_args.mountpath),
    }
}

/// The configuration that stands for the options of a single backup.
fn single_backup_config(single: &SingleBackupArgs, mountpath: &Option<String>) -> (r: Result<
    Config,
    Error,
>)
    ensures
        configured(r) == match (single.source_serial, single.destination_uuid) {
            (None, _) => Err(bare_failure(serial_needed())),
            (Some(_), None) => Err(bare_failure(uuid_needed())),
            (Some(serial), Some(uuid)) => {
                let config = single_config(*single, serial@, uuid@, opt_view(*mountpath));
                match config_fault(config) {
                    Some(fault) => Err(creation_failure(fault)),
                    None => Ok(config),
                }
            },
        },
{
    let serial = match &single.source_serial {
        Some(s) => s.clone(),
        None => {
            return Err(
                Error::new(
                    ErrorKind::ConfigurationError,
                    "Source serial needs to be provided in single backup mode, like: `--source-serial x...x`".to_string(),
                ),
            );
        },
    };
    let uuid = match &single.destination_uuid {
        Some(u) => u.clone(),
        None => {
            return Err(
                Error::new(
                    ErrorKind::ConfigurationError,
                    "Destination UUID needs to be provided in single backup mode, like: `--destination-uuid x...x`".to_string(),
                ),
            );
        },
    };
    let mounted_at = match mountpath {
        Some(p) => p.clone(),
        None => "/mnt".to_string(),
    };
    let mut backup_devices: Vec<BackupDevice> = Vec::new();
    backup_devices.push(
        BackupDevice { serial, name: single.name.clone(), copies: single.copies },
    );
    let mut backups: Vec<BackupConfig> = Vec::new();
    backups.push(
        BackupConfig {
            backup_devices,
            uuid,
            destination_path: single.destination_path.clone(),
            fsck_command: Some(single.fsck_command.clone()),
            skip_fsck: Some(single.skip_fsck || single.skip_mount),
            skip_mount: Some(single.skip_mount),
        },
    );
    let config = Config { backups, mountpath: Some(mounted_at) };
    proof {
        let expected = single_config(
            *single,
            single.source_serial->Some_0@,
            single.destination_uuid->Some_0@,
            opt_view(*mountpath),
        );
        assert(config@.backups[0].backup_devices =~= expected.backups[0].backup_devices);
        assert(config@.backups =~= expected.backups);
    }
    match Config::validate_config(Ok(config)) {
        Ok(valid) => Ok(valid),
        Err(e) => Err(creation_error(e)),
    }
}

} // verus!
