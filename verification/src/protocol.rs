//! What passes between the library and the program around it during a run.
//! The library decides and asks for an [`Action`]; the program performs it
//! and reports back with an [`Event`].

use vstd::prelude::*;
use crate::filesystem::{listed, BackupFile, BackupFileView};
use crate::lsblk::{inventory, BlockDeviceView, LsblkOutput};
use crate::text::{concat, concat3, joined, views};

verus! {

/// Something the program is asked to do.
#[derive(Debug, PartialEq, Eq)]
pub enum Action {
    /// Mount the device at the path.
    Mount { device: String, path: String },
    /// Flush pending writes.
    Sync,
    /// Unmount what is mounted at the path.
    Unmount { path: String },
    /// Tell whether a file exists at the path.
    Probe { path: String },
    /// List the directory at the path.
    List { path: String },
    /// Remove the file at the path.
    Remove { path: String },
    /// Take a fresh inventory of the block devices.
    Inventory,
    /// Copy the input device, block by block, into the output file.
    Copy { input: String, output: String },
    /// Make the invoking user and group the owners of the file.
    SetOwner { path: String },
}

/// The mathematical value of an [`Action`].
pub enum ActionView {
    Mount { device: Seq<char>, path: Seq<char> },
    Sync,
    Unmount { path: Seq<char> },
    Probe { path: Seq<char> },
    List { path: Seq<char> },
    Remove { path: Seq<char> },
    Inventory,
    Copy { input: Seq<char>, output: Seq<char> },
    SetOwner { path: Seq<char> },
}

impl View for Action {
    type V = ActionView;

    open spec fn view(&self) -> ActionView {
        match self {
            Action::Mount { device, path } => ActionView::Mount { device: device@, path: path@ },
            Action::Sync => ActionView::Sync,
            Action::Unmount { path } => ActionView::Unmount { path: path@ },
            Action::Probe { path } => ActionView::Probe { path: path@ },
            Action::List { path } => ActionView::List { path: path@ },
            Action::Remove { path } => ActionView::Remove { path: path@ },
            Action::Inventory => ActionView::Inventory,
            Action::Copy { input, output } => ActionView::Copy { input: input@, output: output@ },
            Action::SetOwner { path } => ActionView::SetOwner { path: path@ },
        }
    }
}

/// The view of an optional action.
pub open spec fn action_view(a: Option<Action>) -> Option<ActionView> {
    match a {
        Some(a) => Some(a@),
        None => None,
    }
}

/// What the program reports back.
#[derive(Debug)]
pub enum Event {
    /// Nothing has happened yet: the first event of every run.
    Start,
    /// A command ended, well or with a diagnostic: the answer to `Mount`,
    /// `Sync`, `Unmount`, `Remove`, `Copy` and `SetOwner`.
    Finished(Result<(), String>),
    /// Whether the file exists: the answer to `Probe`.
    Probed(bool),
    /// The entries of the directory, or why it could not be read: the answer
    /// to `List`.
    Listed(Result<Vec<BackupFile>, String>),
    /// The fresh inventory, or why there is none: the answer to `Inventory`.
    Inventoried(Result<LsblkOutput, String>),
}

/// The mathematical value of an [`Event`].
pub enum EventView {
    Start,
    Finished(Result<(), Seq<char>>),
    Probed(bool),
    Listed(Result<Seq<BackupFileView>, Seq<char>>),
    Inventoried(Result<Seq<BlockDeviceView>, Seq<char>>),
}

impl View for Event {
    type V = EventView;

    open spec fn view(&self) -> EventView {
        match self {
            Event::Start => EventView::Start,
            Event::Finished(Ok(_)) => EventView::Finished(Ok(())),
            Event::Finished(Err(reason)) => EventView::Finished(Err(reason@)),
            Event::Probed(exists) => EventView::Probed(*exists),
            Event::Listed(Ok(files)) => EventView::Listed(Ok(listed(files@))),
            Event::Listed(Err(reason)) => EventView::Listed(Err(reason@)),
            Event::Inventoried(Ok(output)) => EventView::Inventoried(
                Ok(inventory(output.blockdevices@)),
            ),
            Event::Inventoried(Err(reason)) => EventView::Inventoried(Err(reason@)),
        }
    }
}

/// The words of the command that performs an action, for those actions that
/// a command performs.
pub open spec fn command_words(action: ActionView) -> Option<Seq<Seq<char>>> {
    match action {
        ActionView::Mount { device, path } => Some(seq!["mount"@, device, path]),
        ActionView::Sync => Some(seq!["sync"@]),
        ActionView::Unmount { path } => Some(seq!["umount"@, path]),
        ActionView::Copy { input, output } => Some(
            seq!["dd"@, "if="@ + input, "of="@ + output, "status=progress"@],
        ),
        _ => None,
    }
}

/// Whether the command of an action is run with raised privileges where
/// that can be had: every command but the flush.
pub open spec fn wants_privileges(action: ActionView) -> bool {
    action !is Sync
}

/// The words of a command, led by `sudo` where privileges are wanted and
/// can be had.
pub open spec fn privileged(words: Seq<Seq<char>>, wanted: bool, available: bool) -> Seq<Seq<char>> {
    if wanted && available {
        seq!["sudo"@] + words
    } else {
        words
    }
}

/// The diagnostic of a command that ended badly.
pub open spec fn failure_text(words: Seq<Seq<char>>, stderr: Seq<char>) -> Seq<char> {
    "Error running "@ + joined(words, " "@) + ": "@ + stderr
}

impl Action {
    /// The words of the command that performs this action, for those
    /// actions that a command performs.
    pub fn command(&self) -> (r: Option<Vec<String>>)
        ensures
            match r {
                Some(words) => command_words(self@) == Some(views(words@)),
                None => command_words(self@) is None,
            },
    {
        let mut words: Vec<String> = Vec::new();
        match self {
            Action::Mount { device, path } => {
                words.push("mount".to_string());
                words.push(device.clone());
                words.push(path.clone());
            },
            Action::Sync => {
                words.push("sync".to_string());
            },
            Action::Unmount { path } => {
                words.push("umount".to_string());
                words.push(path.clone());
            },
            Action::Copy { input, output } => {
                words.push("dd".to_string());
                words.push(concat("if=", input.as_str()));
                words.push(concat("of=", output.as_str()));
                words.push("status=progress".to_string());
            },
            _ => {
                return None;
            },
        }
        assert(views(words@) =~= command_words(self@)->Some_0);
        Some(words)
    }

    /// Whether the command of this action is run with raised privileges
    /// where that can be had.
    pub fn is_sudo_needed(&self) -> (r: bool)
        ensures
            r == wants_privileges(self@),
    {
        match self {
            Action::Sync => false,
            _ => true,
        }
    }
}

/// The words of a command as it is run: led by `sudo` where privileges are
/// needed and `sudo` can be had.
pub fn append_sudo_if_available(
    command_parts: Vec<String>,
    is_sudo_needed: bool,
    is_sudo_available: bool,
) -> (r: Vec<String>)
    ensures
        views(r@) == privileged(views(command_parts@), is_sudo_needed, is_sudo_available),
{
    if is_sudo_needed && is_sudo_available {
        let mut words: Vec<String> = Vec::new();
        words.push("sudo".to_string());
        let mut i: usize = 0;
        while i < command_parts.len()
            invariant
                i <= command_parts.len(),
                views(words@) == seq!["sudo"@] + views(command_parts@).take(i as int),
            decreases command_parts.len() - i,
        {
            proof {
                crate::text::lemma_views_push(words@, command_parts@[i as int]);
                assert(views(command_parts@).take(i + 1) == views(command_parts@).take(
                    i as int,
                ).push(command_parts@[i as int]@));
            }
            words.push(command_parts[i].clone());
            i += 1;
        }
        assert(views(command_parts@).take(i as int) == views(command_parts@));
        words
    } else {
        command_parts
    }
}

/// The diagnostic of a command that ended badly: its words and what it
/// wrote to its error stream.
pub fn command_failure(command_parts: &Vec<String>, stderr: &str) -> (r: String)
    ensures
        r@ == failure_text(views(command_parts@), stderr@),
{
    let line = crate::text::join(command_parts, " ");
    let head = concat3("Error running ", line.as_str(), ": ");
    concat(head.as_str(), stderr)
}

/// `text` begins with `head`.
pub open spec fn begins_with(text: Seq<char>, head: Seq<char>) -> bool {
    head.len() <= text.len() && text.take(head.len() as int) == head
}

/// The line tells of a failure: of a device whose backup did not end well,
/// or of a destination that was passed over.
pub open spec fn tells_of_failure(line: Seq<char>) -> bool {
    begins_with(line, "Error performing backup: "@) || begins_with(
        line,
        "Skipping destination: "@,
    )
}

/// Whether `text` begins with `head`.
fn starts_with(text: &Vec<char>, head: &str) -> (r: bool)
    ensures
        r == begins_with(text@, head@),
{
    let start = crate::text::to_chars(head);
    if start.len() > text.len() {
        return false;
    }
    let mut i: usize = 0;
    while i < start.len()
        invariant
            i <= start.len() <= text.len(),
            start@ == head@,
            forall|k: int| 0 <= k < i ==> text@[k] == start@[k],
        decreases start.len() - i,
    {
        if text[i] != start[i] {
            assert(text@.take(start.len() as int)[i as int] == text@[i as int]);
            return false;
        }
        i += 1;
    }
    assert(text@.take(start.len() as int) =~= start@);
    true
}

/// Whether a line for the operator tells of a failure, so that it can be
/// shown as one.
pub fn is_failure_notice(line: &str) -> (r: bool)
    ensures
        r == tells_of_failure(line@),
{
    let text = crate::text::to_chars(line);
    starts_with(&text, "Error performing backup: ") || starts_with(&text, "Skipping destination: ")
}

} // verus!
