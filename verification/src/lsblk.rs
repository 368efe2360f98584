//! The inventory: one snapshot of the system's block devices, parted into
//! the devices that can be backed up and the filesystems that can receive
//! backups.

use vstd::prelude::*;
use crate::error::{Error, ErrorKind};
use crate::text::{opt_view, push_text};

verus! {

/// One block device as the inventory probe reports it.
#[derive(Debug)]
pub struct BlockDevice {
    /// The name of the device node.
    pub name: String,
    /// The model of the device.
    pub model: Option<String>,
    /// The serial number of the device.
    pub serial: Option<String>,
    /// The identifier of the filesystem on the device.
    pub uuid: Option<String>,
    /// Where the device is mounted, if it is.
    pub mountpoint: Option<String>,
    /// The capacity, a number followed by a unit letter.
    pub size: String,
    /// The free space, reported only while mounted.
    pub fsavail: Option<String>,
}

/// The mathematical value of a [`BlockDevice`].
pub struct BlockDeviceView {
    pub name: Seq<char>,
    pub model: Option<Seq<char>>,
    pub serial: Option<Seq<char>>,
    pub uuid: Option<Seq<char>>,
    pub mountpoint: Option<Seq<char>>,
    pub size: Seq<char>,
    pub fsavail: Option<Seq<char>>,
}

impl View for BlockDevice {
    type V = BlockDeviceView;

    open spec fn view(&self) -> BlockDeviceView {
        BlockDeviceView {
            name: self.name@,
            model: opt_view(self.model),
            serial: opt_view(self.serial),
            uuid: opt_view(self.uuid),
            mountpoint: opt_view(self.mountpoint),
            size: self.size@,
            fsavail: opt_view(self.fsavail),
        }
    }
}

impl Clone for BlockDevice {
    fn clone(&self) -> (r: Self)
        ensures
            r@ == self@,
    {
        BlockDevice {
            name: self.name.clone(),
            model: self.model.clone(),
            serial: self.serial.clone(),
            uuid: self.uuid.clone(),
            mountpoint: self.mountpoint.clone(),
            size: self.size.clone(),
            fsavail: self.fsavail.clone(),
        }
    }
}

/// The values of a list of block devices, in order.
pub open spec fn inventory(devices: Seq<BlockDevice>) -> Seq<BlockDeviceView> {
    devices.map_values(|d: BlockDevice| d@)
}

/// The entries that have an identifier under `key`, in order.
pub open spec fn identified(entries: Seq<BlockDeviceView>, key: Key) -> Seq<BlockDeviceView> {
    entries.filter(|d: BlockDeviceView| key_of(d, key) is Some)
}

/// The entries that can be backup sources, in order: those with a serial.
pub open spec fn sources(entries: Seq<BlockDeviceView>) -> Seq<BlockDeviceView> {
    identified(entries, Key::Serial)
}

/// The entries that can be backup destinations, in order: those with a
/// uuid.
pub open spec fn destinations(entries: Seq<BlockDeviceView>) -> Seq<BlockDeviceView> {
    identified(entries, Key::Uuid)
}

/// What the inventory probe printed.
#[derive(Debug)]
pub struct LsblkOutput {
    /// The list of block devices.
    pub blockdevices: Vec<BlockDevice>,
}

/// The inventory snapshot of one run.
#[derive(Debug)]
pub struct Lsblk {
    /// The entries with a serial: candidate sources.
    pub available_devices: Vec<BlockDevice>,
    /// The entries with a uuid: candidate destinations.
    pub available_filesystems: Vec<BlockDevice>,
}

/// The message for a probe that failed with `reason`.
pub open spec fn probe_failure_message(reason: Seq<char>) -> Seq<char> {
    "Failed to read JSON from lsblk: "@ + reason
}

impl Lsblk {
    /// Whether this is the snapshot that parts `output` into sources and
    /// destinations, each list in the order of the probe's output.
    pub open spec fn is_snapshot_of(&self, output: Seq<BlockDeviceView>) -> bool {
        &&& inventory(self.available_devices@) == sources(output)
        &&& inventory(self.available_filesystems@) == destinations(output)
    }

    /// Builds the snapshot from what the probe returned. A failed probe is a
    /// command failure that carries the probe's reason.
    pub fn new(captured: Result<LsblkOutput, String>) -> (r: Result<Lsblk, Error>)
        ensures
            match captured {
                Ok(output) => r matches Ok(lsblk) && lsblk.is_snapshot_of(
                    inventory(output.blockdevices@),
                ),
                Err(reason) => r matches Err(e) && e@.kind == ErrorKind::CommandExecutionFailure
                    && e@.message == probe_failure_message(reason@),
            },
    {
        match captured {
            Ok(output) => {
                let available_devices = Self::available_devices(&output);
                let available_filesystems = Self::available_filesystems(&output);
                Ok(Lsblk { available_devices, available_filesystems })
            },
            Err(reason) => {
                let mut message = "Failed to read JSON from lsblk: ".to_string();
                push_text(&mut message, reason.as_str());
                Err(Error::new(ErrorKind::CommandExecutionFailure, message))
            },
        }
    }

    /// The entries of the probe's output that have a serial, in order.
    pub fn available_devices(lsblk_output: &LsblkOutput) -> (r: Vec<BlockDevice>)
        ensures
            inventory(r@) == sources(inventory(lsblk_output.blockdevices@)),
    {
        Self::identified_by(lsblk_output, Key::Serial)
    }

    /// The entries of the probe's output that have a uuid, in order.
    pub fn available_filesystems(lsblk_output: &LsblkOutput) -> (r: Vec<BlockDevice>)
        ensures
            inventory(r@) == destinations(inventory(lsblk_output.blockdevices@)),
    {
        Self::identified_by(lsblk_output, Key::Uuid)
    }

    /// The entries of the probe's output that have an identifier under
    /// `key`, in order.
    pub fn identified_by(lsblk_output: &LsblkOutput, key: Key) -> (r: Vec<BlockDevice>)
        ensures
            inventory(r@) == identified(inventory(lsblk_output.blockdevices@), key),
    {
        let ghost all = inventory(lsblk_output.blockdevices@);
        let ghost pred = |d: BlockDeviceView| key_of(d, key) is Some;
        let mut r: Vec<BlockDevice> = Vec::new();
        let mut i: usize = 0;
        proof {
            reveal(Seq::filter);
            assert(inventory(r@) == all.take(0).filter(pred));
        }
        while i < lsblk_output.blockdevices.len()
            invariant
                i <= lsblk_output.blockdevices.len(),
                all == inventory(lsblk_output.blockdevices@),
                pred == |d: BlockDeviceView| key_of(d, key) is Some,
                inventory(r@) == all.take(i as int).filter(pred),
            decreases lsblk_output.blockdevices.len() - i,
        {
            let entry = &lsblk_output.blockdevices[i];
            proof {
                all.lemma_take_succ_push(i as int);
                all.take(i as int).lemma_filter_push(all[i as int], pred);
            }
            let identified = match key {
                Key::Serial => entry.serial.is_some(),
                Key::Uuid => entry.uuid.is_some(),
            };
            if identified {
                let ghost before = inventory(r@);
                r.push(entry.clone());
                assert(inventory(r@) == before.push(all[i as int]));
            }
            i += 1;
        }
        assert(all.take(i as int) == all);
        r
    }
}


/// The identifier by which an entry is looked up.
#[derive(Clone, Copy, Debug, PartialEq, Eq, Structural)]
pub enum Key {
    /// The serial of a device.
    Serial,
    /// The uuid of a filesystem.
    Uuid,
}

/// The identifier of an entry under a key.
pub open spec fn key_of(d: BlockDeviceView, key: Key) -> Option<Seq<char>> {
    match key {
        Key::Serial => d.serial,
        Key::Uuid => d.uuid,
    }
}

/// The entries whose identifier under `key` is `id`, in order.
pub open spec fn matching(entries: Seq<BlockDeviceView>, key: Key, id: Seq<char>) -> Seq<
    BlockDeviceView,
> {
    entries.filter(|d: BlockDeviceView| key_of(d, key) == Some(id))
}

/// The outcome of looking an identifier up in a list of entries.
#[derive(Clone, Copy, Debug, PartialEq, Eq, Structural)]
pub enum Lookup {
    /// No entry carries the identifier.
    Absent,
    /// Exactly one entry carries it: the one at this index.
    Unique(usize),
    /// More than one entry carries it.
    Ambiguous,
}

/// Looks `id` up among `entries`.
pub fn lookup(entries: &[BlockDevice], key: Key, id: &str) -> (r: Lookup)
    ensures
        match r {
            Lookup::Absent => matching(inventory(entries@), key, id@).len() == 0,
            Lookup::Unique(at) => at < entries.len() && matching(inventory(entries@), key, id@)
                == seq![entries@[at as int]@],
            Lookup::Ambiguous => matching(inventory(entries@), key, id@).len() >= 2,
        },
{
    let ghost all = inventory(entries@);
    let ghost pred = |d: BlockDeviceView| key_of(d, key) == Some(id@);
    let mut count: usize = 0;
    let mut first: usize = 0;
    let mut i: usize = 0;
    proof {
        reveal(Seq::filter);
        assert(all.take(0).filter(pred).len() == 0);
    }
    while i < entries.len()
        invariant
            i <= entries.len(),
            all == inventory(entries@),
            pred == |d: BlockDeviceView| key_of(d, key) == Some(id@),
            count == all.take(i as int).filter(pred).len(),
            count <= i,
            count >= 1 ==> first < i && all.take(i as int).filter(pred)[0] == all[first as int],
        decreases entries.len() - i,
    {
        let entry = &entries[i];
        proof {
            all.lemma_take_succ_push(i as int);
            all.take(i as int).lemma_filter_push(all[i as int], pred);
        }
        let hit = match key {
            Key::Serial => crate::text::is_text(&entry.serial, id),
            Key::Uuid => crate::text::is_text(&entry.uuid, id),
        };
        if hit {
            if count == 0 {
                first = i;
            }
            count += 1;
        }
        i += 1;
    }
    assert(all.take(i as int) == all);
    if count == 0 {
        Lookup::Absent
    } else if count == 1 {
        assert(all.filter(pred) =~= seq![all[first as int]]);
        Lookup::Unique(first)
    } else {
        Lookup::Ambiguous
    }
}


/// Where no entry carries `id`, nothing matches.
pub proof fn lemma_matching_none(entries: Seq<BlockDeviceView>, key: Key, id: Seq<char>)
    requires
        forall|j: int| 0 <= j < entries.len() ==> key_of(#[trigger] entries[j], key) != Some(id),
    ensures
        matching(entries, key, id).len() == 0,
{
    let pred = |d: BlockDeviceView| key_of(d, key) == Some(id);
    assert(entries.all(|d: BlockDeviceView| !pred(d)));
    entries.lemma_all_neg_filter_empty(pred);
}

/// Where the entry at `i` carries `id` and no other does, it is the one
/// match.
pub proof fn lemma_matching_single(
    entries: Seq<BlockDeviceView>,
    key: Key,
    id: Seq<char>,
    i: int,
)
    requires
        0 <= i < entries.len(),
        key_of(entries[i], key) == Some(id),
        forall|j: int|
            0 <= j < entries.len() && j != i ==> key_of(#[trigger] entries[j], key) != Some(id),
    ensures
        matching(entries, key, id) == seq![entries[i]],
{
    let pred = |d: BlockDeviceView| key_of(d, key) == Some(id);
    let head = entries.take(i);
    let one = seq![entries[i]];
    let tail = entries.skip(i + 1);
    assert(entries =~= head + one + tail);
    Seq::filter_distributes_over_add(head + one, tail, pred);
    Seq::filter_distributes_over_add(head, one, pred);
    assert forall|j: int| 0 <= j < head.len() implies key_of(#[trigger] head[j], key) != Some(
        id,
    ) by {
        assert(head[j] == entries[j]);
    }
    lemma_matching_none(head, key, id);
    assert forall|j: int| 0 <= j < tail.len() implies key_of(#[trigger] tail[j], key) != Some(
        id,
    ) by {
        assert(tail[j] == entries[i + 1 + j]);
    }
    lemma_matching_none(tail, key, id);
    assert(one.filter(pred) =~= one) by {
        reveal(Seq::filter);
        assert(one.drop_last().len() == 0);
        assert(one.drop_last().filter(pred).len() == 0);
        assert(pred(one.last()));
    }
    assert(head.filter(pred) + one.filter(pred) + tail.filter(pred) =~= one);
}

/// Where two entries carry `id`, several match.
pub proof fn lemma_matching_several(
    entries: Seq<BlockDeviceView>,
    key: Key,
    id: Seq<char>,
    i: int,
    j: int,
)
    requires
        0 <= i < j < entries.len(),
        key_of(entries[i], key) == Some(id),
        key_of(entries[j], key) == Some(id),
    ensures
        matching(entries, key, id).len() >= 2,
{
    let pred = |d: BlockDeviceView| key_of(d, key) == Some(id);
    let head = entries.take(j);
    let tail = entries.skip(j);
    assert(entries =~= head + tail);
    Seq::filter_distributes_over_add(head, tail, pred);
    assert(head[i] == entries[i]);
    assert(pred(head[i]));
    head.lemma_filter_contains(pred, i);
    assert(tail[0] == entries[j]);
    assert(pred(tail[0]));
    tail.lemma_filter_contains(pred, 0);
}

} // verus!
