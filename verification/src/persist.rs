//! VM-level device-state aggregation for checkpoint and restore.
//!
//! Each device reports its own state; this module composes the reports into one
//! [`VmDevicesState`] and matches them to devices again on restore. Devices
//! that cannot be persisted (balloon, gpu, input, and virtio-fs, whose FUSE map
//! is a separate capability) are skipped: cold-capable guests root on a block
//! device.

use vstd::prelude::*;

verus! {

/// Device type id of a block device.
pub const TYPE_BLOCK: u32 = 2;

/// Device type id of a console.
pub const TYPE_CONSOLE: u32 = 3;

/// Device type id of an entropy source.
pub const TYPE_RNG: u32 = 4;

/// Device type id of a socket device.
pub const TYPE_VSOCK: u32 = 19;

/// Saved state of one virtqueue.
#[derive(Clone, Copy, Debug, PartialEq, Eq)]
pub struct QueueState {
    pub size: u16,
    pub ready: bool,
    pub desc_table: u64,
    pub avail_ring: u64,
    pub used_ring: u64,
    pub next_avail: u16,
    pub next_used: u16,
    pub event_idx_enabled: bool,
    pub num_added: u16,
}

/// Saved state of a console.
#[derive(Clone, Debug, PartialEq, Eq)]
pub struct ConsoleState {
    pub acked_features: u64,
    pub activated: bool,
    pub queues: Vec<Option<QueueState>>,
}

/// Saved state of a socket device.
#[derive(Clone, Debug, PartialEq, Eq)]
pub struct VsockState {
    pub cid: u64,
    pub acked_features: u64,
    pub activated: bool,
    pub queue_rx: Option<QueueState>,
    pub queue_tx: Option<QueueState>,
}

/// Saved state of an entropy source.
#[derive(Clone, Debug, PartialEq, Eq)]
pub struct RngState {
    pub acked_features: u64,
    pub queue: Option<QueueState>,
}

/// Saved state of a block device.
#[derive(Clone, Debug, PartialEq, Eq)]
pub struct BlockState {
    pub acked_features: u64,
    pub queue: Option<QueueState>,
}

/// Snapshot of a single virtio device's runtime state.
#[derive(Clone, Debug, PartialEq, Eq)]
pub enum DeviceSnapshot {
    Console(ConsoleState),
    Vsock(VsockState),
    Rng(RngState),
    Block(BlockState),
}

/// What a device is, as far as persistence tells devices apart.
#[derive(Clone, Copy, Debug, PartialEq, Eq, Structural)]
pub enum DeviceKind {
    Console,
    Vsock,
    Rng,
    Block,
    /// A device that cannot be persisted.
    Other,
}

/// A virtio device: its concrete type, with what its `save_state` reports.
#[derive(Clone, Debug, PartialEq, Eq)]
pub enum VirtioDevice {
    Console(ConsoleState),
    Vsock(VsockState),
    Rng(RngState),
    Block(BlockState),
    /// A device that cannot be persisted.
    Other,
}

impl VirtioDevice {
    /// What the device is.
    pub open spec fn spec_kind(self) -> DeviceKind {
        match self {
            VirtioDevice::Console(_) => DeviceKind::Console,
            VirtioDevice::Vsock(_) => DeviceKind::Vsock,
            VirtioDevice::Rng(_) => DeviceKind::Rng,
            VirtioDevice::Block(_) => DeviceKind::Block,
            VirtioDevice::Other => DeviceKind::Other,
        }
    }

    /// The snapshot of the device, where it can be persisted.
    pub open spec fn snapshot(self) -> Option<DeviceSnapshot> {
        match self {
            VirtioDevice::Console(s) => Some(DeviceSnapshot::Console(s)),
            VirtioDevice::Vsock(s) => Some(DeviceSnapshot::Vsock(s)),
            VirtioDevice::Rng(s) => Some(DeviceSnapshot::Rng(s)),
            VirtioDevice::Block(s) => Some(DeviceSnapshot::Block(s)),
            VirtioDevice::Other => None,
        }
    }
}

impl DeviceSnapshot {
    /// The kind of device that the snapshot belongs to.
    pub open spec fn spec_kind(self) -> DeviceKind {
        match self {
            DeviceSnapshot::Console(_) => DeviceKind::Console,
            DeviceSnapshot::Vsock(_) => DeviceKind::Vsock,
            DeviceSnapshot::Rng(_) => DeviceKind::Rng,
            DeviceSnapshot::Block(_) => DeviceKind::Block,
        }
    }

    /// The device type id of the snapshot.
    pub open spec fn spec_device_type(self) -> u32 {
        match self.spec_kind() {
            DeviceKind::Console => TYPE_CONSOLE,
            DeviceKind::Vsock => TYPE_VSOCK,
            DeviceKind::Rng => TYPE_RNG,
            _ => TYPE_BLOCK,
        }
    }

    /// The queues of the snapshot, in queue-index order.
    pub open spec fn queues(self) -> Seq<Option<QueueState>> {
        match self {
            DeviceSnapshot::Console(s) => s.queues@,
            DeviceSnapshot::Vsock(s) => seq![s.queue_rx, s.queue_tx],
            DeviceSnapshot::Rng(s) => seq![s.queue],
            DeviceSnapshot::Block(s) => seq![s.queue],
        }
    }

    /// The text of the error for a device of another kind.
    pub open spec fn mismatch_text(self) -> Seq<char> {
        match self.spec_kind() {
            DeviceKind::Console => "snapshot/device mismatch: expected Console"@,
            DeviceKind::Vsock => "snapshot/device mismatch: expected Vsock"@,
            DeviceKind::Rng => "snapshot/device mismatch: expected Rng"@,
            _ => "snapshot/device mismatch: expected Block"@,
        }
    }

    /// The virtio device type id (`TYPE_*`) this snapshot belongs to, used to
    /// match a snapshot to its transport when restoring a fresh VM.
    pub fn device_type(&self) -> (id: u32)
        ensures
            id == self.spec_device_type(),
            id == match *self {
                DeviceSnapshot::Console(_) => 3u32,
                DeviceSnapshot::Vsock(_) => 19u32,
                DeviceSnapshot::Rng(_) => 4u32,
                DeviceSnapshot::Block(_) => 2u32,
            },
    {
        match self {
            DeviceSnapshot::Console(_) => TYPE_CONSOLE,
            DeviceSnapshot::Vsock(_) => TYPE_VSOCK,
            DeviceSnapshot::Rng(_) => TYPE_RNG,
            DeviceSnapshot::Block(_) => TYPE_BLOCK,
        }
    }

    /// Negotiated feature bits to restore before re-activation.
    pub fn acked_features(&self) -> (features: u64)
        ensures
            features == match *self {
                DeviceSnapshot::Console(s) => s.acked_features,
                DeviceSnapshot::Vsock(s) => s.acked_features,
                DeviceSnapshot::Rng(s) => s.acked_features,
                DeviceSnapshot::Block(s) => s.acked_features,
            },
    {
        match self {
            DeviceSnapshot::Console(s) => s.acked_features,
            DeviceSnapshot::Vsock(s) => s.acked_features,
            DeviceSnapshot::Rng(s) => s.acked_features,
            DeviceSnapshot::Block(s) => s.acked_features,
        }
    }

    /// Per-queue saved state, in queue-index order, for rebuilding the
    /// transport's queues on re-activation.
    pub fn queue_states(&self) -> (queues: Vec<Option<QueueState>>)
        ensures
            queues@ == self.queues(),
            match *self {
                DeviceSnapshot::Console(s) => queues@ == s.queues@,
                DeviceSnapshot::Vsock(s) => queues@.len() == 2 && queues@[0] == s.queue_rx
                    && queues@[1] == s.queue_tx,
                DeviceSnapshot::Rng(s) => queues@.len() == 1 && queues@[0] == s.queue,
                DeviceSnapshot::Block(s) => queues@.len() == 1 && queues@[0] == s.queue,
            },
    {
        match self {
            DeviceSnapshot::Console(s) => copy_queues(&s.queues),
            DeviceSnapshot::Vsock(s) => vec![s.queue_rx, s.queue_tx],
            DeviceSnapshot::Rng(s) => vec![s.queue],
            DeviceSnapshot::Block(s) => vec![s.queue],
        }
    }
}

/// A copy of a list of queues.
fn copy_queues(queues: &Vec<Option<QueueState>>) -> (copy: Vec<Option<QueueState>>)
    ensures
        copy@ == queues@,
{
    let mut copy: Vec<Option<QueueState>> = Vec::new();
    let mut i: usize = 0;
    while i < queues.len()
        invariant
            i <= queues@.len(),
            copy@ == queues@.take(i as int),
        decreases queues@.len() - i,
    {
        copy.push(queues[i]);
        i += 1;
        assert(copy@ =~= queues@.take(i as int));
    }
    assert(queues@.take(i as int) =~= queues@);
    copy
}

/// Aggregate of all snapshot-supporting devices in a VM, for checkpoint and
/// restore.
#[derive(Clone, Debug, PartialEq, Eq)]
pub struct VmDevicesState {
    pub devices: Vec<DeviceSnapshot>,
}

impl Default for VmDevicesState {
    fn default() -> (state: Self)
        ensures
            state.devices@ == Seq::<DeviceSnapshot>::empty(),
    {
        VmDevicesState { devices: Vec::new() }
    }
}

/// The snapshots of the devices that can be persisted, in device order.
pub open spec fn captured(devices: Seq<VirtioDevice>) -> Seq<DeviceSnapshot>
    decreases devices.len(),
{
    if devices.len() == 0 {
        seq![]
    } else {
        let before = captured(devices.drop_last());
        match devices.last().snapshot() {
            Some(snap) => before.push(snap),
            None => before,
        }
    }
}

impl VmDevicesState {
    /// Capture all snapshot-supporting devices. The device manager calls this
    /// over its activated virtio devices, after quiescing their workers so that
    /// queue indices are at a clean boundary.
    pub fn capture(devices: Vec<VirtioDevice>) -> (state: Self)
        ensures
            state.devices@ == captured(devices@),
    {
        let mut snaps: Vec<DeviceSnapshot> = Vec::new();
        let ghost all = devices@;
        for dev in iter: devices
            invariant
                iter.seq() == all,
                snaps@ == captured(all.take(iter.index())),
        {
            let ghost n = iter.index();
            assert(all.take(n + 1).drop_last() =~= all.take(n));
            match snapshot_device(dev) {
                Some(snap) => snaps.push(snap),
                None => {},
            }
        }
        assert(all.take(all.len() as int) =~= all);
        VmDevicesState { devices: snaps }
    }
}

/// Capture one device's state if it can be persisted; `None` for the others,
/// which are skipped.
pub fn snapshot_device(dev: VirtioDevice) -> (snap: Option<DeviceSnapshot>)
    ensures
        snap == dev.snapshot(),
        match dev {
            VirtioDevice::Console(s) => snap == Some(DeviceSnapshot::Console(s)),
            VirtioDevice::Vsock(s) => snap == Some(DeviceSnapshot::Vsock(s)),
            VirtioDevice::Rng(s) => snap == Some(DeviceSnapshot::Rng(s)),
            VirtioDevice::Block(s) => snap == Some(DeviceSnapshot::Block(s)),
            VirtioDevice::Other => snap is None,
        },
{
    match dev {
        VirtioDevice::Console(s) => Some(DeviceSnapshot::Console(s)),
        VirtioDevice::Vsock(s) => Some(DeviceSnapshot::Vsock(s)),
        VirtioDevice::Rng(s) => Some(DeviceSnapshot::Rng(s)),
        VirtioDevice::Block(s) => Some(DeviceSnapshot::Block(s)),
        VirtioDevice::Other => None,
    }
}

/// Restore one device's state, matching the snapshot to the device's concrete
/// type. `restore_state` hands the state to the device. It may be called only
/// for a device of the snapshot's own kind; a mismatch is an error, with the
/// device untouched.
pub fn restore_device<F: FnOnce(&DeviceSnapshot) -> Result<(), String>>(
    dev: DeviceKind,
    snap: &DeviceSnapshot,
    restore_state: F,
) -> (r: Result<(), String>)
    requires
        dev == snap.spec_kind() ==> call_requires(restore_state, (snap,)),
    ensures
        dev == snap.spec_kind() ==> call_ensures(restore_state, (snap,), r),
        dev != snap.spec_kind() ==> (r matches Err(e) && e@ == snap.mismatch_text()),
        match (*snap, dev) {
            (DeviceSnapshot::Console(_), DeviceKind::Console) => call_ensures(
                restore_state,
                (snap,),
                r,
            ),
            (DeviceSnapshot::Vsock(_), DeviceKind::Vsock) => call_ensures(
                restore_state,
                (snap,),
                r,
            ),
            (DeviceSnapshot::Rng(_), DeviceKind::Rng) => call_ensures(restore_state, (snap,), r),
            (DeviceSnapshot::Block(_), DeviceKind::Block) => call_ensures(
                restore_state,
                (snap,),
                r,
            ),
            (DeviceSnapshot::Console(_), _) => r matches Err(e) && e@
                == "snapshot/device mismatch: expected Console"@,
            (DeviceSnapshot::Vsock(_), _) => r matches Err(e) && e@
                == "snapshot/device mismatch: expected Vsock"@,
            (DeviceSnapshot::Rng(_), _) => r matches Err(e) && e@
                == "snapshot/device mismatch: expected Rng"@,
            (DeviceSnapshot::Block(_), _) => r matches Err(e) && e@
                == "snapshot/device mismatch: expected Block"@,
        },
{
    match (snap, dev) {
        (DeviceSnapshot::Console(_), DeviceKind::Console) => restore_state(snap),
        (DeviceSnapshot::Vsock(_), DeviceKind::Vsock) => restore_state(snap),
        (DeviceSnapshot::Rng(_), DeviceKind::Rng) => restore_state(snap),
        (DeviceSnapshot::Block(_), DeviceKind::Block) => restore_state(snap),
        (DeviceSnapshot::Console(_), _) => Err(
            "snapshot/device mismatch: expected Console".to_owned(),
        ),
        (DeviceSnapshot::Vsock(_), _) => Err(
            "snapshot/device mismatch: expected Vsock".to_owned(),
        ),
        (DeviceSnapshot::Rng(_), _) => Err("snapshot/device mismatch: expected Rng".to_owned()),
        (DeviceSnapshot::Block(_), _) => Err(
            "snapshot/device mismatch: expected Block".to_owned(),
        ),
    }
}

/// A snapshot carries the state that its device reported, unchanged and whole,
/// under the kind of the device. A console gives back its own state, and so
/// does every other device that can be persisted; no other has a snapshot.
pub proof fn law_snapshot_carries_reported_state(
    console: ConsoleState,
    vsock: VsockState,
    rng: RngState,
    block: BlockState,
)
    ensures
        VirtioDevice::Console(console).snapshot() == Some(DeviceSnapshot::Console(console)),
        VirtioDevice::Vsock(vsock).snapshot() == Some(DeviceSnapshot::Vsock(vsock)),
        VirtioDevice::Rng(rng).snapshot() == Some(DeviceSnapshot::Rng(rng)),
        VirtioDevice::Block(block).snapshot() == Some(DeviceSnapshot::Block(block)),
        VirtioDevice::Other.snapshot() is None,
{
}

/// What a transport is rebuilt with, queue by queue: a console has the queues
/// that it saved, a socket device its receive queue and then its transmit
/// queue, an entropy source and a block device their one queue.
pub proof fn law_queues_by_index(
    console: ConsoleState,
    vsock: VsockState,
    rng: RngState,
    block: BlockState,
    i: int,
)
    ensures
        DeviceSnapshot::Console(console).queues().len() == console.queues@.len(),
        0 <= i < console.queues@.len() ==> DeviceSnapshot::Console(console).queues()[i]
            == console.queues@[i],
        DeviceSnapshot::Vsock(vsock).queues().len() == 2,
        DeviceSnapshot::Vsock(vsock).queues()[0] == vsock.queue_rx,
        DeviceSnapshot::Vsock(vsock).queues()[1] == vsock.queue_tx,
        DeviceSnapshot::Rng(rng).queues().len() == 1,
        DeviceSnapshot::Rng(rng).queues()[0] == rng.queue,
        DeviceSnapshot::Block(block).queues().len() == 1,
        DeviceSnapshot::Block(block).queues()[0] == block.queue,
{
}

/// The kinds, type ids and mismatch texts of the snapshots and devices.
pub proof fn law_kinds_and_type_ids(
    console: ConsoleState,
    vsock: VsockState,
    rng: RngState,
    block: BlockState,
)
    ensures
        ({
            let snap = DeviceSnapshot::Console(console);
            &&& snap.spec_kind() == DeviceKind::Console
            &&& snap.spec_device_type() == 3
            &&& snap.mismatch_text() == "snapshot/device mismatch: expected Console"@
            &&& VirtioDevice::Console(console).spec_kind() == DeviceKind::Console
        }),
        ({
            let snap = DeviceSnapshot::Vsock(vsock);
            &&& snap.spec_kind() == DeviceKind::Vsock
            &&& snap.spec_device_type() == 19
            &&& snap.mismatch_text() == "snapshot/device mismatch: expected Vsock"@
            &&& VirtioDevice::Vsock(vsock).spec_kind() == DeviceKind::Vsock
        }),
        ({
            let snap = DeviceSnapshot::Rng(rng);
            &&& snap.spec_kind() == DeviceKind::Rng
            &&& snap.spec_device_type() == 4
            &&& snap.mismatch_text() == "snapshot/device mismatch: expected Rng"@
            &&& VirtioDevice::Rng(rng).spec_kind() == DeviceKind::Rng
        }),
        ({
            let snap = DeviceSnapshot::Block(block);
            &&& snap.spec_kind() == DeviceKind::Block
            &&& snap.spec_device_type() == 2
            &&& snap.mismatch_text() == "snapshot/device mismatch: expected Block"@
            &&& VirtioDevice::Block(block).spec_kind() == DeviceKind::Block
        }),
        VirtioDevice::Other.spec_kind() == DeviceKind::Other,
{
}

/// One device more adds what it reported behind the rest, or nothing where it
/// cannot be persisted; no device, no snapshot.
pub proof fn law_capture_of_one_more(
    devices: Seq<VirtioDevice>,
    console: ConsoleState,
    vsock: VsockState,
    rng: RngState,
    block: BlockState,
)
    ensures
        captured(seq![]) == Seq::<DeviceSnapshot>::empty(),
        captured(devices.push(VirtioDevice::Console(console))) == captured(devices).push(
            DeviceSnapshot::Console(console),
        ),
        captured(devices.push(VirtioDevice::Vsock(vsock))) == captured(devices).push(
            DeviceSnapshot::Vsock(vsock),
        ),
        captured(devices.push(VirtioDevice::Rng(rng))) == captured(devices).push(
            DeviceSnapshot::Rng(rng),
        ),
        captured(devices.push(VirtioDevice::Block(block))) == captured(devices).push(
            DeviceSnapshot::Block(block),
        ),
        captured(devices.push(VirtioDevice::Other)) == captured(devices),
{
    assert(devices.push(VirtioDevice::Console(console)).drop_last() =~= devices);
    assert(devices.push(VirtioDevice::Vsock(vsock)).drop_last() =~= devices);
    assert(devices.push(VirtioDevice::Rng(rng)).drop_last() =~= devices);
    assert(devices.push(VirtioDevice::Block(block)).drop_last() =~= devices);
    assert(devices.push(VirtioDevice::Other).drop_last() =~= devices);
}

/// The device type id tells the kinds of snapshots apart, so a snapshot finds
/// its transport by the id alone.
pub proof fn law_device_type_identifies_kind(a: DeviceSnapshot, b: DeviceSnapshot)
    ensures
        a.spec_device_type() == b.spec_device_type() <==> a.spec_kind() == b.spec_kind(),
{
}

/// A snapshot never mismatches the device that it was taken from.
pub proof fn law_snapshot_matches_its_device(dev: VirtioDevice)
    ensures
        dev.snapshot() matches Some(snap) ==> snap.spec_kind() == dev.spec_kind(),
        dev.snapshot() is None <==> dev.spec_kind() == DeviceKind::Other,
{
}

/// A snapshot captured from one device is accepted by the devices of the same
/// type, a fresh one among them, and by no other; a device that cannot be
/// persisted accepts no snapshot at all.
pub proof fn law_snapshot_fits_only_its_kind(
    from: VirtioDevice,
    to: VirtioDevice,
    snap: DeviceSnapshot,
)
    requires
        from.snapshot() == Some(snap),
    ensures
        to.spec_kind() == snap.spec_kind() <==> to.spec_kind() == from.spec_kind(),
        to.snapshot() is None ==> to.spec_kind() != snap.spec_kind(),
{
}

/// Capturing keeps the order of the devices: what is captured of one group of
/// devices and then another is what is captured of each, one behind the other.
pub proof fn law_capture_keeps_order(first: Seq<VirtioDevice>, second: Seq<VirtioDevice>)
    ensures
        captured(first + second) == captured(first) + captured(second),
    decreases second.len(),
{
    if second.len() == 0 {
        assert(first + second =~= first);
        assert(captured(first) + captured(second) =~= captured(first));
    } else {
        assert((first + second).drop_last() =~= first + second.drop_last());
        law_capture_keeps_order(first, second.drop_last());
        assert(captured(first + second) =~= captured(first) + captured(second));
    }
}

/// Nothing is lost but the devices that cannot be persisted, and nothing is
/// made up: a snapshot is captured exactly where a device has it.
pub proof fn law_capture_is_complete(devices: Seq<VirtioDevice>, snap: DeviceSnapshot)
    ensures
        captured(devices).contains(snap) <==> exists|i: int|
            0 <= i < devices.len() && (#[trigger] devices[i]).snapshot() == Some(snap),
    decreases devices.len(),
{
    if devices.len() > 0 {
        let before = devices.drop_last();
        law_capture_is_complete(before, snap);
        let found = captured(before);
        let last = devices.len() - 1;
        if captured(devices).contains(snap) {
            let k = choose|k: int| 0 <= k < captured(devices).len() && captured(devices)[k] == snap;
            if k < found.len() {
                assert(found[k] == snap);
                let i = choose|i: int|
                    0 <= i < before.len() && (#[trigger] before[i]).snapshot() == Some(snap);
                assert(devices[i].snapshot() == Some(snap));
            } else {
                assert(devices[last].snapshot() == Some(snap));
            }
        }
        if exists|i: int|
            0 <= i < devices.len() && (#[trigger] devices[i]).snapshot() == Some(snap) {
            let i = choose|i: int|
                0 <= i < devices.len() && (#[trigger] devices[i]).snapshot() == Some(snap);
            if i < last {
                assert(before[i].snapshot() == Some(snap));
                let k = choose|k: int| 0 <= k < found.len() && found[k] == snap;
                assert(captured(devices)[k] == snap);
            } else {
                assert(captured(devices)[found.len() as int] == snap);
            }
        }
    }
}

} // verus!
