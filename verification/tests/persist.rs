use cold_tier::persist::{
    restore_device, snapshot_device, BlockState, ConsoleState, DeviceKind, DeviceSnapshot,
    QueueState, RngState, VirtioDevice, VmDevicesState, VsockState,
};

fn queue(next_avail: u16) -> QueueState {
    QueueState {
        size: 256,
        ready: true,
        desc_table: 0x1000,
        avail_ring: 0x2000,
        used_ring: 0x3000,
        next_avail,
        next_used: 41,
        event_idx_enabled: true,
        num_added: 7,
    }
}

fn console() -> ConsoleState {
    ConsoleState {
        acked_features: 0xABCD,
        activated: true,
        queues: vec![Some(queue(1)), None, Some(queue(2))],
    }
}

fn vsock() -> VsockState {
    VsockState {
        cid: 7,
        acked_features: 0x1234,
        activated: true,
        queue_rx: Some(queue(3)),
        queue_tx: None,
    }
}

fn rng() -> RngState {
    RngState { acked_features: 0x9, queue: Some(queue(4)) }
}

fn block() -> BlockState {
    BlockState { acked_features: 0x77, queue: Some(queue(5)) }
}

fn snapshots() -> Vec<DeviceSnapshot> {
    vec![
        DeviceSnapshot::Console(console()),
        DeviceSnapshot::Vsock(vsock()),
        DeviceSnapshot::Rng(rng()),
        DeviceSnapshot::Block(block()),
    ]
}

#[test]
fn device_types() {
    let types: Vec<u32> = snapshots().iter().map(|s| s.device_type()).collect();
    assert_eq!(types, vec![3, 19, 4, 2]);
}

#[test]
fn features() {
    let features: Vec<u64> = snapshots().iter().map(|s| s.acked_features()).collect();
    assert_eq!(features, vec![0xABCD, 0x1234, 0x9, 0x77]);
}

#[test]
fn queues_in_index_order() {
    let queues: Vec<Vec<Option<QueueState>>> =
        snapshots().iter().map(|s| s.queue_states()).collect();
    assert_eq!(
        queues,
        vec![
            vec![Some(queue(1)), None, Some(queue(2))],
            vec![Some(queue(3)), None],
            vec![Some(queue(4))],
            vec![Some(queue(5))],
        ]
    );
}

#[test]
fn unsupported_devices_have_no_snapshot() {
    assert_eq!(snapshot_device(VirtioDevice::Other), None);
    assert_eq!(snapshot_device(VirtioDevice::Rng(rng())), Some(DeviceSnapshot::Rng(rng())));
}

#[test]
fn capture_skips_unsupported_devices_and_keeps_order() {
    let state = VmDevicesState::capture(vec![
        VirtioDevice::Other,
        VirtioDevice::Console(console()),
        VirtioDevice::Vsock(vsock()),
        VirtioDevice::Other,
        VirtioDevice::Rng(rng()),
        VirtioDevice::Block(block()),
    ]);
    assert_eq!(state, VmDevicesState { devices: snapshots() });
    assert_eq!(VmDevicesState::capture(vec![VirtioDevice::Other]), VmDevicesState::default());
}

#[test]
fn restore_hands_the_snapshot_to_a_device_of_its_kind() {
    let kinds = [DeviceKind::Console, DeviceKind::Vsock, DeviceKind::Rng, DeviceKind::Block];
    for (kind, snap) in kinds.into_iter().zip(snapshots()) {
        let result = restore_device(kind, &snap, |s| {
            assert_eq!(*s, snap);
            Ok(())
        });
        assert_eq!(result, Ok(()));
        let result = restore_device(kind, &snap, |_| Err("device busy".to_string()));
        assert_eq!(result, Err("device busy".to_string()));
    }
}

#[test]
fn restore_refuses_a_device_of_another_kind() {
    let names = ["Console", "Vsock", "Rng", "Block"];
    let kinds = [
        DeviceKind::Console,
        DeviceKind::Vsock,
        DeviceKind::Rng,
        DeviceKind::Block,
        DeviceKind::Other,
    ];
    for (i, snap) in snapshots().iter().enumerate() {
        for (k, kind) in kinds.into_iter().enumerate() {
            if i != k {
                let result = restore_device(kind, snap, |_| panic!("not for this device"));
                let expected = format!("snapshot/device mismatch: expected {}", names[i]);
                assert_eq!(result, Err(expected));
            }
        }
    }
}
