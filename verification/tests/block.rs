use cold_tier::block::{
    create_qcow2_overlay, queue_config, runtime_error_text, Error, ImageType, OverlayRequest,
    OverlayStep, QueueConfig, SyncMode, CONFIG_SPACE_SIZE, NUM_QUEUES, SECTOR_SHIFT, SECTOR_SIZE,
};

#[test]
fn image_types_by_number() {
    assert_eq!(ImageType::try_from(0), Ok(ImageType::Raw));
    assert_eq!(ImageType::try_from(1), Ok(ImageType::Qcow2));
    assert_eq!(ImageType::try_from(2), Ok(ImageType::Vmdk));
    assert_eq!(ImageType::try_from(3), Err(()));
    assert_eq!(ImageType::try_from(u32::MAX), Err(()));
}

#[test]
fn sync_modes_by_number() {
    assert_eq!(SyncMode::try_from(0), Ok(SyncMode::NoSync));
    assert_eq!(SyncMode::try_from(1), Ok(SyncMode::Relaxed));
    assert_eq!(SyncMode::try_from(2), Ok(SyncMode::Full));
    assert_eq!(SyncMode::try_from(3), Err(()));
    assert_eq!(SyncMode::default(), SyncMode::Full);
}

#[test]
fn device_layout() {
    assert_eq!(CONFIG_SPACE_SIZE, 8);
    assert_eq!(NUM_QUEUES, 1);
    assert_eq!(SECTOR_SIZE, 1u64 << SECTOR_SHIFT);
    assert_eq!(SECTOR_SIZE, 512);
    assert_eq!(queue_config(), [QueueConfig { size: 256 }]);
}

#[test]
fn errors_carry_their_causes() {
    let io = Error::GetFileMetadata(std::io::Error::other("gone"));
    assert!(format!("{io:?}").contains("gone"));
    let memory = Error::GuestMemory(vm_memory::GuestMemoryError::InvalidBackendAddress);
    assert_eq!(format!("{memory:?}"), "GuestMemory(InvalidBackendAddress)");
}

fn request() -> OverlayRequest {
    OverlayRequest {
        overlay_path: "/tmp/overlay.qcow2".to_string(),
        backing_path: "/images/base.raw".to_string(),
        backing_format: "raw".to_string(),
        size: 1 << 30,
    }
}

fn start() -> OverlayStep<String> {
    create_qcow2_overlay("/tmp/overlay.qcow2", "/images/base.raw", 1 << 30)
}

#[test]
fn overlay_steps_in_order() {
    let step = start();
    assert!(matches!(&step, OverlayStep::TruncateFile(r) if *r == request()));
    let step = step.reply(Ok(()));
    assert!(matches!(&step, OverlayStep::OpenFile(r) if *r == request()));
    let step = step.reply(Ok(()));
    assert!(matches!(&step, OverlayStep::StartRuntime(r) if *r == request()));
    let step = step.reply(Ok(()));
    assert!(matches!(&step, OverlayStep::WriteImage(r) if *r == request()));
    let step = step.reply(Ok(()));
    assert!(matches!(&step, OverlayStep::Done));
    assert!(matches!(step.reply(Err("late".to_string())), OverlayStep::Done));
}

#[test]
fn overlay_stops_at_the_first_failure() {
    for failing in 0..4 {
        let mut step = start();
        for _ in 0..failing {
            step = step.reply(Ok(()));
        }
        step = step.reply(Err("first".to_string()));
        step = step.reply(Ok(()));
        step = step.reply(Err("second".to_string()));
        assert!(matches!(&step, OverlayStep::Failed(e) if e == "first"));
    }
}

#[test]
fn runtime_failure_text() {
    assert_eq!(runtime_error_text("no threads"), "tokio runtime: no threads");
}
