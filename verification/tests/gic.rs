use std::collections::BTreeMap;

use cold_tier::gic::GICDevice;
use cold_tier::kvmgicv2::{
    kvm_ioc_get_device_attr, set_irq, AttrValue, AttrWrite, DeviceError, KvmGicV2, SignalError,
    IRQ_EVENT_VALUE, KVM_DEV_TYPE_ARM_VGIC_V2,
};
use cold_tier::vgic_blob::{has_blob_tag, push_entry, read_entry, GicEntry};
use cold_tier::vgic_regs::{gicc_regs, gicd_per_irq, registers_to_save, vgic_attr, GicReg};
use cold_tier::vgic_runs::{encode_blob, GicRestore, GicSave};

/// A controller that keeps the trait's own save and restore.
struct Plain;

impl GICDevice for Plain {
    fn device_properties(&self) -> Vec<u64> {
        vec![]
    }

    fn vcpu_count(&self) -> u64 {
        1
    }

    fn fdt_compatibility(&self) -> String {
        "arm,gic-v3".to_string()
    }

    fn fdt_maint_irq(&self) -> u32 {
        9
    }

    fn version(&self) -> u32 {
        7
    }
}

/// Drives a save against a device that answers with `read`.
fn save(gic: &KvmGicV2, mut read: impl FnMut(GicReg) -> Result<u32, String>) -> Result<Vec<u8>, String> {
    let mut next = gic.save_state();
    loop {
        match next {
            GicSave::Read(run) => {
                let reg = run.register();
                next = run.reply(read(reg));
            }
            GicSave::Done(blob) => return Ok(blob),
            GicSave::Failed(error) => return Err(error),
        }
    }
}

/// Drives a restore against a device that takes entries with `write`.
fn restore(
    gic: &KvmGicV2,
    blob: &[u8],
    mut write: impl FnMut(GicEntry) -> Result<(), String>,
) -> Result<(), String> {
    let mut next = gic.restore_state(blob);
    loop {
        match next {
            GicRestore::Write(run) => {
                let entry = run.entry();
                next = run.reply(write(entry));
            }
            GicRestore::Done => return Ok(()),
            GicRestore::Failed(error) => return Err(error),
        }
    }
}

#[test]
fn controller_without_save_reports_unsupported() {
    let text = "interrupt controller does not support cold-tier save/restore".to_string();
    assert_eq!(Plain.save_state(), Err(text.clone()));
    assert_eq!(Plain.restore_state(&[1, 2, 3]), Err(text));
}

#[test]
fn get_request_number_matches_the_kernel() {
    assert_eq!(kvm_ioc_get_device_attr(), 0x4018_aee2);
    assert_eq!(core::mem::size_of::<kvm_bindings::kvm_device_attr>(), 24);
}

#[test]
fn device_type_matches_the_kernel() {
    assert_eq!(
        KVM_DEV_TYPE_ARM_VGIC_V2,
        kvm_bindings::kvm_device_type_KVM_DEV_TYPE_ARM_VGIC_V2
    );
}

#[test]
fn layout_sits_below_device_memory() {
    let gic = KvmGicV2::new(0x4000_0000, 32, 159, 4);
    assert_eq!(gic.device_properties(), vec![0x3fff_f000, 0x1000, 0x3fff_d000, 0x2000]);
    assert_eq!(gic.vcpu_count(), 4);
    assert_eq!(gic.fdt_compatibility(), "arm,gic-400");
    assert_eq!(gic.fdt_maint_irq(), 8);
    assert_eq!(gic.version(), 5);
    assert_eq!(gic.get_mmio_addr(), 0);
    assert_eq!(gic.get_mmio_size(), 0);
}

#[test]
fn setup_ends_with_initialization() {
    let gic = KvmGicV2::new(0x4000_0000, 32, 159, 4);
    assert_eq!(
        gic.setup_writes(),
        vec![
            AttrWrite { group: 0, attr: 0, value: AttrValue::Long(0x3fff_f000) },
            AttrWrite { group: 0, attr: 1, value: AttrValue::Long(0x3fff_d000) },
            AttrWrite { group: 3, attr: 0, value: AttrValue::Word(128) },
            AttrWrite { group: 4, attr: 0, value: AttrValue::Absent },
        ]
    );
}

#[test]
fn attribute_holds_index_and_offset() {
    assert_eq!(vgic_attr(0, 0x80), 0x80);
    assert_eq!(vgic_attr(3, 0xc04), 0x3_0000_0c04);
    assert_eq!(vgic_attr(255, 0xffff_ffff), 0xff_ffff_ffff);
    assert_eq!(vgic_attr(0x1234, 0x104), 0x1234_0000_0104);
    assert_eq!(vgic_attr(0xffff, 4), 0xffff_0000_0004);
    assert_eq!(vgic_attr(0x1_0000, 4), 4);
}

#[test]
fn register_read_outcomes() {
    assert_eq!(KvmGicV2::get_reg(1, 0x80, 0, 42, "unused"), Ok(42));
    assert_eq!(
        KvmGicV2::get_reg(1, 0x1_0000_0080, -1, 0, "No such device (os error 19)"),
        Err("KVM_GET_DEVICE_ATTR(group=1, attr=0x100000080): No such device (os error 19)"
            .to_string())
    );
    let (group, attr) = (123u32, 0xabcdefu64);
    assert_eq!(
        KvmGicV2::get_reg(group, attr, -5, 0, "x"),
        Err(format!("KVM_GET_DEVICE_ATTR(group={group}, attr={attr:#x}): x"))
    );
}

#[test]
fn register_write_outcomes() {
    assert_eq!(KvmGicV2::set_reg(2, 4, Ok(())), Ok(()));
    assert_eq!(
        KvmGicV2::set_reg(2, 0, Err("Invalid argument (os error 22)".to_string())),
        Err("KVM_SET_DEVICE_ATTR(group=2, attr=0x0): Invalid argument (os error 22)".to_string())
    );
}

#[test]
fn interrupt_outcomes() {
    assert_eq!(IRQ_EVENT_VALUE, 1);
    assert!(matches!(set_irq::<u8>(Some(3), Some(Ok(()))), Ok(())));
    assert!(matches!(
        set_irq::<u8>(Some(3), Some(Err(7))),
        Err(DeviceError::FailedSignalingUsedQueue(SignalError::Write(7)))
    ));
    match set_irq::<u8>(None, None) {
        Err(DeviceError::FailedSignalingUsedQueue(SignalError::NotFound(text))) => {
            assert_eq!(text, "EventFd not set up for irq line")
        }
        _ => panic!("a line without an event cannot be raised"),
    }
}

#[test]
fn register_tables() {
    let families: Vec<(u32, u32, bool)> = gicd_per_irq()
        .iter()
        .map(|f| (f.offset, f.bits_per_irq, f.spi_only))
        .collect();
    assert_eq!(
        families,
        vec![
            (0x080, 1, false),
            (0x400, 8, false),
            (0x800, 8, true),
            (0xc00, 2, false),
            (0x100, 1, false),
            (0x200, 1, false),
            (0x300, 1, false),
        ]
    );
    assert_eq!(gicc_regs(), [0x00, 0x04, 0x08, 0x1c, 0xd0, 0xd4, 0xd8, 0xdc]);
}

#[test]
fn smallest_save_order() {
    // No interrupt fills a word: only the CPU interface and the control
    // register are left.
    let regs = registers_to_save(3, 1);
    let mut expected: Vec<GicReg> = [0x00, 0x04, 0x08, 0x1c, 0xd0, 0xd4, 0xd8, 0xdc]
        .iter()
        .map(|&attr| GicReg { group: 2, attr })
        .collect();
    expected.push(GicReg { group: 1, attr: 0 });
    assert_eq!(regs, expected);
    assert_eq!(registers_to_save(0, 0), vec![GicReg { group: 1, attr: 0 }]);
}

#[test]
fn banked_words_once_per_vcpu_and_shared_words_once() {
    let regs = registers_to_save(64, 2);
    let dist = |attr: u64| GicReg { group: 1, attr };
    // Group words: word 0 is banked, word 1 is shared.
    assert_eq!(regs[..3], [dist(0x80), dist(0x1_0000_0080), dist(0x84)]);
    // Then the priority words, 8 banked and 8 shared.
    assert_eq!(regs[3..5], [dist(0x400), dist(0x1_0000_0400)]);
    assert_eq!(regs[19], dist(0x420));
    // Then the target words, shared ones only.
    assert_eq!(regs[27], dist(0x820));
    assert_eq!(regs[35], dist(0xc00));
    // Per 32 interrupts: 1 + 8 + 2 + 3 banked words for each vCPU, and
    // 1 + 8 + 8 + 2 + 3 shared ones; 8 CPU-interface words per vCPU; control.
    assert_eq!(regs.len(), 2 * 14 + 22 + 2 * 8 + 1);
    assert_eq!(*regs.last().unwrap(), dist(0));
}

#[test]
fn no_register_occurs_twice() {
    let regs = registers_to_save(1020, 8);
    let mut seen: Vec<(u32, u64)> = regs.iter().map(|r| (r.group, r.attr)).collect();
    seen.sort();
    seen.dedup();
    assert_eq!(seen.len(), regs.len());
}

#[test]
fn configuration_comes_before_enable_and_control_last() {
    let regs = registers_to_save(128, 2);
    let offset = |r: &GicReg| r.attr & 0xffff_ffff;
    let enable = regs.iter().position(|r| r.group == 1 && (0x100..0x200).contains(&offset(r)));
    let config = regs.iter().rposition(|r| {
        r.group == 1 && (offset(r) >= 0x400 || (0x80..0x100).contains(&offset(r)))
    });
    let active = regs.iter().rposition(|r| r.group == 1 && (0x300..0x400).contains(&offset(r)));
    let cpu = regs.iter().position(|r| r.group == 2);
    assert!(config < enable);
    assert!(active < cpu);
    let control = regs.iter().position(|r| r.group == 1 && offset(r) == 0);
    assert_eq!(control, Some(regs.len() - 1));
}

#[test]
fn entry_bytes_are_little_endian() {
    let mut out = vec![0xee];
    push_entry(&mut out, 0x0403_0201, 0x0c0b_0a09_0807_0605, 0x100f_0e0d);
    assert_eq!(out, vec![0xee, 1, 2, 3, 4, 5, 6, 7, 8, 9, 10, 11, 12, 13, 14, 15, 16]);
    assert_eq!(
        read_entry(&out, 1),
        GicEntry { group: 0x0403_0201, attr: 0x0c0b_0a09_0807_0605, val: 0x100f_0e0d }
    );
}

#[test]
fn blob_tag_is_checked() {
    assert!(has_blob_tag(b"GV2\x01"));
    assert!(has_blob_tag(b"GV2\x01rest"));
    assert!(!has_blob_tag(b"GV2"));
    assert!(!has_blob_tag(b"GV3\x01"));
    assert!(!has_blob_tag(b"GV2\x02"));
}

#[test]
fn blob_of_registers_and_values() {
    let regs = vec![GicReg { group: 1, attr: 0x80 }, GicReg { group: 2, attr: 4 }];
    let blob = encode_blob(&regs, &vec![5, 6]);
    assert_eq!(blob[..4], *b"GV2\x01");
    assert_eq!(blob.len(), 36);
    assert_eq!(read_entry(&blob, 4), GicEntry { group: 1, attr: 0x80, val: 5 });
    assert_eq!(read_entry(&blob, 20), GicEntry { group: 2, attr: 4, val: 6 });
}

#[test]
fn accepted_blob_is_the_encoding_of_its_entries() {
    let mut blob = b"GV2\x01".to_vec();
    blob.extend((0..48u8).map(|i| i.wrapping_mul(37).wrapping_add(200)));
    let mut again = b"GV2\x01".to_vec();
    for pos in [4, 20, 36] {
        let e = read_entry(&blob, pos);
        push_entry(&mut again, e.group, e.attr, e.val);
    }
    assert_eq!(again, blob);
}

#[test]
fn restore_replays_what_save_read() {
    let gic = KvmGicV2::new(0x4000_0000, 32, 159, 2);
    let mut asked = Vec::new();
    let mut device = BTreeMap::new();
    let blob = save(&gic, |reg| {
        let val = asked.len() as u32 * 3 + 1;
        asked.push(reg);
        device.insert((reg.group, reg.attr), val);
        Ok(val)
    })
    .unwrap();
    assert_eq!(asked, registers_to_save(128, 2));
    assert_eq!(blob.len(), 4 + 16 * asked.len());

    let mut written = Vec::new();
    let mut fresh = BTreeMap::new();
    restore(&gic, &blob, |e| {
        written.push(GicReg { group: e.group, attr: e.attr });
        fresh.insert((e.group, e.attr), e.val);
        Ok(())
    })
    .unwrap();
    assert_eq!(written, asked);
    assert_eq!(fresh, device);
}

#[test]
fn save_stops_at_the_first_failed_read() {
    let gic = KvmGicV2::new(0x4000_0000, 32, 159, 2);
    let mut reads = 0;
    let result = save(&gic, |_| {
        reads += 1;
        if reads == 5 {
            Err("fifth".to_string())
        } else {
            Ok(0)
        }
    });
    assert_eq!(result, Err("fifth".to_string()));
    assert_eq!(reads, 5);
}

#[test]
fn restore_stops_at_the_first_failed_write() {
    let gic = KvmGicV2::new(0x4000_0000, 32, 159, 2);
    let blob = save(&gic, |_| Ok(0)).unwrap();
    let mut writes = 0;
    let result = restore(&gic, &blob, |_| {
        writes += 1;
        if writes == 3 {
            Err("third".to_string())
        } else {
            Ok(())
        }
    });
    assert_eq!(result, Err("third".to_string()));
    assert_eq!(writes, 3);
}

#[test]
fn restore_refuses_another_tag() {
    let gic = KvmGicV2::new(0x4000_0000, 32, 159, 2);
    let refused =
        "gicv2 restore: blob tag mismatch (snapshot from a different GIC version?)".to_string();
    for blob in [&b""[..], b"GV2", b"GV3\x01", b"GV3\x01aaaabbbbbbbbcccc"] {
        let result = restore(&gic, blob, |_| panic!("nothing may be written"));
        assert_eq!(result, Err(refused.clone()));
    }
}

#[test]
fn restore_refuses_trailing_bytes() {
    let gic = KvmGicV2::new(0x4000_0000, 32, 159, 2);
    let mut blob = b"GV2\x01".to_vec();
    push_entry(&mut blob, 1, 0x80, 9);
    blob.push(0);
    let mut written = Vec::new();
    let result = restore(&gic, &blob, |e| {
        written.push(e);
        Ok(())
    });
    assert_eq!(result, Err("gicv2 restore: trailing bytes in blob".to_string()));
    // The whole entries in front of them are written first.
    assert_eq!(written, vec![GicEntry { group: 1, attr: 0x80, val: 9 }]);
    assert_eq!(restore(&gic, b"GV2\x01", |_| panic!("no entry")), Ok(()));
}
