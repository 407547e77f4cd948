use cold_tier::guest_ram::GuestRam;
use cold_tier::memory_runs::{CaptureStep, RestoreStep};
use cold_tier::snapshot::{
    memory_image_len, read_guest_memory_into, region_descs, write_guest_memory, MemoryRegionDesc,
    SnapshotError,
};
use vm_memory::{Bytes, GuestAddress, GuestMemoryMmap};

fn memory(ranges: &[(u64, usize)]) -> GuestMemoryMmap {
    let ranges: Vec<(GuestAddress, usize)> =
        ranges.iter().map(|&(gpa, len)| (GuestAddress(gpa), len)).collect();
    GuestMemoryMmap::from_ranges(&ranges).unwrap()
}

fn ram(mem: &GuestMemoryMmap) -> GuestRam<'_> {
    GuestRam::new(mem).unwrap()
}

fn held(mem: &GuestMemoryMmap, gpa: u64, len: usize) -> Vec<u8> {
    let mut bytes = vec![0u8; len];
    mem.read_slice(&mut bytes, GuestAddress(gpa)).unwrap();
    bytes
}

#[test]
fn test_guest_memory_snapshot_roundtrip_single_region() {
    let size = 0x20000usize; // 128 KiB
    let src: GuestMemoryMmap = GuestMemoryMmap::from_ranges(&[(GuestAddress(0), size)]).unwrap();

    // Write a recognizable, non-trivial pattern across the whole region.
    let pattern: Vec<u8> = (0..size).map(|i| (i % 251) as u8).collect();
    src.write_slice(&pattern, GuestAddress(0)).unwrap();

    // Dump to an in-memory stream.
    let mut buf = Vec::new();
    let descs = write_guest_memory(&ram(&src), &mut buf).unwrap();
    assert_eq!(descs.len(), 1);
    assert_eq!(descs[0].gpa, 0);
    assert_eq!(descs[0].len as usize, size);
    assert_eq!(buf.len(), size);
    assert_eq!(memory_image_len(&descs) as usize, size);

    // Restore into a fresh, zeroed guest memory.
    let dst: GuestMemoryMmap = GuestMemoryMmap::from_ranges(&[(GuestAddress(0), size)]).unwrap();
    read_guest_memory_into(&mut ram(&dst), &descs, &mut buf.as_slice()).unwrap();

    let mut got = vec![0u8; size];
    dst.read_slice(&mut got, GuestAddress(0)).unwrap();
    assert_eq!(got, pattern, "restored bytes must match the snapshot");
}

#[test]
fn test_guest_memory_snapshot_roundtrip_multi_region() {
    // Two regions separated by a gap in guest physical space.
    let regions = [(GuestAddress(0), 0x10000usize), (GuestAddress(0x100000), 0x8000usize)];
    let src: GuestMemoryMmap = GuestMemoryMmap::from_ranges(&regions).unwrap();
    src.write_slice(&[0xAB; 0x10000], GuestAddress(0)).unwrap();
    src.write_slice(&[0xCD; 0x8000], GuestAddress(0x100000)).unwrap();

    let mut buf = Vec::new();
    let descs = write_guest_memory(&ram(&src), &mut buf).unwrap();
    assert_eq!(descs.len(), 2);
    assert_eq!(buf.len(), 0x10000 + 0x8000);

    let dst: GuestMemoryMmap = GuestMemoryMmap::from_ranges(&regions).unwrap();
    read_guest_memory_into(&mut ram(&dst), &descs, &mut buf.as_slice()).unwrap();

    let mut got_lo = vec![0u8; 0x10000];
    let mut got_hi = vec![0u8; 0x8000];
    dst.read_slice(&mut got_lo, GuestAddress(0)).unwrap();
    dst.read_slice(&mut got_hi, GuestAddress(0x100000)).unwrap();
    assert_eq!(got_lo, vec![0xAB; 0x10000]);
    assert_eq!(got_hi, vec![0xCD; 0x8000]);
}

#[test]
fn test_short_stream_is_an_error() {
    let size = 0x4000usize;
    let descs = [MemoryRegionDesc { gpa: 0, len: size as u64 }];
    let dst: GuestMemoryMmap = GuestMemoryMmap::from_ranges(&[(GuestAddress(0), size)]).unwrap();
    // Stream has fewer bytes than the descriptor claims -> read_exact errors.
    let truncated = vec![0u8; size - 1];
    let err = read_guest_memory_into(&mut ram(&dst), &descs, &mut truncated.as_slice()).unwrap_err();
    assert_eq!(err, SnapshotError::UnexpectedEof);
}

#[test]
fn layout_is_reported_in_order_of_address() {
    let mem = memory(&[(0x1000, 0x2000), (0x8000, 0x1000)]);
    assert_eq!(ram(&mem).layout(), vec![(0x1000, 0x2000), (0x8000, 0x1000)]);
    assert_eq!(
        region_descs(&ram(&mem)),
        vec![
            MemoryRegionDesc { gpa: 0x1000, len: 0x2000 },
            MemoryRegionDesc { gpa: 0x8000, len: 0x1000 },
        ]
    );
}

#[test]
fn ranges_are_covered_where_every_byte_is_mapped() {
    let mem = memory(&[(0x1000, 0x1000), (0x2000, 0x1000), (0x4000, 0x1000)]);
    let ram = ram(&mem);
    for (gpa, len, covered) in [
        (0x1000, 0x1000, true),
        (0x1fff, 2, true),
        (0x1000, 0x2000, true),
        (0x1000, 0x2001, false),
        (0x0fff, 2, false),
        (0x3000, 0, false),
        (0x4fff, 0, true),
        (0x4fff, 2, false),
        (0x1000, u64::MAX, false),
        (u64::MAX, 1, false),
    ] {
        assert_eq!(ram.covers(gpa, len), covered, "{gpa:#x} {len:#x}");
    }
}

#[test]
fn memory_without_regions_has_an_empty_image() {
    let mem: GuestMemoryMmap = GuestMemoryMmap::new();
    let mut buf = vec![9u8];
    assert_eq!(write_guest_memory(&ram(&mem), &mut buf), Ok(vec![]));
    assert_eq!(buf, vec![9]);
    assert_eq!(memory_image_len(&[]), 0);
    let mut inp = buf.as_slice();
    assert_eq!(read_guest_memory_into(&mut ram(&mem), &[], &mut inp), Ok(()));
    assert_eq!(inp, [9]);
}

#[test]
fn capture_appends_behind_what_is_there_and_leaves_memory_alone() {
    let mem = memory(&[(0x1000, 0x1000)]);
    mem.write_slice(&[7; 0x1000], GuestAddress(0x1000)).unwrap();
    let mut buf = vec![1, 2, 3];
    let descs = write_guest_memory(&ram(&mem), &mut buf).unwrap();
    assert_eq!(descs, region_descs(&ram(&mem)));
    assert_eq!(buf[..3], [1, 2, 3]);
    assert_eq!(buf[3..], [7; 0x1000]);
    assert_eq!(held(&mem, 0x1000, 0x1000), vec![7; 0x1000]);
}

#[test]
fn restore_stores_the_regions_and_nothing_else() {
    let mem = memory(&[(0, 0x1000)]);
    mem.write_slice(&[0xee; 0x1000], GuestAddress(0)).unwrap();
    let descs = [MemoryRegionDesc { gpa: 0x10, len: 2 }, MemoryRegionDesc { gpa: 0x20, len: 1 }];
    let stream = [5u8, 6, 7, 8, 9];
    let mut inp = stream.as_slice();
    read_guest_memory_into(&mut ram(&mem), &descs, &mut inp).unwrap();
    assert_eq!(inp, [8, 9]);
    let mut expected = vec![0xee; 0x1000];
    expected[0x10] = 5;
    expected[0x11] = 6;
    expected[0x20] = 7;
    assert_eq!(held(&mem, 0, 0x1000), expected);
    assert_eq!(memory_image_len(&descs), 3);
}

#[test]
fn unmapped_region_is_named_in_the_error() {
    let mem = memory(&[(0, 0x1000)]);
    let desc = MemoryRegionDesc { gpa: 0x5000, len: 1 };
    let text = "get_host_address: InvalidGuestAddress(GuestAddress(20480))".to_string();
    // The address is looked at before the stream.
    let err = read_guest_memory_into(&mut ram(&mem), &[desc], &mut [].as_slice()).unwrap_err();
    assert_eq!(err, SnapshotError::Other(text));
    let last = MemoryRegionDesc { gpa: 0xfff, len: 0 };
    assert_eq!(read_guest_memory_into(&mut ram(&mem), &[last], &mut [].as_slice()), Ok(()));
}

#[test]
fn regions_in_front_of_a_fault_are_stored_and_no_others() {
    let mem = memory(&[(0, 0x1000)]);
    let descs = [
        MemoryRegionDesc { gpa: 0x40, len: 2 },
        MemoryRegionDesc { gpa: 0x1000, len: 1 },
        MemoryRegionDesc { gpa: 0x60, len: 1 },
    ];
    let stream = [1u8, 2, 3, 4];
    let mut inp = stream.as_slice();
    let err = read_guest_memory_into(&mut ram(&mem), &descs, &mut inp).unwrap_err();
    let text = "get_host_address: InvalidGuestAddress(GuestAddress(4096))".to_string();
    assert_eq!(err, SnapshotError::Other(text));
    assert_eq!(inp, [3, 4]);
    let mut expected = vec![0; 0x1000];
    expected[0x40] = 1;
    expected[0x41] = 2;
    assert_eq!(held(&mem, 0, 0x1000), expected);
}

#[test]
fn regions_behind_a_short_one_are_untouched() {
    let mem = memory(&[(0, 0x1000)]);
    let descs = [
        MemoryRegionDesc { gpa: 0, len: 1 },
        MemoryRegionDesc { gpa: 0x10, len: 3 },
        MemoryRegionDesc { gpa: 0x20, len: 0 },
    ];
    let stream = [9u8, 8, 7];
    let mut inp = stream.as_slice();
    let err = read_guest_memory_into(&mut ram(&mem), &descs, &mut inp).unwrap_err();
    assert_eq!(err, SnapshotError::UnexpectedEof);
    assert_eq!(inp, [8, 7]);
    let mut expected = vec![0; 0x1000];
    expected[0] = 9;
    assert_eq!(held(&mem, 0, 0x1000), expected);
}

#[test]
fn region_that_leaves_the_layout_is_not_stored() {
    let mem = memory(&[(0, 0x1000)]);
    let desc = MemoryRegionDesc { gpa: 0xfff, len: 2 };
    let stream = [1u8, 2, 3];
    let mut inp = stream.as_slice();
    let err = read_guest_memory_into(&mut ram(&mem), &[desc], &mut inp).unwrap_err();
    assert_eq!(err, SnapshotError::NotCovered(desc));
    assert_eq!(inp, [3]);
    assert_eq!(held(&mem, 0, 0x1000), vec![0; 0x1000]);
}

#[test]
fn region_may_span_adjacent_mappings() {
    let mem = memory(&[(0, 0x1000), (0x1000, 0x1000)]);
    let desc = MemoryRegionDesc { gpa: 0xfff, len: 2 };
    read_guest_memory_into(&mut ram(&mem), &[desc], &mut [0xaa, 0xbb].as_slice()).unwrap();
    let mut buf = Vec::new();
    write_guest_memory(&ram(&mem), &mut buf).unwrap();
    assert_eq!(buf[0xffe..0x1002], [0, 0xaa, 0xbb, 0]);
}

#[test]
fn capture_run_hands_out_region_by_region() {
    let mem = memory(&[(0, 0x1000), (0x4000, 0x2000)]);
    mem.write_slice(&[3; 0x2000], GuestAddress(0x4000)).unwrap();
    let ram = ram(&mem);
    let mut chunks: Vec<Vec<u8>> = Vec::new();
    let mut step: CaptureStep<'_, '_, String> = CaptureStep::start(&ram);
    let descs = loop {
        step = match step {
            CaptureStep::Append(run) => {
                chunks.push(run.bytes().to_vec());
                run.reply(Ok(()))
            }
            CaptureStep::Done(descs) => break descs,
            _ => panic!("the capture cannot fail"),
        };
    };
    assert_eq!(descs, region_descs(&ram));
    assert_eq!(chunks, vec![vec![0; 0x1000], vec![3; 0x2000]]);
    let mut image = Vec::new();
    write_guest_memory(&ram, &mut image).unwrap();
    assert_eq!(chunks.concat(), image);
}

#[test]
fn capture_run_stops_when_the_stream_does() {
    let mem = memory(&[(0, 0x1000), (0x4000, 0x2000)]);
    let ram = ram(&mem);
    match CaptureStep::<'_, '_, &str>::start(&ram) {
        CaptureStep::Append(run) => {
            assert!(matches!(run.reply(Err("full")), CaptureStep::Stopped("full")));
        }
        _ => panic!("there is a region to append"),
    }
}

#[test]
fn restore_run_asks_for_region_by_region() {
    let mem = memory(&[(0, 0x1000)]);
    let mut ram = ram(&mem);
    let descs = [MemoryRegionDesc { gpa: 0x10, len: 2 }, MemoryRegionDesc { gpa: 0x20, len: 1 }];
    let replies: [&[u8]; 2] = [&[5, 6], &[7]];
    let mut wanted = Vec::new();
    let mut step: RestoreStep<'_, String> = RestoreStep::start(&ram, &descs);
    loop {
        step = match step {
            RestoreStep::Read(run) => {
                wanted.push(run.wanted());
                run.reply(&mut ram, Ok(replies[wanted.len() - 1]))
            }
            RestoreStep::Done => break,
            _ => panic!("the restore cannot fail"),
        };
    }
    assert_eq!(wanted, vec![2, 1]);
    assert_eq!(held(&mem, 0x10, 2), vec![5, 6]);
    assert_eq!(held(&mem, 0x20, 1), vec![7]);
}

#[test]
fn restore_run_failures_store_nothing() {
    let mem = memory(&[(0, 0x1000)]);
    let mut ram = ram(&mem);
    let start = |ram: &GuestRam<'_>, gpa: u64| {
        let desc = [MemoryRegionDesc { gpa, len: 2 }];
        match RestoreStep::<'_, String>::start(ram, Box::leak(Box::new(desc))) {
            RestoreStep::Read(run) => run,
            _ => panic!("the address is mapped"),
        }
    };
    let step = start(&ram, 0).reply(&mut ram, Err("gone".to_string()));
    assert!(matches!(step, RestoreStep::Stopped(e) if e == "gone"));
    let step = start(&ram, 0).reply::<String>(&mut ram, Ok(&[1]));
    assert!(matches!(step, RestoreStep::Failed(SnapshotError::UnexpectedEof)));
    let step = start(&ram, 0xfff).reply::<String>(&mut ram, Ok(&[1, 2]));
    let desc = MemoryRegionDesc { gpa: 0xfff, len: 2 };
    assert!(matches!(step, RestoreStep::Failed(SnapshotError::NotCovered(d)) if d == desc));
    assert_eq!(held(&mem, 0, 0x1000), vec![0; 0x1000]);
}
