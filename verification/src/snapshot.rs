//! Guest-memory checkpoint: guest RAM as a byte stream, and back.
//!
//! The image of a guest's memory is the bytes of its regions in region order,
//! with nothing between them. The descriptors of the regions carry the
//! addresses and lengths.

use vstd::prelude::*;
use crate::guest_ram::GuestRam;
use crate::memory_runs::{CaptureStep, RestoreStep};

verus! {

/// One guest-RAM region of a memory snapshot: where it maps in guest physical
/// address space and how many bytes it holds.
#[derive(Clone, Copy, Debug, PartialEq, Eq, Structural)]
pub struct MemoryRegionDesc {
    /// Guest physical base address of the region.
    pub gpa: u64,
    /// Region length in bytes.
    pub len: u64,
}

/// Why guest memory could not be captured or restored.
#[derive(Debug, PartialEq, Eq)]
pub enum SnapshotError {
    /// An address of the layout is not mapped; the text names it.
    Other(String),
    /// The stream ended before the region was filled.
    UnexpectedEof,
    /// Part of this range is not mapped.
    NotCovered(MemoryRegionDesc),
}

/// The descriptor of a region.
pub open spec fn desc_of(region: (u64, u64)) -> MemoryRegionDesc {
    MemoryRegionDesc { gpa: region.0, len: region.1 }
}

/// The descriptors of all regions, in region order.
pub open spec fn descs_of(regions: Seq<(u64, u64)>) -> Seq<MemoryRegionDesc> {
    regions.map_values(|r: (u64, u64)| desc_of(r))
}

/// The number of bytes of all regions together.
pub open spec fn total_len(descs: Seq<MemoryRegionDesc>) -> int
    decreases descs.len(),
{
    if descs.len() == 0 {
        0
    } else {
        total_len(descs.drop_last()) + descs.last().len
    }
}

/// Where region number `i` starts in the image.
pub open spec fn image_offset(descs: Seq<MemoryRegionDesc>, i: int) -> int {
    total_len(descs.take(i))
}

/// The bytes of region number `i` in the image.
pub open spec fn region_slice(descs: Seq<MemoryRegionDesc>, image: Seq<u8>, i: int) -> Seq<u8> {
    image.subrange(image_offset(descs, i), image_offset(descs, i + 1))
}

/// The image of regions with the given contents.
pub open spec fn image_of(contents: Seq<Seq<u8>>) -> Seq<u8>
    decreases contents.len(),
{
    if contents.len() == 0 {
        seq![]
    } else {
        image_of(contents.drop_last()) + contents.last()
    }
}

/// Whether `contents` is what reading the regions gave, from the first one on.
pub open spec fn contents_read<'a>(ram: GuestRam<'a>, contents: Seq<Seq<u8>>) -> bool {
    &&& contents.len() <= ram.regions().len()
    &&& forall|i: int|
        0 <= i < contents.len() ==> {
            &&& (#[trigger] contents[i]).len() == ram.regions()[i].1
            &&& ram.read_gave(ram.regions()[i].0, ram.regions()[i].1, contents[i])
        }
}

/// Whether `after` is `before` with the image of a guest memory behind it: what
/// reading its regions gave, in region order.
pub open spec fn image_captured<'a>(ram: GuestRam<'a>, before: Seq<u8>, after: Seq<u8>) -> bool {
    exists|contents: Seq<Seq<u8>>|
        {
            &&& #[trigger] contents_read(ram, contents)
            &&& contents.len() == ram.regions().len()
            &&& after == before + image_of(contents)
        }
}

/// What stops a restore.
pub ghost enum RestoreFault {
    /// The region starts at an address that is not mapped.
    Unmapped { gpa: u64 },
    /// The stream is shorter than the regions up to this one.
    ShortStream,
    /// Part of the region is not mapped.
    NotCovered { desc: MemoryRegionDesc },
}

/// What stops the restore of one region from `available` bytes, if anything. The
/// address is looked at first, then the stream.
pub open spec fn region_fault(
    regions: Seq<(u64, u64)>,
    desc: MemoryRegionDesc,
    available: int,
) -> Option<RestoreFault> {
    if !crate::guest_ram::address_mapped(regions, desc.gpa as int) {
        Some(RestoreFault::Unmapped { gpa: desc.gpa })
    } else if desc.len > available {
        Some(RestoreFault::ShortStream)
    } else if !crate::guest_ram::range_mapped(regions, desc.gpa as int, desc.len as int) {
        Some(RestoreFault::NotCovered { desc })
    } else {
        None
    }
}

/// What stops the restore of region number `i` from a stream of `available`
/// bytes, when the regions in front of it have taken theirs.
pub open spec fn fault_at(
    regions: Seq<(u64, u64)>,
    descs: Seq<MemoryRegionDesc>,
    available: int,
    i: int,
) -> Option<RestoreFault> {
    region_fault(regions, descs[i], available - image_offset(descs, i))
}

/// The first region from number `i` on that has a fault, or else the number of
/// regions.
pub open spec fn restored_from(
    regions: Seq<(u64, u64)>,
    descs: Seq<MemoryRegionDesc>,
    available: int,
    i: int,
) -> int
    decreases descs.len() - i,
{
    if i >= descs.len() {
        descs.len() as int
    } else if fault_at(regions, descs, available, i) is Some {
        i
    } else {
        restored_from(regions, descs, available, i + 1)
    }
}

/// How many regions a restore of `descs` from `available` bytes stores: those
/// in front of the first fault.
pub open spec fn restored_count(
    regions: Seq<(u64, u64)>,
    descs: Seq<MemoryRegionDesc>,
    available: int,
) -> int {
    restored_from(regions, descs, available, 0)
}

/// The first fault of a restore of `descs` from `available` bytes, if any.
pub open spec fn restore_fault(
    regions: Seq<(u64, u64)>,
    descs: Seq<MemoryRegionDesc>,
    available: int,
) -> Option<RestoreFault> {
    let n = restored_count(regions, descs, available);
    if n < descs.len() {
        fault_at(regions, descs, available, n)
    } else {
        None
    }
}

/// How many bytes a restore takes from the stream: those of the regions that it
/// stores, and those that it read for a region that it then found not covered.
pub open spec fn restore_taken(
    regions: Seq<(u64, u64)>,
    descs: Seq<MemoryRegionDesc>,
    available: int,
) -> int {
    let n = restored_count(regions, descs, available);
    match restore_fault(regions, descs, available) {
        Some(RestoreFault::NotCovered { desc }) => image_offset(descs, n) + desc.len,
        _ => image_offset(descs, n),
    }
}

/// The stores of the first `n` regions of `descs`, each with its bytes of
/// `image`.
pub open spec fn restore_stores(
    descs: Seq<MemoryRegionDesc>,
    image: Seq<u8>,
    n: int,
) -> Seq<(u64, Seq<u8>)> {
    Seq::new(n as nat, |i: int| (descs[i].gpa, region_slice(descs, image, i)))
}

/// Whether `r` is what a restore of `descs` from the stream `before` comes to,
/// with the stream `after` left, on a guest memory that the handle `ram` stood
/// for before and `ram_after` after: the regions in front of the first fault
/// are stored, in order, and nothing else is; and the fault is reported.
pub open spec fn restored<'a>(
    ram: GuestRam<'a>,
    ram_after: GuestRam<'a>,
    descs: Seq<MemoryRegionDesc>,
    before: Seq<u8>,
    after: Seq<u8>,
    r: Result<(), SnapshotError>,
) -> bool {
    let available = before.len() as int;
    let n = restored_count(ram.regions(), descs, available);
    &&& ram_after.regions() == ram.regions()
    &&& ram_after.stores() == ram.stores() + restore_stores(descs, before, n)
    &&& after == before.skip(restore_taken(ram.regions(), descs, available))
    &&& match restore_fault(ram.regions(), descs, available) {
        Some(fault) => r matches Err(e) && e.reports(fault),
        None => r is Ok,
    }
}

impl SnapshotError {
    /// Whether the error reports `fault`.
    pub open spec fn reports(self, fault: RestoreFault) -> bool {
        match fault {
            RestoreFault::Unmapped { gpa } => self matches SnapshotError::Other(text) && text@
                == "get_host_address: "@ + crate::guest_ram::unmapped_address_text(gpa),
            RestoreFault::ShortStream => self == SnapshotError::UnexpectedEof,
            RestoreFault::NotCovered { desc } => self == SnapshotError::NotCovered(desc),
        }
    }
}

/// The region layout of a guest memory, which the restore side needs. The
/// regions are in order of address and do not overlap.
pub fn region_descs<'a>(ram: &GuestRam<'a>) -> (descs: Vec<MemoryRegionDesc>)
    ensures
        descs@ == descs_of(ram.regions()),
        descs@.len() == ram.regions().len(),
        forall|i: int|
            0 <= i < descs@.len() ==> (#[trigger] descs@[i]).gpa == ram.regions()[i].0
                && descs@[i].len == ram.regions()[i].1,
        ram.valid(),
{
    let regions: Vec<(u64, u64)> = ram.layout();
    let mut descs: Vec<MemoryRegionDesc> = Vec::new();
    let mut i: usize = 0;
    while i < regions.len()
        invariant
            i <= regions@.len(),
            descs@ == descs_of(regions@.take(i as int)),
        decreases regions@.len() - i,
    {
        let (gpa, len): (u64, u64) = regions[i];
        descs.push(MemoryRegionDesc { gpa, len });
        i += 1;
        assert(descs@ =~= descs_of(regions@.take(i as int)));
    }
    assert(regions@.take(i as int) =~= regions@);
    descs
}

/// Appends the bytes of all guest-memory regions to `out` and returns the
/// region layout that the restore side needs. The bytes come in region order
/// with no framing, and guest memory is left as it is: a shared handle admits
/// no store.
///
/// The caller must have paused the vCPUs and drained the device workers first,
/// so that the bytes are captured at a stable boundary.
pub fn write_guest_memory<'a>(ram: &GuestRam<'a>, out: &mut Vec<u8>) -> (r: Result<
    Vec<MemoryRegionDesc>,
    SnapshotError,
>)
    ensures
        r matches Ok(descs) && descs@ == descs_of(ram.regions()),
        r matches Ok(descs) && descs@.len() == ram.regions().len() && forall|i: int|
            0 <= i < descs@.len() ==> (#[trigger] descs@[i]).gpa == ram.regions()[i].0
                && descs@[i].len == ram.regions()[i].1,
        image_captured(*ram, old(out)@, final(out)@),
        exists|contents: Seq<Seq<u8>>|
            {
                &&& contents.len() == ram.regions().len()
                &&& forall|i: int|
                    0 <= i < contents.len() ==> (#[trigger] contents[i]).len()
                        == ram.regions()[i].1 && ram.read_gave(
                        ram.regions()[i].0,
                        ram.regions()[i].1,
                        contents[i],
                    )
                &&& final(out)@ == old(out)@ + #[trigger] contents.flatten()
            },
        ram.valid(),
{
    proof {
        use_type_invariant(ram);
    }
    let ghost mut written: Seq<Seq<u8>> = seq![];
    let mut step: CaptureStep<'_, 'a, SnapshotError> = CaptureStep::start(ram);
    assert(out@ =~= old(out)@ + image_of(written));
    loop
        invariant
            ram.valid(),
            step.follows(*ram, written),
            contents_read(*ram, written),
            out@ == old(out)@ + image_of(written),
        decreases ram.regions().len() - written.len(),
    {
        match step {
            CaptureStep::Append(run) => {
                out.extend_from_slice(run.bytes());
                proof {
                    let longer = written.push(run.pending());
                    assert(longer.drop_last() =~= written);
                    assert(out@ =~= old(out)@ + image_of(longer));
                    written = longer;
                }
                step = run.reply(Ok(()));
            },
            CaptureStep::Done(descs) => {
                proof {
                    crate::memory_laws::law_captured_exactly(*ram, old(out)@, out@);
                }
                return Ok(descs);
            },
            CaptureStep::Failed(e) => {
                return Err(e);
            },
            CaptureStep::Stopped(e) => {
                return Err(e);
            },
        }
    }
}

/// Loads guest-memory bytes from `inp` back into guest memory, using the region
/// layout captured by [`write_guest_memory`]. The guest memory should have been
/// built with a layout that covers every region of `descs`.
///
/// Must be called before the restored vCPUs are resumed.
pub fn read_guest_memory_into<'a>(
    ram: &mut GuestRam<'a>,
    descs: &[MemoryRegionDesc],
    inp: &mut &[u8],
) -> (r: Result<(), SnapshotError>)
    ensures
        restored(*old(ram), *final(ram), descs@, (*old(inp))@, (*final(inp))@, r),
{
    let ghost regions = ram.regions();
    let ghost image = (*inp)@;
    let ghost mut n: int = 0;
    let mut step: RestoreStep<'_, SnapshotError> = RestoreStep::start(ram, descs);
    assert(descs@.take(0) =~= seq![]);
    assert(image.skip(0) =~= image);
    assert(ram.stores() =~= old(ram).stores() + restore_stores(descs@, image, 0));
    loop
        invariant
            0 <= n <= descs@.len(),
            regions == old(ram).regions(),
            ram.regions() == regions,
            image == (*old(inp))@,
            step.is_at(descs@, crate::memory_runs::restore_point(regions, descs@, n)),
            restored_count(regions, descs@, image.len() as int) == restored_from(
                regions,
                descs@,
                image.len() as int,
                n,
            ),
            0 <= image_offset(descs@, n) <= image.len(),
            (*inp)@ == image.skip(image_offset(descs@, n)),
            ram.stores() == old(ram).stores() + restore_stores(descs@, image, n),
        decreases descs@.len() - n,
    {
        match step {
            RestoreStep::Read(run) => {
                let len: u64 = run.wanted();
                let left: &[u8] = *inp;
                assert(descs@.take(n + 1).drop_last() =~= descs@.take(n));
                if len > left.len() as u64 {
                    return Err(SnapshotError::UnexpectedEof);
                }
                let bytes: &[u8] = vstd::slice::slice_subrange(left, 0, len as usize);
                *inp = vstd::slice::slice_subrange(left, len as usize, left.len());
                assert(bytes@ =~= region_slice(descs@, image, n));
                assert((*inp)@ =~= image.skip(image_offset(descs@, n + 1)));
                let next: RestoreStep<'_, SnapshotError> = run.reply(ram, Ok(bytes));
                proof {
                    if fault_at(regions, descs@, image.len() as int, n) is None {
                        assert(ram.stores() =~= old(ram).stores() + restore_stores(
                            descs@,
                            image,
                            n + 1,
                        ));
                        n = n + 1;
                    }
                }
                match next {
                    RestoreStep::Failed(e) => {
                        proof {
                            let available = image.len() as int;
                            assert(fault_at(regions, descs@, available, n) is Some);
                            assert(restored_from(regions, descs@, available, n) == n);
                            assert(restored_count(regions, descs@, available) == n);
                            assert(image_offset(descs@, n + 1) == image_offset(descs@, n)
                                + descs@[n].len) by {
                                assert(descs@.take(n + 1).drop_last() =~= descs@.take(n));
                            }
                        }
                        return Err(e);
                    },
                    next => {
                        step = next;
                    },
                }
            },
            RestoreStep::Done => {
                return Ok(());
            },
            RestoreStep::Failed(e) => {
                return Err(e);
            },
            RestoreStep::Stopped(e) => {
                return Err(e);
            },
        }
    }
}

/// Total byte length of all regions in a descriptor list (the size of the
/// memory image stream).
pub fn memory_image_len(descs: &[MemoryRegionDesc]) -> (n: u64)
    requires
        total_len(descs@) <= u64::MAX,
    ensures
        n == total_len(descs@),
        n == descs@.fold_left(0int, |sum: int, desc: MemoryRegionDesc| sum + desc.len),
{
    let mut n: u64 = 0;
    let mut i: usize = 0;
    assert(descs@.take(0) =~= seq![]);
    while i < descs.len()
        invariant
            i <= descs@.len(),
            n == image_offset(descs@, i as int),
            total_len(descs@) <= u64::MAX,
        decreases descs@.len() - i,
    {
        assert(descs@.take(i + 1).drop_last() =~= descs@.take(i as int));
        proof {
            lemma_image_offset_grows(descs@, i + 1, descs@.len() as int);
            assert(descs@.take(descs@.len() as int) =~= descs@);
        }
        n += descs[i].len;
        i += 1;
    }
    assert(descs@.take(i as int) =~= descs@);
    proof {
        crate::memory_laws::law_total_length_is_the_sum(descs@);
    }
    n
}

/// Regions start one behind the other.
pub proof fn lemma_image_offset_grows(descs: Seq<MemoryRegionDesc>, i: int, j: int)
    requires
        0 <= i <= j <= descs.len(),
    ensures
        0 <= image_offset(descs, i) <= image_offset(descs, j),
    decreases j,
{
    if j > 0 {
        assert(descs.take(j).drop_last() =~= descs.take(j - 1));
        if i < j {
            lemma_image_offset_grows(descs, i, j - 1);
        } else {
            lemma_image_offset_grows(descs, j - 1, j - 1);
        }
    }
}

} // verus!
