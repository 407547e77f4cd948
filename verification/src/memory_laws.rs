//! What captures and restores of guest memory guarantee together.

use vstd::prelude::*;
use crate::guest_ram::GuestRam;
use crate::memory_runs::CaptureStep;
use crate::snapshot::{MemoryRegionDesc, SnapshotError};

verus! {

/// Whether `contents` gives each region of `descs` as many bytes as it holds.
pub open spec fn contents_fit(descs: Seq<MemoryRegionDesc>, contents: Seq<Seq<u8>>) -> bool {
    &&& contents.len() == descs.len()
    &&& forall|i: int| 0 <= i < descs.len() ==> (#[trigger] contents[i]).len() == descs[i].len
}

/// The size of the image is the length of the descriptor list.
pub proof fn law_image_length(descs: Seq<MemoryRegionDesc>, contents: Seq<Seq<u8>>)
    requires
        contents_fit(descs, contents),
    ensures
        crate::snapshot::image_of(contents).len() == crate::snapshot::total_len(descs),
    decreases descs.len(),
{
    if descs.len() > 0 {
        law_image_length(descs.drop_last(), contents.drop_last());
    }
}

/// An image gives back what it was made from: under the descriptors of its
/// regions, the bytes of each region are found in it whole and unchanged,
/// whatever follows the image.
pub proof fn law_image_round_trip(
    descs: Seq<MemoryRegionDesc>,
    contents: Seq<Seq<u8>>,
    rest: Seq<u8>,
    i: int,
)
    requires
        contents_fit(descs, contents),
        0 <= i < descs.len(),
    ensures
        crate::snapshot::region_slice(descs, crate::snapshot::image_of(contents) + rest, i)
            == contents[i],
    decreases descs.len(),
{
    let image = crate::snapshot::image_of(contents);
    let n = descs.len() - 1;
    law_image_length(descs, contents);
    law_image_length(descs.drop_last(), contents.drop_last());
    assert(descs.take(descs.len() as int) =~= descs);
    assert(descs.take(n) =~= descs.drop_last());
    let slice = crate::snapshot::region_slice(descs, image + rest, i);
    if i == n {
        assert(slice =~= contents.last());
    } else {
        let before = crate::snapshot::image_of(contents.drop_last());
        law_image_round_trip(descs.drop_last(), contents.drop_last(), contents.last() + rest, i);
        assert(descs.drop_last().take(i) =~= descs.take(i));
        assert(descs.drop_last().take(i + 1) =~= descs.take(i + 1));
        assert(image + rest =~= before + (contents.last() + rest));
    }
}

/// The descriptors of a guest memory come in order of address, and no two of
/// them overlap.
pub proof fn law_descriptors_increase(regions: Seq<(u64, u64)>, i: int, j: int)
    requires
        crate::guest_ram::valid_layout(regions),
        0 <= i < j < regions.len(),
    ensures
        crate::snapshot::descs_of(regions)[i].gpa < crate::snapshot::descs_of(regions)[j].gpa,
        crate::snapshot::descs_of(regions)[i].gpa + crate::snapshot::descs_of(regions)[i].len
            <= crate::snapshot::descs_of(regions)[j].gpa,
{
    assert(regions[i].1 > 0);
    assert(regions[i].0 + regions[i].1 <= regions[j].0);
}

/// One region ends where the next one starts in the image.
proof fn lemma_offset_step(descs: Seq<MemoryRegionDesc>, i: int)
    requires
        0 <= i < descs.len(),
    ensures
        crate::snapshot::image_offset(descs, i + 1) == crate::snapshot::image_offset(descs, i)
            + descs[i].len,
        0 <= crate::snapshot::image_offset(descs, i),
{
    assert(descs.take(i + 1).drop_last() =~= descs.take(i));
    crate::snapshot::lemma_image_offset_grows(descs, 0, i);
}

/// The regions from number `i` on that lie in front of the first fault.
proof fn lemma_restored_from(
    regions: Seq<(u64, u64)>,
    descs: Seq<MemoryRegionDesc>,
    available: int,
    i: int,
    k: int,
)
    requires
        0 <= i <= descs.len(),
    ensures
        i <= crate::snapshot::restored_from(regions, descs, available, i) <= descs.len(),
        i <= k < crate::snapshot::restored_from(regions, descs, available, i)
            ==> crate::snapshot::fault_at(regions, descs, available, k) is None,
        crate::snapshot::restored_from(regions, descs, available, i) < descs.len()
            ==> crate::snapshot::fault_at(
            regions,
            descs,
            available,
            crate::snapshot::restored_from(regions, descs, available, i),
        ) is Some,
    decreases descs.len() - i,
{
    if i < descs.len() && crate::snapshot::fault_at(regions, descs, available, i) is None {
        lemma_restored_from(regions, descs, available, i + 1, k);
    }
}

/// A restore gets exactly as far as its first fault: the regions in front of it
/// have none, and a restore without a fault stores every region.
pub proof fn law_restore_stops_at_first_fault(
    regions: Seq<(u64, u64)>,
    descs: Seq<MemoryRegionDesc>,
    available: int,
    k: int,
)
    ensures
        0 <= crate::snapshot::restored_count(regions, descs, available) <= descs.len(),
        crate::snapshot::restore_fault(regions, descs, available) is None
            <==> crate::snapshot::restored_count(regions, descs, available) == descs.len(),
        0 <= k < crate::snapshot::restored_count(regions, descs, available)
            ==> crate::snapshot::fault_at(regions, descs, available, k) is None,
{
    lemma_restored_from(regions, descs, available, 0, k);
}

/// The regions that a restore stores fit into the stream.
proof fn lemma_restored_fits(
    regions: Seq<(u64, u64)>,
    descs: Seq<MemoryRegionDesc>,
    available: int,
    n: int,
)
    requires
        0 <= available,
        0 <= n <= crate::snapshot::restored_count(regions, descs, available),
    ensures
        n <= descs.len(),
        0 <= crate::snapshot::image_offset(descs, n) <= available,
{
    lemma_restored_from(regions, descs, available, 0, n - 1);
    if n > 0 {
        lemma_offset_step(descs, n - 1);
    } else {
        assert(descs.take(0) =~= seq![]);
    }
}

/// A stream that is shorter than its layout never restores.
pub proof fn law_short_stream_is_an_error(
    regions: Seq<(u64, u64)>,
    descs: Seq<MemoryRegionDesc>,
    available: int,
)
    requires
        0 <= available < crate::snapshot::total_len(descs),
    ensures
        crate::snapshot::restore_fault(regions, descs, available) is Some,
{
    law_restore_stops_at_first_fault(regions, descs, available, 0);
    if crate::snapshot::restore_fault(regions, descs, available) is None {
        lemma_restored_fits(regions, descs, available, descs.len() as int);
        assert(descs.take(descs.len() as int) =~= descs);
    }
}

/// Where every region of the list is mapped throughout, a restore fails exactly
/// on a stream that is shorter than the list, and as a short stream. Otherwise
/// it takes the image from the stream and leaves what follows.
pub proof fn law_covered_layout_restores(
    regions: Seq<(u64, u64)>,
    descs: Seq<MemoryRegionDesc>,
    available: int,
)
    requires
        0 <= available,
        forall|i: int|
            0 <= i < descs.len() ==> crate::guest_ram::range_mapped(
                regions,
                (#[trigger] descs[i]).gpa as int,
                descs[i].len as int,
            ),
    ensures
        crate::snapshot::restore_fault(regions, descs, available)
            == if available < crate::snapshot::total_len(descs) {
            Some(crate::snapshot::RestoreFault::ShortStream)
        } else {
            None
        },
        available >= crate::snapshot::total_len(descs) ==> crate::snapshot::restore_taken(
            regions,
            descs,
            available,
        ) == crate::snapshot::total_len(descs),
{
    let n = crate::snapshot::restored_count(regions, descs, available);
    law_restore_stops_at_first_fault(regions, descs, available, 0);
    lemma_restored_from(regions, descs, available, 0, 0);
    assert(descs.take(descs.len() as int) =~= descs);
    if n < descs.len() {
        assert(crate::guest_ram::range_mapped(
            regions,
            descs[n].gpa as int,
            descs[n].len as int,
        ));
        lemma_offset_step(descs, n);
        crate::snapshot::lemma_image_offset_grows(descs, n + 1, descs.len() as int);
    } else {
        lemma_restored_fits(regions, descs, available, n);
    }
}

/// The regions of a layout are mapped throughout in it.
proof fn lemma_own_layout_covered(regions: Seq<(u64, u64)>, i: int)
    requires
        crate::guest_ram::no_empty_region(regions),
        0 <= i < regions.len(),
    ensures
        crate::guest_ram::range_mapped(regions, regions[i].0 as int, regions[i].1 as int),
{
    assert(regions[i].1 > 0);
    assert forall|a: int|
        regions[i].0 <= a < regions[i].0
            + regions[i].1 implies #[trigger] crate::guest_ram::address_mapped(regions, a) by {
        assert(regions[i].0 <= a);
    }
    assert(crate::guest_ram::address_mapped(regions, regions[i].0 as int));
}

/// What a capture read fits the layout.
proof fn lemma_captured_fits<'a>(ram: GuestRam<'a>, contents: Seq<Seq<u8>>)
    requires
        crate::snapshot::contents_read(ram, contents),
        contents.len() == ram.regions().len(),
    ensures
        contents_fit(crate::snapshot::descs_of(ram.regions()), contents),
{
}

/// A captured image has the length of its layout and restores into that layout:
/// the bytes that a capture appends are as many as the descriptors say, and a
/// restore from them, with whatever follows, meets no fault and takes exactly
/// them.
pub proof fn law_captured_image_restores<'a>(
    ram: GuestRam<'a>,
    before: Seq<u8>,
    after: Seq<u8>,
    rest: int,
)
    requires
        ram.valid(),
        crate::snapshot::image_captured(ram, before, after),
        0 <= rest,
    ensures
        ({
            let descs = crate::snapshot::descs_of(ram.regions());
            let available = after.len() - before.len() + rest;
            &&& after.len() - before.len() == crate::snapshot::total_len(descs)
            &&& crate::snapshot::restore_fault(ram.regions(), descs, available) is None
            &&& crate::snapshot::restored_count(ram.regions(), descs, available) == descs.len()
            &&& crate::snapshot::restore_taken(ram.regions(), descs, available) == after.len()
                - before.len()
        }),
{
    let descs = crate::snapshot::descs_of(ram.regions());
    let available = after.len() - before.len() + rest;
    let contents = choose|contents: Seq<Seq<u8>>|
        {
            &&& #[trigger] crate::snapshot::contents_read(ram, contents)
            &&& contents.len() == ram.regions().len()
            &&& after == before + crate::snapshot::image_of(contents)
        };
    lemma_captured_fits(ram, contents);
    law_image_length(descs, contents);
    assert forall|i: int| 0 <= i < descs.len() implies crate::guest_ram::range_mapped(
        ram.regions(),
        (#[trigger] descs[i]).gpa as int,
        descs[i].len as int,
    ) by {
        lemma_own_layout_covered(ram.regions(), i);
    }
    law_covered_layout_restores(ram.regions(), descs, available);
    law_restore_stops_at_first_fault(ram.regions(), descs, available, 0);
}

/// The byte at `a` once `stores` are made, one after the other and no others, to
/// a memory that held `before`.
pub open spec fn byte_after(
    before: spec_fn(int) -> u8,
    stores: Seq<(u64, Seq<u8>)>,
    a: int,
) -> u8
    decreases stores.len(),
{
    if stores.len() == 0 {
        before(a)
    } else {
        let (gpa, bytes) = stores.last();
        if gpa <= a < gpa + bytes.len() {
            bytes[a - gpa]
        } else {
            byte_after(before, stores.drop_last(), a)
        }
    }
}

/// Whether `a` lies in the region of `desc`.
pub open spec fn in_region(desc: MemoryRegionDesc, a: int) -> bool {
    desc.gpa <= a < desc.gpa + desc.len
}

/// Whether no address lies in two of the first `n` regions.
pub open spec fn regions_disjoint(descs: Seq<MemoryRegionDesc>, n: int) -> bool {
    forall|i: int, j: int, a: int|
        0 <= i < j < n && #[trigger] in_region(descs[i], a) ==> !#[trigger] in_region(descs[j], a)
}

/// The stores of one region more.
proof fn lemma_stores_step(descs: Seq<MemoryRegionDesc>, image: Seq<u8>, n: int)
    requires
        0 < n <= descs.len(),
        crate::snapshot::image_offset(descs, n) <= image.len(),
    ensures
        crate::snapshot::restore_stores(descs, image, n).drop_last()
            == crate::snapshot::restore_stores(descs, image, n - 1),
        crate::snapshot::restore_stores(descs, image, n).last() == (
            descs[n - 1].gpa,
            crate::snapshot::region_slice(descs, image, n - 1),
        ),
        crate::snapshot::region_slice(descs, image, n - 1).len() == descs[n - 1].len,
        crate::snapshot::image_offset(descs, n - 1) <= image.len(),
        0 <= crate::snapshot::image_offset(descs, n - 1),
{
    lemma_offset_step(descs, n - 1);
    assert(crate::snapshot::restore_stores(descs, image, n).drop_last()
        =~= crate::snapshot::restore_stores(descs, image, n - 1));
}

/// After a restore, each region that it stored holds its bytes of the image,
/// where the regions do not overlap and nobody else writes.
pub proof fn law_restored_regions_hold_their_bytes(
    before: spec_fn(int) -> u8,
    descs: Seq<MemoryRegionDesc>,
    image: Seq<u8>,
    n: int,
    i: int,
    a: int,
)
    requires
        0 <= i < n <= descs.len(),
        crate::snapshot::image_offset(descs, n) <= image.len(),
        regions_disjoint(descs, n),
        in_region(descs[i], a),
    ensures
        byte_after(before, crate::snapshot::restore_stores(descs, image, n), a)
            == image[crate::snapshot::image_offset(descs, i) + (a - descs[i].gpa)],
    decreases n,
{
    lemma_stores_step(descs, image, n);
    if i < n - 1 {
        assert(!in_region(descs[n - 1], a));
        law_restored_regions_hold_their_bytes(before, descs, image, n - 1, i, a);
    } else {
        lemma_offset_step(descs, i);
        let slice = crate::snapshot::region_slice(descs, image, i);
        assert(slice[a - descs[i].gpa] == image[crate::snapshot::image_offset(descs, i) + (a
            - descs[i].gpa)]);
    }
}

/// A restore leaves every byte outside the regions that it stored as it was.
pub proof fn law_other_bytes_are_unchanged(
    before: spec_fn(int) -> u8,
    descs: Seq<MemoryRegionDesc>,
    image: Seq<u8>,
    n: int,
    a: int,
)
    requires
        0 <= n <= descs.len(),
        crate::snapshot::image_offset(descs, n) <= image.len(),
        forall|i: int| 0 <= i < n ==> !in_region(#[trigger] descs[i], a),
    ensures
        byte_after(before, crate::snapshot::restore_stores(descs, image, n), a) == before(a),
    decreases n,
{
    if n > 0 {
        lemma_stores_step(descs, image, n);
        assert(!in_region(descs[n - 1], a));
        law_other_bytes_are_unchanged(before, descs, image, n - 1, a);
    }
}

/// Whether every read of a guest memory gives what `source` holds, as it does
/// while the vCPUs are paused.
pub open spec fn reads_give<'a>(ram: GuestRam<'a>, source: spec_fn(int) -> u8) -> bool {
    forall|gpa: u64, len: u64, bytes: Seq<u8>, k: int|
        #[trigger] ram.read_gave(gpa, len, bytes) && 0 <= k < bytes.len() ==> #[trigger] bytes[k] == source(
            gpa + k,
        )
}

/// Restored memory equals the captured one: where a guest memory was captured
/// while it held `source`, and the image, with whatever follows it, was
/// restored to a memory of the same layout that held `before`, every mapped
/// address of that memory holds what the source held there, and no other byte
/// has changed.
pub proof fn law_restored_memory_equals_captured<'a>(
    from: GuestRam<'a>,
    source: spec_fn(int) -> u8,
    image: Seq<u8>,
    rest: Seq<u8>,
    before: spec_fn(int) -> u8,
    a: int,
)
    requires
        from.valid(),
        reads_give(from, source),
        crate::snapshot::image_captured(from, seq![], image),
    ensures
        byte_after(
            before,
            crate::snapshot::restore_stores(
                crate::snapshot::descs_of(from.regions()),
                image + rest,
                from.regions().len() as int,
            ),
            a,
        ) == if crate::guest_ram::address_mapped(from.regions(), a) {
            source(a)
        } else {
            before(a)
        },
{
    let regions = from.regions();
    let descs = crate::snapshot::descs_of(regions);
    let n = regions.len() as int;
    let contents = choose|contents: Seq<Seq<u8>>|
        {
            &&& #[trigger] crate::snapshot::contents_read(from, contents)
            &&& contents.len() == regions.len()
            &&& image == seq![] + crate::snapshot::image_of(contents)
        };
    assert(image =~= crate::snapshot::image_of(contents));
    lemma_captured_fits(from, contents);
    law_image_length(descs, contents);
    assert(descs.take(n) =~= descs);
    if crate::guest_ram::address_mapped(regions, a) {
        let i = choose|i: int|
            0 <= i < regions.len() && (#[trigger] regions[i]).0 <= a < regions[i].0 + regions[i].1;
        assert forall|j: int, k: int, b: int|
            0 <= j < k < n && #[trigger] in_region(descs[j], b) implies !#[trigger] in_region(
            descs[k],
            b,
        ) by {
            law_descriptors_increase(regions, j, k);
        }
        assert(in_region(descs[i], a));
        law_restored_regions_hold_their_bytes(before, descs, image + rest, n, i, a);
        law_image_round_trip(descs, contents, rest, i);
        lemma_offset_step(descs, i);
        crate::snapshot::lemma_image_offset_grows(descs, i + 1, n);
        let slice = crate::snapshot::region_slice(descs, image + rest, i);
        assert(slice[a - regions[i].0] == (image + rest)[crate::snapshot::image_offset(descs, i)
            + (a - regions[i].0)]);
        assert(contents[i][a - regions[i].0] == source(regions[i].0 + (a - regions[i].0)));
    } else {
        assert forall|i: int| 0 <= i < n implies !in_region(#[trigger] descs[i], a) by {
            assert(!(regions[i].0 <= a < regions[i].0 + regions[i].1));
        }
        law_other_bytes_are_unchanged(before, descs, image + rest, n, a);
    }
}

/// A capture over a stream agrees with one into memory: when all regions are
/// appended, what was appended is the captured image.
pub proof fn law_capture_run_agrees<'a>(
    ram: GuestRam<'a>,
    written: Seq<Seq<u8>>,
    before: Seq<u8>,
)
    requires
        crate::snapshot::contents_read(ram, written),
        written.len() == ram.regions().len(),
    ensures
        crate::snapshot::image_captured(ram, before, before + crate::snapshot::image_of(written)),
{
}

/// The outcomes of the reads of the first `n` regions of an image.
pub open spec fn image_replies(
    descs: Seq<MemoryRegionDesc>,
    image: Seq<u8>,
    n: int,
) -> Seq<Option<Seq<u8>>> {
    Seq::new(n as nat, |i: int| Some(crate::snapshot::region_slice(descs, image, i)))
}

/// A restore over a stream agrees with one from memory: fed the bytes of the
/// image region by region, it makes the same stores up to the first fault.
pub proof fn law_restore_run_agrees(
    regions: Seq<(u64, u64)>,
    descs: Seq<MemoryRegionDesc>,
    image: Seq<u8>,
    stores: Seq<(u64, Seq<u8>)>,
    n: int,
)
    requires
        0 <= n <= crate::snapshot::restored_count(regions, descs, image.len() as int),
    ensures
        crate::memory_runs::restore_replies(
            regions,
            descs,
            crate::memory_runs::RestoreModel {
                point: crate::memory_runs::restore_point(regions, descs, 0),
                stores,
            },
            image_replies(descs, image, n),
        ) == (crate::memory_runs::RestoreModel {
            point: crate::memory_runs::restore_point(regions, descs, n),
            stores: stores + crate::snapshot::restore_stores(descs, image, n),
        }),
    decreases n,
{
    let replies = image_replies(descs, image, n);
    if n == 0 {
        assert(stores + crate::snapshot::restore_stores(descs, image, 0) =~= stores);
    } else {
        law_restore_run_agrees(regions, descs, image, stores, n - 1);
        assert(replies.drop_last() =~= image_replies(descs, image, n - 1));
        lemma_restored_from(regions, descs, image.len() as int, 0, n - 1);
        lemma_restored_fits(regions, descs, image.len() as int, n);
        lemma_stores_step(descs, image, n);
        assert(stores + crate::snapshot::restore_stores(descs, image, n) =~= (stores
            + crate::snapshot::restore_stores(descs, image, n - 1)).push(
            crate::snapshot::restore_stores(descs, image, n).last(),
        ));
    }
}

/// A restore over a stream ends as one from memory does: behind the last region
/// that can be stored it is done, has failed with the fault, or waits for bytes
/// that the stream does not hold, or for the bytes of a region that it then
/// finds not covered, without storing them.
pub proof fn law_restore_run_ends_alike(
    regions: Seq<(u64, u64)>,
    descs: Seq<MemoryRegionDesc>,
    image: Seq<u8>,
    stores: Seq<(u64, Seq<u8>)>,
)
    ensures
        ({
            let n = crate::snapshot::restored_count(regions, descs, image.len() as int);
            let point = crate::memory_runs::restore_point(regions, descs, n);
            let waits = crate::memory_runs::RestorePoint::Read { n };
            match crate::snapshot::restore_fault(regions, descs, image.len() as int) {
                None => point == crate::memory_runs::RestorePoint::Done,
                Some(crate::snapshot::RestoreFault::Unmapped { gpa }) => point
                    == (crate::memory_runs::RestorePoint::Failed {
                    fault: crate::snapshot::RestoreFault::Unmapped { gpa },
                }),
                Some(crate::snapshot::RestoreFault::ShortStream) => {
                    &&& point == waits
                    &&& crate::snapshot::image_offset(descs, n + 1) > image.len()
                },
                Some(crate::snapshot::RestoreFault::NotCovered { desc }) => {
                    &&& point == waits
                    &&& crate::memory_runs::restore_reply(
                        regions,
                        descs,
                        crate::memory_runs::RestoreModel { point, stores },
                        Some(crate::snapshot::region_slice(descs, image, n)),
                    ) == (crate::memory_runs::RestoreModel {
                        point: crate::memory_runs::RestorePoint::Failed {
                            fault: crate::snapshot::RestoreFault::NotCovered { desc },
                        },
                        stores,
                    })
                },
            }
        }),
{
    let available = image.len() as int;
    let n = crate::snapshot::restored_count(regions, descs, available);
    lemma_restored_from(regions, descs, available, 0, 0);
    lemma_restored_fits(regions, descs, available, n);
    if n < descs.len() {
        lemma_offset_step(descs, n);
    }
}

/// The total length of a descriptor list is the sum of the lengths, region by
/// region: that of the regions of two lists, one behind the other, is the sum
/// of theirs, and one region counts with its own length.
pub proof fn law_total_length_is_the_sum(descs: Seq<MemoryRegionDesc>)
    ensures
        crate::snapshot::total_len(descs) == descs.fold_left(
            0int,
            |sum: int, desc: MemoryRegionDesc| sum + desc.len,
        ),
        descs.len() == 0 ==> crate::snapshot::total_len(descs) == 0,
        descs.len() > 0 ==> crate::snapshot::total_len(descs) == crate::snapshot::total_len(
            descs.drop_last(),
        ) + descs[descs.len() - 1].len,
    decreases descs.len(),
{
    if descs.len() > 0 {
        law_total_length_is_the_sum(descs.drop_last());
    }
}

/// The lengths of the first `i` regions together.
pub open spec fn len_sum(descs: Seq<MemoryRegionDesc>, i: int) -> int {
    descs.take(i).fold_left(0int, |sum: int, desc: MemoryRegionDesc| sum + desc.len)
}

/// The image holds the regions one behind the other: the first at its start,
/// and each next one behind the bytes of those before it.
pub proof fn law_image_offsets(descs: Seq<MemoryRegionDesc>, image: Seq<u8>, i: int)
    requires
        0 <= i <= descs.len(),
    ensures
        crate::snapshot::image_offset(descs, i) == len_sum(descs, i),
        crate::snapshot::image_offset(descs, 0) == 0,
        i < descs.len() ==> crate::snapshot::image_offset(descs, i + 1)
            == crate::snapshot::image_offset(descs, i) + descs[i].len,
        i < descs.len() ==> crate::snapshot::region_slice(descs, image, i) == image.subrange(
            len_sum(descs, i),
            len_sum(descs, i + 1),
        ),
{
    law_total_length_is_the_sum(descs.take(i));
    assert(descs.take(0) =~= seq![]);
    if i < descs.len() {
        law_total_length_is_the_sum(descs.take(i + 1));
        lemma_offset_step(descs, i);
    }
}

/// An image is the concatenation of the contents of its regions.
pub proof fn law_image_is_the_concatenation(contents: Seq<Seq<u8>>)
    ensures
        crate::snapshot::image_of(contents) == contents.flatten(),
    decreases contents.len(),
{
    contents.lemma_flatten_and_flatten_alt_are_equivalent();
    if contents.len() > 0 {
        law_image_is_the_concatenation(contents.drop_last());
        contents.drop_last().lemma_flatten_and_flatten_alt_are_equivalent();
    }
}

/// What a capture promises, over the regions and the bytes alone: behind what
/// was there stands, for every region in turn, as many bytes as the region
/// holds, and they are what reading it gave.
pub proof fn law_captured_exactly<'a>(ram: GuestRam<'a>, before: Seq<u8>, after: Seq<u8>)
    requires
        crate::snapshot::image_captured(ram, before, after),
    ensures
        exists|contents: Seq<Seq<u8>>|
            {
                &&& contents.len() == ram.regions().len()
                &&& forall|i: int|
                    0 <= i < contents.len() ==> (#[trigger] contents[i]).len()
                        == ram.regions()[i].1 && ram.read_gave(
                        ram.regions()[i].0,
                        ram.regions()[i].1,
                        contents[i],
                    )
                &&& after == before + #[trigger] contents.flatten()
            },
{
    let contents = choose|contents: Seq<Seq<u8>>|
        {
            &&& #[trigger] crate::snapshot::contents_read(ram, contents)
            &&& contents.len() == ram.regions().len()
            &&& after == before + crate::snapshot::image_of(contents)
        };
    law_image_is_the_concatenation(contents);
}

/// The descriptors of a layout are its regions, one for one and in order.
pub proof fn law_descriptors_of_regions(regions: Seq<(u64, u64)>, i: int)
    ensures
        crate::snapshot::descs_of(regions).len() == regions.len(),
        0 <= i < regions.len() ==> crate::snapshot::descs_of(regions)[i].gpa == regions[i].0
            && crate::snapshot::descs_of(regions)[i].len == regions[i].1,
{
}

/// What a restore promises, over the descriptors, the stream and the stores
/// alone. The stores made before stay as they are. To them are added those of
/// the first so many regions, each mapped throughout, at the address of the
/// region and with the bytes of the stream behind those of the regions before
/// it. It is all regions exactly where the result is `Ok`. Otherwise the next
/// region has the fault that the error names. The stream is left behind the
/// bytes that were taken.
pub proof fn law_restored_exactly<'a>(
    ram: GuestRam<'a>,
    ram_after: GuestRam<'a>,
    descs: Seq<MemoryRegionDesc>,
    before: Seq<u8>,
    after: Seq<u8>,
    r: Result<(), SnapshotError>,
)
    requires
        crate::snapshot::restored(ram, ram_after, descs, before, after, r),
    ensures
        ({
            let made = ram.stores().len() as int;
            let n = ram_after.stores().len() - made;
            &&& ram_after.regions() == ram.regions()
            &&& 0 <= n <= descs.len()
            &&& forall|i: int|
                0 <= i < made ==> #[trigger] ram_after.stores()[i] == ram.stores()[i]
            &&& forall|i: int|
                0 <= i < n ==> {
                    &&& crate::guest_ram::range_mapped(
                        ram.regions(),
                        (#[trigger] descs[i]).gpa as int,
                        descs[i].len as int,
                    )
                    &&& 0 <= len_sum(descs, i)
                    &&& len_sum(descs, i + 1) == len_sum(descs, i) + descs[i].len
                    &&& len_sum(descs, i + 1) <= before.len()
                    &&& ram_after.stores()[made + i].0 == descs[i].gpa
                    &&& ram_after.stores()[made + i].1 == before.subrange(
                        len_sum(descs, i),
                        len_sum(descs, i + 1),
                    )
                }
            &&& r is Ok <==> n == descs.len()
            &&& match r {
                Ok(_) => after == before.skip(len_sum(descs, n)),
                Err(SnapshotError::UnexpectedEof) => {
                    &&& crate::guest_ram::address_mapped(ram.regions(), descs[n].gpa as int)
                    &&& len_sum(descs, n + 1) > before.len()
                    &&& after == before.skip(len_sum(descs, n))
                },
                Err(SnapshotError::Other(text)) => {
                    &&& !crate::guest_ram::address_mapped(ram.regions(), descs[n].gpa as int)
                    &&& text@ == "get_host_address: "@ + ("InvalidGuestAddress(GuestAddress("@
                        + crate::text::decimal(descs[n].gpa as nat) + "))"@)
                    &&& after == before.skip(len_sum(descs, n))
                },
                Err(SnapshotError::NotCovered(desc)) => {
                    &&& desc == descs[n]
                    &&& crate::guest_ram::address_mapped(ram.regions(), desc.gpa as int)
                    &&& !crate::guest_ram::range_mapped(
                        ram.regions(),
                        desc.gpa as int,
                        desc.len as int,
                    )
                    &&& len_sum(descs, n + 1) <= before.len()
                    &&& after == before.skip(len_sum(descs, n + 1))
                },
            }
        }),
{
    let available = before.len() as int;
    let regions = ram.regions();
    let made = ram.stores().len() as int;
    let n = crate::snapshot::restored_count(regions, descs, available);
    lemma_restored_from(regions, descs, available, 0, 0);
    lemma_restored_fits(regions, descs, available, n);
    law_image_offsets(descs, before, n);
    if n < descs.len() {
        law_image_offsets(descs, before, n + 1);
    }
    assert(ram_after.stores().len() == made + n);
    assert forall|i: int| 0 <= i < n implies {
        &&& crate::guest_ram::range_mapped(
            regions,
            (#[trigger] descs[i]).gpa as int,
            descs[i].len as int,
        )
        &&& 0 <= len_sum(descs, i)
        &&& len_sum(descs, i + 1) == len_sum(descs, i) + descs[i].len
        &&& len_sum(descs, i + 1) <= before.len()
        &&& ram_after.stores()[made + i].0 == descs[i].gpa
        &&& ram_after.stores()[made + i].1 == before.subrange(
            len_sum(descs, i),
            len_sum(descs, i + 1),
        )
    } by {
        lemma_restored_from(regions, descs, available, 0, i);
        lemma_restored_fits(regions, descs, available, i);
        lemma_restored_fits(regions, descs, available, i + 1);
        law_image_offsets(descs, before, i);
        law_image_offsets(descs, before, i + 1);
        assert(ram_after.stores()[made + i] == crate::snapshot::restore_stores(
            descs,
            before,
            n,
        )[i]);
    }
}

/// A restore into a layout that covers the regions, from a stream that holds
/// the image, succeeds and is complete: exactly as many stores as regions are
/// added, each at its region's address and with its bytes of the stream, and
/// the stream is shorter by the image.
pub proof fn law_covered_restore_is_complete<'a>(
    ram: GuestRam<'a>,
    ram_after: GuestRam<'a>,
    descs: Seq<MemoryRegionDesc>,
    before: Seq<u8>,
    after: Seq<u8>,
    r: Result<(), SnapshotError>,
)
    requires
        crate::snapshot::restored(ram, ram_after, descs, before, after, r),
        forall|i: int|
            0 <= i < descs.len() ==> crate::guest_ram::range_mapped(
                ram.regions(),
                (#[trigger] descs[i]).gpa as int,
                descs[i].len as int,
            ),
        len_sum(descs, descs.len() as int) <= before.len(),
    ensures
        r is Ok,
        ram_after.stores().len() == ram.stores().len() + descs.len(),
        forall|i: int|
            0 <= i < descs.len() ==> {
                &&& ram_after.stores()[ram.stores().len() + i].0 == (#[trigger] descs[i]).gpa
                &&& ram_after.stores()[ram.stores().len() + i].1 == before.subrange(
                    len_sum(descs, i),
                    len_sum(descs, i + 1),
                )
            },
        after.len() == before.len() - len_sum(descs, descs.len() as int),
        after == before.skip(len_sum(descs, descs.len() as int)),
{
    law_restored_exactly(ram, ram_after, descs, before, after, r);
    let n = ram_after.stores().len() - ram.stores().len();
    let last = descs.len() as int;
    law_image_offsets(descs, before, last);
    crate::snapshot::lemma_image_offset_grows(descs, 0, last);
    if n < last {
        assert(crate::guest_ram::range_mapped(
            ram.regions(),
            descs[n].gpa as int,
            descs[n].len as int,
        ));
        law_image_offsets(descs, before, n + 1);
        crate::snapshot::lemma_image_offset_grows(descs, n + 1, last);
        assert(false);
    }
}

/// A restore without a fault makes every address of every region hold its byte
/// of the stream, where the regions do not overlap, and changes no byte outside
/// them; this from what the restore promises, on a memory that held `held` and
/// that nobody else writes to.
pub proof fn law_restored_memory_holds_the_image<'a>(
    ram: GuestRam<'a>,
    ram_after: GuestRam<'a>,
    descs: Seq<MemoryRegionDesc>,
    before: Seq<u8>,
    after: Seq<u8>,
    held: spec_fn(int) -> u8,
    i: int,
    a: int,
)
    requires
        crate::snapshot::restored(ram, ram_after, descs, before, after, Ok(())),
        forall|j: int, k: int, b: int|
            0 <= j < k < descs.len() && #[trigger] in_region(descs[j], b) ==> !#[trigger] in_region(
                descs[k],
                b,
            ),
    ensures
        0 <= i < descs.len() && descs[i].gpa <= a < descs[i].gpa + descs[i].len ==> byte_after(
            held,
            ram_after.stores().skip(ram.stores().len() as int),
            a,
        ) == before[len_sum(descs, i) + (a - descs[i].gpa)],
        (forall|j: int|
            0 <= j < descs.len() ==> !((#[trigger] descs[j]).gpa <= a < descs[j].gpa
                + descs[j].len)) ==> byte_after(
            held,
            ram_after.stores().skip(ram.stores().len() as int),
            a,
        ) == held(a),
{
    let n = descs.len() as int;
    law_restored_exactly(ram, ram_after, descs, before, after, Ok(()));
    let added = ram_after.stores().skip(ram.stores().len() as int);
    let stores = crate::snapshot::restore_stores(descs, before, n);
    assert forall|j: int| 0 <= j < n implies #[trigger] added[j] == stores[j] by {
        law_image_offsets(descs, before, j);
        assert(descs[j].gpa == ram_after.stores()[ram.stores().len() + j].0);
    }
    assert(added =~= stores);
    law_image_offsets(descs, before, n);
    if n > 0 {
        assert(len_sum(descs, n - 1 + 1) <= before.len()) by {
            assert(descs[n - 1].gpa == ram_after.stores()[ram.stores().len() + (n - 1)].0);
        }
    } else {
        assert(descs.take(0) =~= seq![]);
    }
    if 0 <= i < n && in_region(descs[i], a) {
        law_restored_regions_hold_their_bytes(held, descs, before, n, i, a);
        law_image_offsets(descs, before, i);
    }
    if forall|j: int|
        0 <= j < descs.len() ==> !((#[trigger] descs[j]).gpa <= a < descs[j].gpa + descs[j].len) {
        assert forall|j: int| 0 <= j < n implies !in_region(#[trigger] descs[j], a) by {}
        law_other_bytes_are_unchanged(held, descs, before, n, a);
    }
}

/// A capture and a restore, by what they promise: an image captured from a
/// guest memory that held `source`, restored to one of the same layout that
/// held `held`, succeeds, is used up, and leaves every mapped address with what
/// the source held there, and every other byte as it was.
pub proof fn law_capture_and_restore<'a>(
    from: GuestRam<'a>,
    image: Seq<u8>,
    source: spec_fn(int) -> u8,
    to: GuestRam<'a>,
    to_after: GuestRam<'a>,
    after: Seq<u8>,
    r: Result<(), SnapshotError>,
    held: spec_fn(int) -> u8,
    a: int,
)
    requires
        from.valid(),
        reads_give(from, source),
        crate::snapshot::image_captured(from, seq![], image),
        to.regions() == from.regions(),
        crate::snapshot::restored(
            to,
            to_after,
            crate::snapshot::descs_of(from.regions()),
            image,
            after,
            r,
        ),
    ensures
        r is Ok,
        after.len() == 0,
        crate::guest_ram::address_mapped(from.regions(), a) ==> byte_after(
            held,
            to_after.stores().skip(to.stores().len() as int),
            a,
        ) == source(a),
        !crate::guest_ram::address_mapped(from.regions(), a) ==> byte_after(
            held,
            to_after.stores().skip(to.stores().len() as int),
            a,
        ) == held(a),
{
    let descs = crate::snapshot::descs_of(from.regions());
    let n = descs.len() as int;
    law_captured_image_restores(from, seq![], image, 0);
    law_restored_memory_equals_captured(from, source, image, seq![], held, a);
    assert(image + seq![] =~= image);
    let stores = crate::snapshot::restore_stores(descs, image, n);
    assert(to_after.stores().skip(to.stores().len() as int) =~= stores);
}

/// A point of a capture over a stream: while regions are left, the next one is
/// handed out with as many bytes as it holds, which reading it gave; then the
/// capture is done with the layout.
pub proof fn law_capture_points<'r, 'a, E>(
    step: crate::memory_runs::CaptureStep<'r, 'a, E>,
    ram: GuestRam<'a>,
    written: Seq<Seq<u8>>,
)
    requires
        step.follows(ram, written),
    ensures
        written.len() < ram.regions().len() ==> (step matches CaptureStep::Append(run) && {
            let (gpa, len) = ram.regions()[written.len() as int];
            &&& run.ram() == ram
            &&& run.written() == written
            &&& run.pending().len() == len
            &&& ram.read_gave(gpa, len, run.pending())
        }),
        written.len() >= ram.regions().len() ==> (step matches CaptureStep::Done(descs)
            && descs@.len() == ram.regions().len() && forall|i: int|
            0 <= i < descs@.len() ==> (#[trigger] descs@[i]).gpa == ram.regions()[i].0
                && descs@[i].len == ram.regions()[i].1),
{
    match step {
        CaptureStep::Append(run) => {
            let longer = written.push(run.pending());
            assert(longer[written.len() as int] == run.pending());
        },
        _ => {},
    }
}

} // verus!
