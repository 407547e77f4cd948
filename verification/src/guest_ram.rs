//! Guest RAM behind a handle that records what is stored through it.
//!
//! What guest RAM holds is known only to the machine, and other holders of the
//! mapping may write to it. What this program does to it is known: the handle
//! is the only way to it here, and every store made through the handle is on
//! its record, in order.

use vstd::prelude::*;
use vm_memory::{Address, Bytes, GuestAddress, GuestMemory, GuestMemoryMmap, GuestMemoryRegion};

verus! {

/// The guest memory of `vm_memory`.
#[verifier::external_type_specification]
#[verifier::external_body]
#[verifier::reject_recursive_types(B)]
pub struct ExGuestMemoryMmap<B>(GuestMemoryMmap<B>);

/// Start address and length of each region of a guest memory, in the order in
/// which it keeps them.
pub uninterp spec fn guest_regions(mem: GuestMemoryMmap) -> Seq<(u64, u64)>;

/// Whether `addr` lies in a region.
pub open spec fn address_mapped(regions: Seq<(u64, u64)>, addr: int) -> bool {
    exists|i: int|
        0 <= i < regions.len() && (#[trigger] regions[i]).0 <= addr < regions[i].0 + regions[i].1
}

/// Whether `addr`, and every address of the `len` bytes from there on, lies in
/// a region.
pub open spec fn range_mapped(regions: Seq<(u64, u64)>, addr: int, len: int) -> bool {
    &&& address_mapped(regions, addr)
    &&& forall|a: int| addr <= a < addr + len ==> #[trigger] address_mapped(regions, a)
}

/// Whether every region holds at least one byte.
pub open spec fn no_empty_region(regions: Seq<(u64, u64)>) -> bool {
    forall|i: int| 0 <= i < regions.len() ==> (#[trigger] regions[i]).1 > 0
}

/// Whether the regions lie in the address space, each behind the one before.
pub open spec fn regions_ordered(regions: Seq<(u64, u64)>) -> bool {
    &&& forall|i: int|
        0 <= i < regions.len() ==> (#[trigger] regions[i]).0 + regions[i].1 <= u64::MAX
    &&& forall|i: int, j: int|
        0 <= i < j < regions.len() ==> (#[trigger] regions[i]).0 + regions[i].1 <= (
        #[trigger] regions[j]).0
}

/// Whether `regions` is the layout of a guest memory without empty regions.
pub open spec fn valid_layout(regions: Seq<(u64, u64)>) -> bool {
    no_empty_region(regions) && regions_ordered(regions)
}

/// The regions of a guest memory: `GuestMemory::iter`, with
/// `GuestMemoryRegion::start_addr` and `GuestMemoryRegion::len` of each region.
/// Where none is empty, they are sorted by address and do not overlap, and none
/// reaches beyond the last address: the constructors of regions and of guest
/// memories refuse anything else.
#[verifier::external_body]
fn region_layout(mem: &GuestMemoryMmap) -> (regions: Vec<(u64, u64)>)
    ensures
        regions@ == guest_regions(*mem),
        no_empty_region(regions@) ==> regions_ordered(regions@),
{
    mem.iter().map(|r| (r.start_addr().raw_value(), r.len())).collect()
}

/// The text of the error for an address that no region holds.
pub open spec fn unmapped_address_text(gpa: u64) -> Seq<char> {
    "InvalidGuestAddress(GuestAddress("@ + crate::text::decimal(gpa as nat) + "))"@
}

/// A guest memory without empty regions, with a record of the stores made
/// through this handle.
pub struct GuestRam<'a> {
    mem: &'a GuestMemoryMmap,
    stores: Ghost<Seq<(u64, Seq<u8>)>>,
}

impl<'a> GuestRam<'a> {
    /// Start address and length of each region, in order of address.
    pub closed spec fn regions(self) -> Seq<(u64, u64)> {
        guest_regions(*self.mem)
    }

    /// The stores made through the handle so far, in order: the address of each
    /// and its bytes.
    pub closed spec fn stores(self) -> Seq<(u64, Seq<u8>)> {
        self.stores@
    }

    /// Whether reading `len` bytes at `gpa` gave `bytes`, with the stores so far
    /// made and no others. What guest RAM holds is learned only by reading it,
    /// so this is known only of a read.
    pub closed spec fn read_gave(self, gpa: u64, len: u64, bytes: Seq<u8>) -> bool {
        exists|v: Vec<u8>|
            v@ == bytes && #[trigger] call_ensures(
                GuestRam::read,
                (&self, gpa, len),
                Ok::<Vec<u8>, String>(v),
            )
    }

    /// Every handle is on a valid layout.
    #[verifier::type_invariant]
    pub open spec fn valid(self) -> bool {
        valid_layout(self.regions())
    }

    /// A handle on a guest memory, with nothing stored yet. There is none on a
    /// guest memory with an empty region.
    pub fn new(mem: &'a GuestMemoryMmap) -> (ram: Option<GuestRam<'a>>)
        ensures
            ram is Some <==> no_empty_region(guest_regions(*mem)),
            ram is Some <==> forall|i: int|
                0 <= i < guest_regions(*mem).len() ==> (#[trigger] guest_regions(*mem)[i]).1 > 0,
            ram matches Some(ram) ==> {
                &&& ram.regions() == guest_regions(*mem)
                &&& ram.valid()
                &&& ram.stores() == Seq::<(u64, Seq<u8>)>::empty()
            },
    {
        let layout: Vec<(u64, u64)> = region_layout(mem);
        let mut i: usize = 0;
        while i < layout.len()
            invariant
                i <= layout@.len(),
                layout@ == guest_regions(*mem),
                forall|k: int| 0 <= k < i ==> (#[trigger] layout@[k]).1 > 0,
            decreases layout@.len() - i,
        {
            let (_, len): (u64, u64) = layout[i];
            if len == 0 {
                assert(layout@[i as int].1 == 0);
                return None;
            }
            i += 1;
        }
        Some(GuestRam { mem, stores: Ghost(Seq::empty()) })
    }

    /// Start address and length of each region, in order of address.
    pub fn layout(&self) -> (regions: Vec<(u64, u64)>)
        ensures
            regions@ == self.regions(),
            self.valid(),
    {
        proof {
            use_type_invariant(self);
        }
        region_layout(self.mem)
    }

    /// Whether `GuestMemory::get_host_address` finds the address: it does
    /// exactly where a region holds it, and its error names the address. The
    /// address that it finds is dropped. It panics on an empty region.
    #[verifier::external_body]
    pub(crate) fn host_address(&self, gpa: u64) -> (r: Result<(), String>)
        requires
            no_empty_region(self.regions()),
        ensures
            r is Ok <==> address_mapped(self.regions(), gpa as int),
            r matches Err(e) ==> e@ == unmapped_address_text(gpa),
    {
        self.mem.get_host_address(GuestAddress(gpa)).map(|_| ()).map_err(|e| format!("{e:?}"))
    }

    /// Copies `len` bytes out of guest RAM with `Bytes::read_slice`, which
    /// succeeds on a range that is mapped throughout. What the bytes are depends
    /// on the machine and is not stated. It panics on an empty region.
    #[verifier::external_body]
    pub(crate) fn read(&self, gpa: u64, len: u64) -> (r: Result<Vec<u8>, String>)
        requires
            no_empty_region(self.regions()),
            range_mapped(self.regions(), gpa as int, len as int),
        ensures
            r is Ok,
            r matches Ok(bytes) ==> bytes@.len() == len,
    {
        let mut bytes = vec![0u8; len as usize];
        let read = self.mem.read_slice(&mut bytes, GuestAddress(gpa));
        read.map(|_| bytes).map_err(|e| format!("{e:?}"))
    }

    /// Copies bytes into guest RAM with `Bytes::write_slice`, which succeeds
    /// exactly on a range that is mapped throughout, and puts the store on the
    /// record. That guest RAM then holds the bytes is not stated: other holders
    /// of the mapping can write to it. It panics on an empty region.
    #[verifier::external_body]
    pub(crate) fn store(&mut self, gpa: u64, bytes: &[u8]) -> (r: Result<(), String>)
        requires
            no_empty_region(old(self).regions()),
        ensures
            r is Ok <==> range_mapped(old(self).regions(), gpa as int, bytes@.len() as int),
            final(self).regions() == old(self).regions(),
            final(self).stores() == old(self).stores().push((gpa, bytes@)),
    {
        self.mem.write_slice(bytes, GuestAddress(gpa)).map_err(|e| format!("{e:?}"))
    }

    /// Where the region that holds `addr` ends, if one does.
    fn region_end(&self, addr: u64) -> (end: Option<u64>)
        ensures
            match end {
                Some(end) => addr < end && forall|a: int|
                    addr <= a < end ==> #[trigger] address_mapped(self.regions(), a),
                None => !address_mapped(self.regions(), addr as int),
            },
    {
        let layout: Vec<(u64, u64)> = self.layout();
        let mut i: usize = 0;
        while i < layout.len()
            invariant
                i <= layout@.len(),
                layout@ == self.regions(),
                valid_layout(layout@),
                forall|k: int|
                    0 <= k < i ==> !((#[trigger] layout@[k]).0 <= addr < layout@[k].0
                        + layout@[k].1),
            decreases layout@.len() - i,
        {
            let (start, len): (u64, u64) = layout[i];
            assert(layout@[i as int].0 + layout@[i as int].1 <= u64::MAX);
            if start <= addr && addr < start + len {
                assert forall|a: int| addr <= a < start + len implies #[trigger] address_mapped(
                    self.regions(),
                    a,
                ) by {
                    assert(layout@[i as int].0 <= a);
                }
                return Some(start + len);
            }
            i += 1;
        }
        None
    }

    /// Whether `gpa`, and every address of the `len` bytes from there on, is
    /// mapped.
    pub fn covers(&self, gpa: u64, len: u64) -> (r: bool)
        ensures
            r == range_mapped(self.regions(), gpa as int, len as int),
    {
        let mut end: u64 = match self.region_end(gpa) {
            Some(end) => end,
            None => return false,
        };
        assert(address_mapped(self.regions(), gpa as int));
        while end - gpa < len
            invariant
                gpa < end,
                forall|a: int| gpa <= a < end ==> #[trigger] address_mapped(self.regions(), a),
            decreases u64::MAX - end,
        {
            match self.region_end(end) {
                Some(next) => {
                    end = next;
                },
                None => return false,
            }
        }
        true
    }
}

/// An address is mapped exactly where a region begins at or below it and ends
/// behind it; a range exactly where its first address and each of its bytes
/// are; and a range that is not mapped has an address of its own that is not.
pub proof fn law_mapped_addresses(regions: Seq<(u64, u64)>, addr: int, len: int, a: int, i: int)
    ensures
        0 <= i < regions.len() && regions[i].0 <= addr < regions[i].0 + regions[i].1
            ==> address_mapped(regions, addr),
        address_mapped(regions, addr) ==> exists|k: int|
            0 <= k < regions.len() && (#[trigger] regions[k]).0 <= addr < regions[k].0
                + regions[k].1,
        range_mapped(regions, addr, len) ==> address_mapped(regions, addr),
        range_mapped(regions, addr, len) && addr <= a < addr + len ==> address_mapped(regions, a),
        !range_mapped(regions, addr, len) ==> !address_mapped(regions, addr) || exists|b: int|
            addr <= b < addr + len && !#[trigger] address_mapped(regions, b),
{
}

/// A layout is valid exactly where every region holds a byte, none reaches
/// beyond the address space, and each begins at or behind the end of those
/// before it.
pub proof fn law_valid_layouts(regions: Seq<(u64, u64)>, i: int, j: int)
    ensures
        valid_layout(regions) && 0 <= i < regions.len() ==> regions[i].1 > 0 && regions[i].0
            + regions[i].1 <= u64::MAX,
        valid_layout(regions) && 0 <= i < j < regions.len() ==> regions[i].0 + regions[i].1
            <= regions[j].0,
        !valid_layout(regions) ==> {
            ||| exists|k: int| 0 <= k < regions.len() && (#[trigger] regions[k]).1 == 0
            ||| exists|k: int|
                0 <= k < regions.len() && (#[trigger] regions[k]).0 + regions[k].1 > u64::MAX
            ||| exists|k: int, l: int|
                0 <= k < l < regions.len() && (#[trigger] regions[k]).0 + regions[k].1 > (
                #[trigger] regions[l]).0
        },
{
}

/// What reading gave is what a read returned, and nothing else is: bytes that
/// were not read are known of no read.
pub(crate) proof fn law_read_gave_is_what_was_read<'a>(
    ram: GuestRam<'a>,
    gpa: u64,
    len: u64,
    bytes: Seq<u8>,
)
    ensures
        ram.read_gave(gpa, len, bytes) <==> exists|v: Vec<u8>|
            v@ == bytes && #[trigger] call_ensures(
                GuestRam::read,
                (&ram, gpa, len),
                Ok::<Vec<u8>, String>(v),
            ),
{
}

/// What a read returned is what it gave.
pub(crate) proof fn lemma_read_gave<'a>(ram: GuestRam<'a>, gpa: u64, len: u64, v: Vec<u8>)
    requires
        call_ensures(GuestRam::read, (&ram, gpa, len), Ok::<Vec<u8>, String>(v)),
    ensures
        ram.read_gave(gpa, len, v@),
{
}

} // verus!
