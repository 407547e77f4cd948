//! Capturing and restoring guest memory over a stream, one region at a time.
//!
//! Both directions alternate between the stream, which only its holder can read
//! and write, and guest memory. The values here are the points between two
//! accesses of the stream.

use vstd::prelude::*;
use crate::guest_ram::GuestRam;
use crate::snapshot::{region_descs, MemoryRegionDesc, SnapshotError};

verus! {

/// A capture that has read a region, whose bytes are to be appended.
pub struct CaptureRun<'r, 'm> {
    ram: &'r GuestRam<'m>,
    index: usize,
    bytes: Vec<u8>,
    written: Ghost<Seq<Seq<u8>>>,
}

/// A capture, from one append to the next.
pub enum CaptureStep<'r, 'm, E> {
    /// The bytes of a region are to be appended to the stream.
    Append(CaptureRun<'r, 'm>),
    /// All regions are appended; this is the layout.
    Done(Vec<MemoryRegionDesc>),
    /// A region could not be read.
    Failed(SnapshotError),
    /// Appending failed with this error.
    Stopped(E),
}

impl<'r, 'm, E> CaptureStep<'r, 'm, E> {
    /// Whether this is the point of a capture at which the contents of
    /// `written`, from the first region on, are appended.
    pub open spec fn follows(self, ram: GuestRam<'m>, written: Seq<Seq<u8>>) -> bool {
        if written.len() < ram.regions().len() {
            self matches CaptureStep::Append(run) && {
                &&& run.ram() == ram
                &&& run.written() == written
                &&& crate::snapshot::contents_read(ram, written.push(run.pending()))
            }
        } else {
            self matches CaptureStep::Done(descs) && descs@ == crate::snapshot::descs_of(
                ram.regions(),
            )
        }
    }

    /// Starts a capture.
    pub fn start(ram: &'r GuestRam<'m>) -> (step: Self)
        ensures
            step.follows(*ram, seq![]),
    {
        Self::at(ram, 0, Ghost(Seq::empty()))
    }

    /// The point of a capture at region number `index`.
    fn at(ram: &'r GuestRam<'m>, index: usize, written: Ghost<Seq<Seq<u8>>>) -> (step: Self)
        requires
            index == written@.len(),
            crate::snapshot::contents_read(*ram, written@),
        ensures
            step.follows(*ram, written@),
    {
        let descs: Vec<MemoryRegionDesc> = region_descs(ram);
        if index >= descs.len() {
            return CaptureStep::Done(descs);
        }
        let desc: MemoryRegionDesc = descs[index];
        proof {
            let regions = ram.regions();
            assert(regions[index as int].1 > 0);
            assert forall|a: int|
                desc.gpa <= a < desc.gpa
                    + desc.len implies #[trigger] crate::guest_ram::address_mapped(regions, a) by {
                assert(regions[index as int].0 <= a);
            }
            assert(crate::guest_ram::address_mapped(regions, desc.gpa as int));
        }
        match locate(ram, &desc) {
            Ok(()) => {},
            Err(e) => return CaptureStep::Failed(e),
        }
        match ram.read(desc.gpa, desc.len) {
            Ok(bytes) => {
                assert(ram.read_gave(desc.gpa, desc.len, bytes@)) by {
                    crate::guest_ram::lemma_read_gave(*ram, desc.gpa, desc.len, bytes);
                }
                CaptureStep::Append(CaptureRun { ram, index, bytes, written })
            },
            Err(cause) => CaptureStep::Failed(SnapshotError::Other(cause)),
        }
    }
}

impl<'r, 'm> CaptureRun<'r, 'm> {
    /// The guest memory that is captured.
    pub closed spec fn ram(self) -> GuestRam<'m> {
        *self.ram
    }

    /// The contents of the regions that are appended.
    pub closed spec fn written(self) -> Seq<Seq<u8>> {
        self.written@
    }

    /// The bytes that are to be appended.
    pub closed spec fn pending(self) -> Seq<u8> {
        self.bytes@
    }

    #[verifier::type_invariant]
    spec fn inv(self) -> bool {
        &&& self.index == self.written@.len()
        &&& self.index < self.ram.regions().len() <= usize::MAX
        &&& crate::snapshot::contents_read(*self.ram, self.written@.push(self.bytes@))
    }

    /// The bytes that are to be appended.
    pub fn bytes(&self) -> (bytes: &[u8])
        ensures
            bytes@ == self.pending(),
    {
        self.bytes.as_slice()
    }

    /// Takes the outcome of the append and goes on.
    pub fn reply<E>(self, reply: Result<(), E>) -> (step: CaptureStep<'r, 'm, E>)
        ensures
            match reply {
                Ok(_) => step.follows(self.ram(), self.written().push(self.pending())),
                Err(e) => step == CaptureStep::<'r, 'm, E>::Stopped(e),
            },
    {
        proof {
            use_type_invariant(&self);
        }
        match reply {
            Ok(()) => {
                let ghost longer = self.written@.push(self.bytes@);
                CaptureStep::at(self.ram, self.index + 1, Ghost(longer))
            },
            Err(e) => CaptureStep::Stopped(e),
        }
    }
}

/// Checks that a region of a layout starts at an address that is mapped.
fn locate<'m>(ram: &GuestRam<'m>, desc: &MemoryRegionDesc) -> (r: Result<(), SnapshotError>)
    ensures
        r is Ok <==> crate::guest_ram::address_mapped(ram.regions(), desc.gpa as int),
        r matches Err(e) ==> e.reports(
            crate::snapshot::RestoreFault::Unmapped { gpa: desc.gpa },
        ),
{
    proof {
        use_type_invariant(ram);
    }
    match ram.host_address(desc.gpa) {
        Ok(()) => Ok(()),
        Err(cause) => {
            let mut text: String = "get_host_address: ".to_owned();
            text.append(cause.as_str());
            Err(SnapshotError::Other(text))
        },
    }
}

/// The point that a restore has reached.
pub ghost enum RestorePoint {
    /// The bytes of region number `n` are to be read from the stream.
    Read { n: int },
    /// All regions are stored.
    Done,
    /// A region cannot be restored.
    Failed { fault: crate::snapshot::RestoreFault },
    /// The stream could not be read.
    Stopped,
}

/// A restore, with the stores made to guest memory up to its point.
pub ghost struct RestoreModel {
    pub point: RestorePoint,
    pub stores: Seq<(u64, Seq<u8>)>,
}

/// The point of a restore of `descs` at which the first `n` regions are stored.
pub open spec fn restore_point(
    regions: Seq<(u64, u64)>,
    descs: Seq<MemoryRegionDesc>,
    n: int,
) -> RestorePoint {
    if n >= descs.len() {
        RestorePoint::Done
    } else if !crate::guest_ram::address_mapped(regions, descs[n].gpa as int) {
        RestorePoint::Failed {
            fault: crate::snapshot::RestoreFault::Unmapped { gpa: descs[n].gpa },
        }
    } else {
        RestorePoint::Read { n }
    }
}

/// What the outcome of a read leads to: the bytes, or `None` where the stream
/// could not be read. A restore that has ended stays ended.
pub open spec fn restore_reply(
    regions: Seq<(u64, u64)>,
    descs: Seq<MemoryRegionDesc>,
    model: RestoreModel,
    reply: Option<Seq<u8>>,
) -> RestoreModel {
    match (model.point, reply) {
        (RestorePoint::Read { .. }, None) => RestoreModel {
            point: RestorePoint::Stopped,
            stores: model.stores,
        },
        (RestorePoint::Read { n }, Some(bytes)) => if bytes.len() != descs[n].len {
            RestoreModel {
                point: RestorePoint::Failed { fault: crate::snapshot::RestoreFault::ShortStream },
                stores: model.stores,
            }
        } else if !crate::guest_ram::range_mapped(
            regions,
            descs[n].gpa as int,
            descs[n].len as int,
        ) {
            RestoreModel {
                point: RestorePoint::Failed {
                    fault: crate::snapshot::RestoreFault::NotCovered { desc: descs[n] },
                },
                stores: model.stores,
            }
        } else {
            RestoreModel {
                point: restore_point(regions, descs, n + 1),
                stores: model.stores.push((descs[n].gpa, bytes)),
            }
        },
        _ => model,
    }
}

/// What a sequence of outcomes leads to.
pub open spec fn restore_replies(
    regions: Seq<(u64, u64)>,
    descs: Seq<MemoryRegionDesc>,
    model: RestoreModel,
    replies: Seq<Option<Seq<u8>>>,
) -> RestoreModel
    decreases replies.len(),
{
    if replies.len() == 0 {
        model
    } else {
        restore_reply(
            regions,
            descs,
            restore_replies(regions, descs, model, replies.drop_last()),
            replies.last(),
        )
    }
}

/// The bytes of a reply, where it has any.
pub open spec fn reply_bytes<E>(reply: Result<&[u8], E>) -> Option<Seq<u8>> {
    match reply {
        Ok(bytes) => Some(bytes@),
        Err(_) => None,
    }
}

/// A restore that waits for the bytes of a region.
pub struct RestoreRun<'d> {
    descs: &'d [MemoryRegionDesc],
    next: usize,
}

/// A restore, from one read of the stream to the next.
pub enum RestoreStep<'d, E> {
    /// The bytes of a region are to be read from the stream.
    Read(RestoreRun<'d>),
    /// All regions are stored.
    Done,
    /// A region cannot be restored.
    Failed(SnapshotError),
    /// Reading failed with this error.
    Stopped(E),
}

impl<'d, E> RestoreStep<'d, E> {
    /// Whether a restore of `descs` is at `point`.
    pub open spec fn is_at(self, descs: Seq<MemoryRegionDesc>, point: RestorePoint) -> bool {
        match point {
            RestorePoint::Read { n } => self matches RestoreStep::Read(run) && run.descs() == descs
                && run.next() == n,
            RestorePoint::Done => self is Done,
            RestorePoint::Failed { fault } => self matches RestoreStep::Failed(e) && e.reports(
                fault,
            ),
            RestorePoint::Stopped => self is Stopped,
        }
    }

    /// Starts a restore of the regions of `descs`.
    pub fn start<'m>(ram: &GuestRam<'m>, descs: &'d [MemoryRegionDesc]) -> (step: Self)
        ensures
            step.is_at(descs@, restore_point(ram.regions(), descs@, 0)),
            descs@.len() == 0 ==> step is Done,
            descs@.len() > 0 && crate::guest_ram::address_mapped(
                ram.regions(),
                descs@[0].gpa as int,
            ) ==> (step matches RestoreStep::Read(run) && run.descs() == descs@ && run.next() == 0),
            descs@.len() > 0 && !crate::guest_ram::address_mapped(
                ram.regions(),
                descs@[0].gpa as int,
            ) ==> (step matches RestoreStep::Failed(SnapshotError::Other(text)) && text@
                == "get_host_address: "@ + (
                "InvalidGuestAddress(GuestAddress("@ + crate::text::decimal(descs@[0].gpa as nat)
                    + "))"@)),
    {
        Self::at(ram, descs, 0)
    }

    /// The point of a restore at region number `n`.
    fn at<'m>(ram: &GuestRam<'m>, descs: &'d [MemoryRegionDesc], n: usize) -> (step: Self)
        ensures
            step.is_at(descs@, restore_point(ram.regions(), descs@, n as int)),
    {
        if n >= descs.len() {
            return RestoreStep::Done;
        }
        match locate(ram, &descs[n]) {
            Ok(()) => RestoreStep::Read(RestoreRun { descs, next: n }),
            Err(e) => RestoreStep::Failed(e),
        }
    }
}

impl<'d> RestoreRun<'d> {
    /// The regions that are restored.
    pub closed spec fn descs(self) -> Seq<MemoryRegionDesc> {
        self.descs@
    }

    /// The number of the region whose bytes are to be read.
    pub closed spec fn next(self) -> int {
        self.next as int
    }

    #[verifier::type_invariant]
    spec fn inv(self) -> bool {
        self.next < self.descs.len()
    }

    /// How many bytes are to be read.
    pub fn wanted(&self) -> (len: u64)
        ensures
            0 <= self.next() < self.descs().len(),
            len == self.descs()[self.next()].len,
    {
        proof {
            use_type_invariant(self);
        }
        self.descs[self.next].len
    }

    /// Takes the outcome of the read, stores the bytes, and goes on. Bytes that
    /// do not fill the region are not stored, nor are those of a region that is
    /// not mapped throughout.
    pub fn reply<'m, E>(self, ram: &mut GuestRam<'m>, reply: Result<&[u8], E>) -> (step: RestoreStep<
        'd,
        E,
    >)
        ensures
            ({
                let after = restore_reply(
                    old(ram).regions(),
                    self.descs(),
                    RestoreModel {
                        point: RestorePoint::Read { n: self.next() },
                        stores: old(ram).stores(),
                    },
                    reply_bytes(reply),
                );
                &&& step.is_at(self.descs(), after.point)
                &&& final(ram).stores() == after.stores
            }),
            final(ram).regions() == old(ram).regions(),
            reply matches Err(e) ==> step == RestoreStep::<'d, E>::Stopped(e),
            match reply {
                Err(_) => final(ram).stores() == old(ram).stores(),
                Ok(bytes) => {
                    let desc = self.descs()[self.next()];
                    let next = self.next() + 1;
                    if bytes@.len() != desc.len {
                        &&& step == RestoreStep::<'d, E>::Failed(SnapshotError::UnexpectedEof)
                        &&& final(ram).stores() == old(ram).stores()
                    } else if !crate::guest_ram::range_mapped(
                        old(ram).regions(),
                        desc.gpa as int,
                        desc.len as int,
                    ) {
                        &&& step == RestoreStep::<'d, E>::Failed(SnapshotError::NotCovered(desc))
                        &&& final(ram).stores() == old(ram).stores()
                    } else {
                        &&& final(ram).stores() == old(ram).stores().push((desc.gpa, bytes@))
                        &&& if next >= self.descs().len() {
                            step is Done
                        } else if crate::guest_ram::address_mapped(
                            old(ram).regions(),
                            self.descs()[next].gpa as int,
                        ) {
                            step matches RestoreStep::Read(run) && run.descs() == self.descs()
                                && run.next() == next
                        } else {
                            step matches RestoreStep::Failed(SnapshotError::Other(text)) && text@
                                == "get_host_address: "@ + (
                "InvalidGuestAddress(GuestAddress("@ + crate::text::decimal(self.descs()[next].gpa as nat)
                    + "))"@)
                        }
                    }
                },
            },
    {
        proof {
            use_type_invariant(&self);
            use_type_invariant(&*ram);
        }
        let bytes: &[u8] = match reply {
            Ok(bytes) => bytes,
            Err(e) => return RestoreStep::Stopped(e),
        };
        let desc: MemoryRegionDesc = self.descs[self.next];
        if bytes.len() as u64 != desc.len {
            return RestoreStep::Failed(SnapshotError::UnexpectedEof);
        }
        if !ram.covers(desc.gpa, desc.len) {
            return RestoreStep::Failed(SnapshotError::NotCovered(desc));
        }
        match ram.store(desc.gpa, bytes) {
            Ok(()) => RestoreStep::at(ram, self.descs, self.next + 1),
            Err(_) => RestoreStep::Failed(SnapshotError::NotCovered(desc)),
        }
    }
}

} // verus!
