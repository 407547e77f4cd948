//! Saving and restoring a GICv2, one register at a time.
//!
//! Both directions alternate between a register access, which only the holder
//! of the device file can make, and the decision what comes next. The values
//! here are the points between two accesses.

use vstd::prelude::*;
use crate::vgic_blob::{has_blob_tag, push_entry, read_entry, GicEntry, GICV2_BLOB_TAG};
use crate::vgic_regs::{registers_to_save, GicReg};

verus! {

/// The point that a save has reached.
pub ghost enum SaveState {
    /// The register `regs[vals.len()]` is to be read; `vals` holds what the
    /// registers before it held.
    Read { regs: Seq<GicReg>, vals: Seq<u32> },
    /// The save is complete.
    Done { blob: Seq<u8> },
    /// A read failed.
    Failed { error: Seq<char> },
}

/// The entries of the registers of `regs` that have a value.
pub open spec fn entries_of(regs: Seq<GicReg>, vals: Seq<u32>) -> Seq<GicEntry> {
    Seq::new(
        vals.len(),
        |i: int| GicEntry { group: regs[i].group, attr: regs[i].attr, val: vals[i] },
    )
}

/// A save of `regs` before the first read.
pub open spec fn save_started(regs: Seq<GicReg>) -> SaveState {
    SaveState::Read { regs, vals: seq![] }
}

/// What the answer to a read leads to. A save that has ended stays ended.
pub open spec fn save_step(state: SaveState, reply: Result<u32, Seq<char>>) -> SaveState {
    match state {
        SaveState::Read { regs, vals } => match reply {
            Err(error) => SaveState::Failed { error },
            Ok(val) => if vals.len() + 1 < regs.len() {
                SaveState::Read { regs, vals: vals.push(val) }
            } else {
                SaveState::Done {
                    blob: crate::vgic_blob::blob_bytes(entries_of(regs, vals.push(val))),
                }
            },
        },
        ended => ended,
    }
}

/// What a sequence of answers leads to.
pub open spec fn save_steps(state: SaveState, replies: Seq<Result<u32, Seq<char>>>) -> SaveState
    decreases replies.len(),
{
    if replies.len() == 0 {
        state
    } else {
        save_step(save_steps(state, replies.drop_last()), replies.last())
    }
}

/// The point that a restore has reached.
pub ghost enum RestoreState {
    /// Entry number `written` of `blob` is to be written to its register.
    Write { blob: Seq<u8>, written: int },
    /// The restore is complete.
    Done,
    /// The blob is not acceptable, or a write failed.
    Failed { error: Seq<char> },
}

/// The point of a restore of `blob` after `written` entries.
pub open spec fn restore_after(blob: Seq<u8>, written: int) -> RestoreState {
    if written < crate::vgic_blob::entry_count(blob) {
        RestoreState::Write { blob, written }
    } else if crate::vgic_blob::has_trailing_bytes(blob) {
        RestoreState::Failed { error: "gicv2 restore: trailing bytes in blob"@ }
    } else {
        RestoreState::Done
    }
}

/// A restore of `blob` before the first write. A blob with another tag is
/// refused before anything is written.
pub open spec fn restore_started(blob: Seq<u8>) -> RestoreState {
    if crate::vgic_blob::is_tagged(blob) {
        restore_after(blob, 0)
    } else {
        RestoreState::Failed {
            error:
                "gicv2 restore: blob tag mismatch (snapshot from a different GIC version?)"@,
        }
    }
}

/// What the answer to a write leads to. A restore that has ended stays ended.
pub open spec fn restore_step(state: RestoreState, reply: Result<(), Seq<char>>) -> RestoreState {
    match state {
        RestoreState::Write { blob, written } => match reply {
            Err(error) => RestoreState::Failed { error },
            Ok(_) => restore_after(blob, written + 1),
        },
        ended => ended,
    }
}

/// What `n` successful writes lead to.
pub open spec fn restore_steps(state: RestoreState, n: nat) -> RestoreState
    decreases n,
{
    if n == 0 {
        state
    } else {
        restore_step(restore_steps(state, (n - 1) as nat), Ok(()))
    }
}

/// A reply with its error text as a sequence of characters.
pub open spec fn reply_view<T>(reply: Result<T, String>) -> Result<T, Seq<char>> {
    match reply {
        Ok(v) => Ok(v),
        Err(e) => Err(e@),
    }
}

/// A save that waits for a register value.
pub struct SaveRun {
    regs: Vec<GicReg>,
    vals: Vec<u32>,
}

/// A save, from one register read to the next.
pub enum GicSave {
    /// A register is to be read.
    Read(SaveRun),
    /// The save is complete; this is the blob.
    Done(Vec<u8>),
    /// A read failed with this error.
    Failed(String),
}

impl View for GicSave {
    type V = SaveState;

    open spec fn view(&self) -> SaveState {
        match self {
            GicSave::Read(run) => SaveState::Read { regs: run.regs(), vals: run.vals() },
            GicSave::Done(blob) => SaveState::Done { blob: blob@ },
            GicSave::Failed(error) => SaveState::Failed { error: error@ },
        }
    }
}

impl SaveRun {
    /// The registers of the save.
    pub closed spec fn regs(self) -> Seq<GicReg> {
        self.regs@
    }

    /// The values read so far.
    pub closed spec fn vals(self) -> Seq<u32> {
        self.vals@
    }

    #[verifier::type_invariant]
    spec fn inv(self) -> bool {
        self.vals@.len() < self.regs@.len()
    }

    /// The register that is to be read.
    pub fn register(&self) -> (reg: GicReg)
        ensures
            self.vals().len() < self.regs().len(),
            reg == self.regs()[self.vals().len() as int],
    {
        proof {
            use_type_invariant(self);
        }
        self.regs[self.vals.len()]
    }

    /// Takes the outcome of the read and goes on.
    pub fn reply(self, reply: Result<u32, String>) -> (next: GicSave)
        ensures
            next@ == save_step(
                SaveState::Read { regs: self.regs(), vals: self.vals() },
                reply_view(reply),
            ),
            match reply {
                Err(error) => next == GicSave::Failed(error),
                Ok(val) => if self.vals().len() + 1 < self.regs().len() {
                    next matches GicSave::Read(run) && run.regs() == self.regs() && run.vals()
                        == self.vals().push(val)
                } else {
                    next matches GicSave::Done(blob) && blob@ == crate::vgic_blob::blob_bytes(
                        entries_of(self.regs(), self.vals().push(val)),
                    )
                },
            },
    {
        proof {
            use_type_invariant(&self);
        }
        let val: u32 = match reply {
            Ok(val) => val,
            Err(error) => return GicSave::Failed(error),
        };
        let SaveRun { regs, vals } = self;
        let mut vals: Vec<u32> = vals;
        vals.push(val);
        if vals.len() < regs.len() {
            GicSave::Read(SaveRun { regs, vals })
        } else {
            GicSave::Done(encode_blob(&regs, &vals))
        }
    }
}

/// Encodes the registers of `regs` with their values.
pub fn encode_blob(regs: &Vec<GicReg>, vals: &Vec<u32>) -> (blob: Vec<u8>)
    requires
        vals@.len() <= regs@.len(),
    ensures
        blob@ == crate::vgic_blob::blob_bytes(entries_of(regs@, vals@)),
{
    let ghost all = entries_of(regs@, vals@);
    let mut blob: Vec<u8> = Vec::new();
    blob.push(GICV2_BLOB_TAG[0]);
    blob.push(GICV2_BLOB_TAG[1]);
    blob.push(GICV2_BLOB_TAG[2]);
    blob.push(GICV2_BLOB_TAG[3]);
    assert(blob@ =~= crate::vgic_blob::blob_bytes(all.take(0)));
    let mut i: usize = 0;
    while i < vals.len()
        invariant
            i <= vals@.len() <= regs@.len(),
            all == entries_of(regs@, vals@),
            blob@ == crate::vgic_blob::blob_bytes(all.take(i as int)),
        decreases vals@.len() - i,
    {
        assert(all.take(i + 1).drop_last() =~= all.take(i as int));
        push_entry(&mut blob, regs[i].group, regs[i].attr, vals[i]);
        i += 1;
        assert(blob@ =~= crate::vgic_blob::blob_bytes(all.take(i as int)));
    }
    assert(all.take(i as int) =~= all);
    blob
}

impl GicSave {
    /// Starts a save of a vGIC with `nr_irqs` interrupts and `vcpu_count`
    /// vCPUs.
    pub fn start(nr_irqs: u32, vcpu_count: u64) -> (next: GicSave)
        requires
            nr_irqs * 8 <= u32::MAX,
        ensures
            next@ == save_started(
                crate::vgic_regs::save_order(nr_irqs as int, vcpu_count as nat),
            ),
            next matches GicSave::Read(run) && run.regs() == crate::vgic_regs::save_order(
                nr_irqs as int,
                vcpu_count as nat,
            ) && run.vals() == Seq::<u32>::empty(),
    {
        let regs: Vec<GicReg> = registers_to_save(nr_irqs, vcpu_count);
        let vals: Vec<u32> = Vec::new();
        GicSave::Read(SaveRun { regs, vals })
    }
}

/// A restore that waits for a register to be written.
pub struct RestoreRun<'a> {
    blob: &'a [u8],
    pos: usize,
}

/// A restore, from one register write to the next.
pub enum GicRestore<'a> {
    /// An entry is to be written to its register.
    Write(RestoreRun<'a>),
    /// The restore is complete.
    Done,
    /// The blob is not acceptable, or a write failed with this error.
    Failed(String),
}

impl<'a> View for GicRestore<'a> {
    type V = RestoreState;

    open spec fn view(&self) -> RestoreState {
        match self {
            GicRestore::Write(run) => RestoreState::Write {
                blob: run.blob(),
                written: run.written(),
            },
            GicRestore::Done => RestoreState::Done,
            GicRestore::Failed(error) => RestoreState::Failed { error: error@ },
        }
    }
}

impl<'a> RestoreRun<'a> {
    /// The blob that is restored.
    pub closed spec fn blob(self) -> Seq<u8> {
        self.blob@
    }

    /// How many entries have been written.
    pub closed spec fn written(self) -> int {
        (self.pos - 4) / 16
    }

    #[verifier::type_invariant]
    spec fn inv(self) -> bool {
        &&& 4 <= self.pos
        &&& (self.pos - 4) % 16 == 0
        &&& self.pos + 16 <= self.blob.len()
    }

    /// The entry that is to be written.
    pub fn entry(&self) -> (e: GicEntry)
        ensures
            0 <= self.written() < crate::vgic_blob::entry_count(self.blob()),
            e == crate::vgic_blob::entry_at(self.blob(), self.written()),
    {
        proof {
            use_type_invariant(self);
        }
        read_entry(self.blob, self.pos)
    }

    /// Takes the outcome of the write and goes on.
    pub fn reply(self, reply: Result<(), String>) -> (next: GicRestore<'a>)
        ensures
            next@ == restore_step(
                RestoreState::Write { blob: self.blob(), written: self.written() },
                reply_view(reply),
            ),
            reply matches Err(error) ==> next == GicRestore::<'a>::Failed(error),
            reply is Ok ==> if self.blob().len() >= 4 + 16 * (self.written() + 2) {
                next matches GicRestore::Write(run) && run.blob() == self.blob() && run.written()
                    == self.written() + 1
            } else if self.blob().len() == 4 + 16 * (self.written() + 1) {
                next is Done
            } else {
                next matches GicRestore::Failed(error) && error@
                    == "gicv2 restore: trailing bytes in blob"@
            },
    {
        proof {
            use_type_invariant(&self);
        }
        match reply {
            Ok(()) => GicRestore::at(self.blob, self.pos + 16),
            Err(error) => GicRestore::Failed(error),
        }
    }
}

impl<'a> GicRestore<'a> {
    /// The point of a restore at byte `pos` of the blob.
    fn at(blob: &'a [u8], pos: usize) -> (next: GicRestore<'a>)
        requires
            4 <= pos <= blob.len(),
            (pos - 4) % 16 == 0,
        ensures
            next@ == restore_after(blob@, (pos - 4) / 16),
    {
        if blob.len() - pos >= 16 {
            GicRestore::Write(RestoreRun { blob, pos })
        } else if pos != blob.len() {
            GicRestore::Failed("gicv2 restore: trailing bytes in blob".to_owned())
        } else {
            GicRestore::Done
        }
    }

    /// Starts a restore from `blob`.
    pub fn start(blob: &'a [u8]) -> (next: GicRestore<'a>)
        ensures
            next@ == restore_started(blob@),
            if !(blob@.len() >= 4 && blob@[0] == 0x47 && blob@[1] == 0x56 && blob@[2] == 0x32
                && blob@[3] == 0x01) {
                next matches GicRestore::Failed(error) && error@
                    == "gicv2 restore: blob tag mismatch (snapshot from a different GIC version?)"@
            } else if blob@.len() >= 20 {
                next matches GicRestore::Write(run) && run.blob() == blob@ && run.written() == 0
            } else if blob@.len() == 4 {
                next is Done
            } else {
                next matches GicRestore::Failed(error) && error@
                    == "gicv2 restore: trailing bytes in blob"@
            },
    {
        if !has_blob_tag(blob) {
            return GicRestore::Failed(
                "gicv2 restore: blob tag mismatch (snapshot from a different GIC version?)".to_owned(),
            );
        }
        GicRestore::at(blob, 4)
    }
}

/// A save and a restore stand for what they hold.
pub proof fn law_what_runs_stand_for<'a>(
    save: SaveRun,
    restore: RestoreRun<'a>,
    blob: Vec<u8>,
    error: String,
)
    ensures
        GicSave::Read(save)@ == (SaveState::Read { regs: save.regs(), vals: save.vals() }),
        GicSave::Done(blob)@ == (SaveState::Done { blob: blob@ }),
        GicSave::Failed(error)@ == (SaveState::Failed { error: error@ }),
        GicRestore::<'a>::Write(restore)@ == (RestoreState::Write {
            blob: restore.blob(),
            written: restore.written(),
        }),
        GicRestore::<'a>::Done@ == RestoreState::Done,
        GicRestore::<'a>::Failed(error)@ == (RestoreState::Failed { error: error@ }),
        reply_view(Err::<u32, String>(error)) == Err::<u32, Seq<char>>(error@),
{
}

/// All answers of `answers` as successful replies.
pub open spec fn all_ok(answers: Seq<u32>) -> Seq<Result<u32, Seq<char>>> {
    answers.map_values(|v: u32| Ok::<u32, Seq<char>>(v))
}

/// A save asks for the registers of its list in order: after `answers` it
/// waits for the next one, and after the last one it is done with the blob that
/// holds every register with the value it answered.
pub proof fn law_save_captures_every_register(regs: Seq<GicReg>, answers: Seq<u32>)
    requires
        answers.len() <= regs.len(),
        0 < regs.len(),
    ensures
        save_steps(save_started(regs), all_ok(answers)) == if answers.len() < regs.len() {
            SaveState::Read { regs, vals: answers }
        } else {
            SaveState::Done { blob: crate::vgic_blob::blob_bytes(entries_of(regs, answers)) }
        },
    decreases answers.len(),
{
    let replies = all_ok(answers);
    if answers.len() == 0 {
        assert(answers =~= seq![]);
    } else {
        let before = answers.drop_last();
        law_save_captures_every_register(regs, before);
        assert(replies.drop_last() =~= all_ok(before));
        assert(before.push(answers.last()) =~= answers);
    }
}

/// The first read that fails ends a save with its error, whatever would have
/// come after it: no blob is produced.
pub proof fn law_save_stops_at_first_failure(
    regs: Seq<GicReg>,
    answers: Seq<u32>,
    error: Seq<char>,
    rest: Seq<Result<u32, Seq<char>>>,
)
    requires
        answers.len() < regs.len(),
    ensures
        save_steps(save_started(regs), all_ok(answers) + seq![Err(error)] + rest)
            == (SaveState::Failed { error }),
    decreases rest.len(),
{
    let replies = all_ok(answers) + seq![Err(error)] + rest;
    if rest.len() == 0 {
        law_save_captures_every_register(regs, answers);
        assert(replies.drop_last() =~= all_ok(answers));
    } else {
        law_save_stops_at_first_failure(regs, answers, error, rest.drop_last());
        assert(replies.drop_last() =~= all_ok(answers) + seq![Err(error)] + rest.drop_last());
    }
}

/// A restore of a tagged blob writes its entries in order: after `n` successful
/// writes it is at entry `n`, and behind the last entry it is done, or fails
/// where bytes are left over.
pub proof fn law_restore_writes_in_order(blob: Seq<u8>, n: nat)
    requires
        crate::vgic_blob::is_tagged(blob),
        n <= crate::vgic_blob::entry_count(blob),
    ensures
        restore_steps(restore_started(blob), n) == restore_after(blob, n as int),
    decreases n,
{
    if n > 0 {
        law_restore_writes_in_order(blob, (n - 1) as nat);
    }
}

/// The first write that fails ends a restore with its error: no later entry is
/// written, whatever would be replied.
pub proof fn law_restore_stops_at_first_failure(
    blob: Seq<u8>,
    n: nat,
    error: Seq<char>,
    reply: Result<(), Seq<char>>,
)
    requires
        crate::vgic_blob::is_tagged(blob),
        n < crate::vgic_blob::entry_count(blob),
    ensures
        restore_step(restore_steps(restore_started(blob), n), Err(error))
            == (RestoreState::Failed { error }),
        restore_step(RestoreState::Failed { error }, reply) == (RestoreState::Failed { error }),
{
    law_restore_writes_in_order(blob, n);
}

/// A blob with another tag is refused with nothing written, whatever is in it.
pub proof fn law_other_tag_is_refused(blob: Seq<u8>, n: nat)
    requires
        !crate::vgic_blob::is_tagged(blob),
    ensures
        restore_steps(restore_started(blob), n) is Failed,
    decreases n,
{
    if n > 0 {
        law_other_tag_is_refused(blob, (n - 1) as nat);
    }
}

/// The course of a restore, by the bytes of the blob alone. A blob that does not
/// begin with `GV2` and 1 is refused before anything is written. After `n`
/// successful writes, entry `n` is next where sixteen more bytes are there;
/// where none is left the restore is done; any other rest is refused.
pub proof fn law_restore_course(blob: Seq<u8>, n: nat)
    ensures
        !(blob.len() >= 4 && blob[0] == 0x47 && blob[1] == 0x56 && blob[2] == 0x32 && blob[3]
            == 0x01) ==> restore_started(blob) == (RestoreState::Failed {
            error: "gicv2 restore: blob tag mismatch (snapshot from a different GIC version?)"@,
        }),
        blob.len() >= 4 + 16 * n && blob[0] == 0x47 && blob[1] == 0x56 && blob[2] == 0x32 && blob[3]
            == 0x01 ==> restore_steps(restore_started(blob), n) == if blob.len() >= 4 + 16 * n
            + 16 {
            RestoreState::Write { blob, written: n as int }
        } else if blob.len() == 4 + 16 * n {
            RestoreState::Done
        } else {
            RestoreState::Failed { error: "gicv2 restore: trailing bytes in blob"@ }
        },
{
    let tag = crate::vgic_blob::GICV2_BLOB_TAG@;
    if blob.len() >= 4 {
        let head = blob.take(4);
        assert(head[0] == blob[0] && head[1] == blob[1] && head[2] == blob[2] && head[3]
            == blob[3]);
        assert(tag.len() == 4 && tag[0] == 0x47 && tag[1] == 0x56 && tag[2] == 0x32 && tag[3]
            == 0x01);
        if blob[0] == 0x47 && blob[1] == 0x56 && blob[2] == 0x32 && blob[3] == 0x01 {
            assert(head =~= tag);
            if blob.len() >= 4 + 16 * n {
                law_restore_writes_in_order(blob, n);
            }
        }
    }
}

/// The blob of a complete save, by its bytes: the tag, then for each register
/// of the list, in order, its group, its attribute and the value that it
/// answered.
pub proof fn law_saved_blob_holds_every_register(regs: Seq<GicReg>, answers: Seq<u32>, i: int)
    requires
        0 < regs.len() == answers.len(),
        0 <= i < regs.len(),
    ensures
        save_steps(save_started(regs), all_ok(answers)) matches SaveState::Done { blob } && {
            let p = 4 + 16 * i;
            &&& blob.len() == 4 + 16 * regs.len()
            &&& blob[0] == 0x47 && blob[1] == 0x56 && blob[2] == 0x32 && blob[3] == 0x01
            &&& blob[p] + blob[p + 1] * 0x100 + blob[p + 2] * 0x1_0000 + blob[p + 3] * 0x100_0000
                == regs[i].group
            &&& blob[p + 4] + blob[p + 5] * 0x100 + blob[p + 6] * 0x1_0000 + blob[p + 7]
                * 0x100_0000 + blob[p + 8] * 0x1_0000_0000 + blob[p + 9] * 0x100_0000_0000 + blob[p
                + 10] * 0x1_0000_0000_0000 + blob[p + 11] * 0x100_0000_0000_0000 == regs[i].attr
            &&& blob[p + 12] + blob[p + 13] * 0x100 + blob[p + 14] * 0x1_0000 + blob[p + 15]
                * 0x100_0000 == answers[i]
        },
{
    law_save_captures_every_register(regs, answers);
    crate::vgic_blob::law_blob_layout(entries_of(regs, answers), i);
}

/// Restore is a straight replay of save: from the blob of a complete save, the
/// restore writes to the registers, in the order in which they were read, the
/// values that they held, and then succeeds.
pub proof fn law_restore_replays_save(regs: Seq<GicReg>, answers: Seq<u32>, n: nat)
    requires
        0 < regs.len() == answers.len(),
        n <= regs.len(),
    ensures
        save_steps(save_started(regs), all_ok(answers)) matches SaveState::Done { blob } && (if n
            < regs.len() {
            &&& restore_steps(restore_started(blob), n) == (RestoreState::Write {
                blob,
                written: n as int,
            })
            &&& crate::vgic_blob::entry_at(blob, n as int) == (GicEntry {
                group: regs[n as int].group,
                attr: regs[n as int].attr,
                val: answers[n as int],
            })
        } else {
            restore_steps(restore_started(blob), n) == RestoreState::Done
        }),
{
    let entries = entries_of(regs, answers);
    let blob = crate::vgic_blob::blob_bytes(entries);
    law_save_captures_every_register(regs, answers);
    crate::vgic_blob::law_blob_round_trip(entries);
    assert(crate::vgic_blob::blob_entries(blob).len() == entries.len());
    crate::vgic_blob::lemma_entries_bytes_len(entries);
    law_restore_writes_in_order(blob, n);
    if n < regs.len() {
        assert(crate::vgic_blob::blob_entries(blob)[n as int] == entries[n as int]);
    }
}

} // verus!
