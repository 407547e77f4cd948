//! The registers of a GICv2 that a snapshot holds, in the order in which they
//! are saved and replayed.
//!
//! The order is restore-safe: the configuration of every interrupt comes
//! before its enable bit, then pending, then active, then the CPU interfaces,
//! and the distributor's own control register comes last of all.
//!
//! The distributor registers that cover the 32 private interrupts of a vCPU
//! are banked: each vCPU has its own copy, addressed by the vCPU index. The
//! registers of the shared interrupts exist once, under index 0.

use vstd::prelude::*;

verus! {

/// Attribute group: base addresses of the register windows.
pub const KVM_DEV_ARM_VGIC_GRP_ADDR: u32 = 0;

/// Attribute group: distributor registers.
pub const KVM_DEV_ARM_VGIC_GRP_DIST_REGS: u32 = 1;

/// Attribute group: CPU-interface registers.
pub const KVM_DEV_ARM_VGIC_GRP_CPU_REGS: u32 = 2;

/// Attribute group: number of interrupt lines.
pub const KVM_DEV_ARM_VGIC_GRP_NR_IRQS: u32 = 3;

/// Attribute group: control operations.
pub const KVM_DEV_ARM_VGIC_GRP_CTRL: u32 = 4;

/// Control operation: initialize the device.
pub const KVM_DEV_ARM_VGIC_CTRL_INIT: u32 = 0;

/// First bit of the vCPU index in a register attribute.
pub const VGIC_ATTR_CPUID_SHIFT: u32 = 32;

/// Bits of the vCPU index in a register attribute: bits 47 to 32.
pub const VGIC_ATTR_CPUID_MASK: u64 = 0xffff_0000_0000;

/// Bits of the register offset in a register attribute: bits 31 to 0.
pub const VGIC_ATTR_OFFSET_MASK: u64 = 0xffff_ffff;

/// Address type: distributor window.
pub const KVM_VGIC_V2_ADDR_TYPE_DIST: u32 = 0;

/// Address type: CPU-interface window.
pub const KVM_VGIC_V2_ADDR_TYPE_CPU: u32 = 1;

/// Offset of the distributor control register.
pub const GICD_CTLR: u32 = 0x0;

/// Where a register lives: its attribute group, and its attribute within it.
#[derive(Clone, Copy, Debug, PartialEq, Eq, Structural)]
pub struct GicReg {
    pub group: u32,
    pub attr: u64,
}

/// A family of per-interrupt distributor registers: the offset of its first
/// word, the bits that it stores per interrupt, and whether its banked words
/// are read-only and left out.
#[derive(Clone, Copy, Debug, PartialEq, Eq, Structural)]
pub struct GicdPerIrq {
    pub offset: u32,
    pub bits_per_irq: u32,
    pub spi_only: bool,
}

/// The attribute of the register at `offset`, as vCPU `cpuid` sees it. The
/// index stands in bits 47 to 32, the offset in bits 31 to 0.
pub open spec fn attr_of(cpuid: int, offset: int) -> u64 {
    ((cpuid % 0x1_0000) * 0x1_0000_0000 + offset) as u64
}

/// The distributor register at `offset`, as vCPU `cpuid` sees it.
pub open spec fn dist_reg(cpuid: int, offset: int) -> GicReg {
    GicReg { group: KVM_DEV_ARM_VGIC_GRP_DIST_REGS, attr: attr_of(cpuid, offset) }
}

/// The CPU-interface register at `offset` of vCPU `cpuid`.
pub open spec fn cpu_reg(cpuid: int, offset: int) -> GicReg {
    GicReg { group: KVM_DEV_ARM_VGIC_GRP_CPU_REGS, attr: attr_of(cpuid, offset) }
}

/// The per-interrupt families: group, priority, targets and configuration,
/// then enable, then pending, then active.
pub open spec fn families() -> Seq<GicdPerIrq> {
    seq![
        GicdPerIrq { offset: 0x080, bits_per_irq: 1, spi_only: false },
        GicdPerIrq { offset: 0x400, bits_per_irq: 8, spi_only: false },
        GicdPerIrq { offset: 0x800, bits_per_irq: 8, spi_only: true },
        GicdPerIrq { offset: 0xc00, bits_per_irq: 2, spi_only: false },
        GicdPerIrq { offset: 0x100, bits_per_irq: 1, spi_only: false },
        GicdPerIrq { offset: 0x200, bits_per_irq: 1, spi_only: false },
        GicdPerIrq { offset: 0x300, bits_per_irq: 1, spi_only: false },
    ]
}

/// The CPU-interface registers that are saved for each vCPU: control, priority
/// mask, binary points and the four active-priority words.
pub open spec fn cpu_offsets() -> Seq<u32> {
    seq![0x00, 0x04, 0x08, 0x1c, 0xd0, 0xd4, 0xd8, 0xdc]
}

impl GicdPerIrq {
    /// The first word that is saved. The words below `bits_per_irq` cover the
    /// 32 private interrupts.
    pub open spec fn first_word(self) -> int {
        if self.spi_only {
            self.bits_per_irq as int
        } else {
            0
        }
    }

    /// The words that `nr_irqs` interrupts take.
    pub open spec fn total_words(self, nr_irqs: int) -> int {
        nr_irqs * self.bits_per_irq / 32
    }

    /// Byte offset of word `w`.
    pub open spec fn word_offset(self, w: int) -> int {
        self.offset + w * 4
    }

    /// How many copies of word `w` there are.
    pub open spec fn copies(self, w: int, vcpus: nat) -> nat {
        if w < self.bits_per_irq {
            vcpus
        } else {
            1
        }
    }

    /// The copies of word `w`: one per vCPU where it is banked, one otherwise.
    pub open spec fn word_regs(self, w: int, vcpus: nat) -> Seq<GicReg> {
        Seq::new(self.copies(w, vcpus), |c: int| dist_reg(c, self.word_offset(w)))
    }

    /// The copies of the words from the first saved one up to `end`.
    pub open spec fn regs_below(self, end: int, vcpus: nat) -> Seq<GicReg>
        decreases end - self.first_word(),
    {
        if end <= self.first_word() {
            seq![]
        } else {
            self.regs_below(end - 1, vcpus) + self.word_regs(end - 1, vcpus)
        }
    }

    /// Everything that is saved of the family.
    pub open spec fn regs(self, nr_irqs: int, vcpus: nat) -> Seq<GicReg> {
        self.regs_below(self.total_words(nr_irqs), vcpus)
    }
}

/// Everything that is saved of the families of `fs`, family by family.
pub open spec fn families_regs(fs: Seq<GicdPerIrq>, nr_irqs: int, vcpus: nat) -> Seq<GicReg>
    decreases fs.len(),
{
    if fs.len() == 0 {
        seq![]
    } else {
        families_regs(fs.drop_last(), nr_irqs, vcpus) + fs.last().regs(nr_irqs, vcpus)
    }
}

/// The CPU-interface registers of all vCPUs, vCPU by vCPU.
pub open spec fn cpu_regs(vcpus: nat) -> Seq<GicReg> {
    Seq::new(8 * vcpus, |i: int| cpu_reg(i / 8, cpu_offsets()[i % 8] as int))
}

/// The registers of a snapshot, in the order in which they are read, stored
/// and written back.
pub open spec fn save_order(nr_irqs: int, vcpus: nat) -> Seq<GicReg> {
    families_regs(families(), nr_irqs, vcpus) + cpu_regs(vcpus) + seq![
        dist_reg(0, GICD_CTLR as int),
    ]
}

/// Encodes a register attribute: the vCPU index in bits 47 to 32, the register
/// offset in bits 31 to 0.
pub fn vgic_attr(cpuid: u64, offset: u32) -> (attr: u64)
    ensures
        attr == attr_of(cpuid as int, offset as int),
        attr == (cpuid % 0x1_0000) * 0x1_0000_0000 + offset,
{
    let off: u64 = offset as u64;
    assert(((cpuid << 32) & 0xffff_0000_0000) | (off & 0xffff_ffff) == (cpuid % 0x1_0000)
        * 0x1_0000_0000 + off) by (bit_vector)
        requires
            off <= 0xffff_ffff,
    ;
    ((cpuid << VGIC_ATTR_CPUID_SHIFT) & VGIC_ATTR_CPUID_MASK) | (off & VGIC_ATTR_OFFSET_MASK)
}

/// The per-interrupt families in restore-safe order.
pub fn gicd_per_irq() -> (r: [GicdPerIrq; 7])
    ensures
        r@ == families(),
        r@ == seq![
            GicdPerIrq { offset: 0x080, bits_per_irq: 1, spi_only: false },
            GicdPerIrq { offset: 0x400, bits_per_irq: 8, spi_only: false },
            GicdPerIrq { offset: 0x800, bits_per_irq: 8, spi_only: true },
            GicdPerIrq { offset: 0xc00, bits_per_irq: 2, spi_only: false },
            GicdPerIrq { offset: 0x100, bits_per_irq: 1, spi_only: false },
            GicdPerIrq { offset: 0x200, bits_per_irq: 1, spi_only: false },
            GicdPerIrq { offset: 0x300, bits_per_irq: 1, spi_only: false },
        ],
{
    let r = [
        GicdPerIrq { offset: 0x080, bits_per_irq: 1, spi_only: false },
        GicdPerIrq { offset: 0x400, bits_per_irq: 8, spi_only: false },
        GicdPerIrq { offset: 0x800, bits_per_irq: 8, spi_only: true },
        GicdPerIrq { offset: 0xc00, bits_per_irq: 2, spi_only: false },
        GicdPerIrq { offset: 0x100, bits_per_irq: 1, spi_only: false },
        GicdPerIrq { offset: 0x200, bits_per_irq: 1, spi_only: false },
        GicdPerIrq { offset: 0x300, bits_per_irq: 1, spi_only: false },
    ];
    assert(r@ =~= families());
    r
}

/// The CPU-interface offsets that are saved per vCPU.
pub fn gicc_regs() -> (r: [u32; 8])
    ensures
        r@ == cpu_offsets(),
        r@ == seq![0x00u32, 0x04, 0x08, 0x1c, 0xd0, 0xd4, 0xd8, 0xdc],
{
    let r: [u32; 8] = [0x00, 0x04, 0x08, 0x1c, 0xd0, 0xd4, 0xd8, 0xdc];
    assert(r@ =~= cpu_offsets());
    r
}

/// Appends the copies of word `w` of `family`.
fn append_word(out: &mut Vec<GicReg>, family: GicdPerIrq, w: u32, vcpu_count: u64)
    requires
        family.offset + w * 4 <= u32::MAX,
    ensures
        final(out)@ == old(out)@ + family.word_regs(w as int, vcpu_count as nat),
{
    let offset: u32 = family.offset + w * 4;
    let ghost all = family.word_regs(w as int, vcpu_count as nat);
    if w < family.bits_per_irq {
        let mut c: u64 = 0;
        while c < vcpu_count
            invariant
                c <= vcpu_count,
                offset == family.word_offset(w as int),
                all == family.word_regs(w as int, vcpu_count as nat),
                all.len() == vcpu_count,
                out@ == old(out)@ + all.take(c as int),
            decreases vcpu_count - c,
        {
            out.push(
                GicReg { group: KVM_DEV_ARM_VGIC_GRP_DIST_REGS, attr: vgic_attr(c, offset) },
            );
            c += 1;
            assert(out@ =~= old(out)@ + all.take(c as int));
        }
        assert(all.take(c as int) =~= all);
    } else {
        out.push(GicReg { group: KVM_DEV_ARM_VGIC_GRP_DIST_REGS, attr: vgic_attr(0, offset) });
        assert(out@ =~= old(out)@ + all);
    }
}

/// Appends everything that is saved of `family`.
fn append_family(out: &mut Vec<GicReg>, family: GicdPerIrq, nr_irqs: u32, vcpu_count: u64)
    requires
        nr_irqs * 8 <= u32::MAX,
        family.bits_per_irq <= 8,
        family.offset <= 0xc00,
    ensures
        final(out)@ == old(out)@ + family.regs(nr_irqs as int, vcpu_count as nat),
{
    assert(nr_irqs * family.bits_per_irq <= nr_irqs * 8) by (nonlinear_arith)
        requires
            family.bits_per_irq <= 8,
    ;
    let total_words: u32 = nr_irqs * family.bits_per_irq / 32;
    let mut w: u32 = if family.spi_only {
        family.bits_per_irq
    } else {
        0
    };
    assert(out@ =~= old(out)@ + family.regs_below(w as int, vcpu_count as nat));
    while w < total_words
        invariant
            family.first_word() <= w,
            w <= total_words || w == family.first_word(),
            total_words == family.total_words(nr_irqs as int),
            total_words * 4 <= nr_irqs,
            nr_irqs * 8 <= u32::MAX,
            family.offset <= 0xc00,
            out@ == old(out)@ + family.regs_below(w as int, vcpu_count as nat),
        decreases total_words - w,
    {
        append_word(out, family, w, vcpu_count);
        w += 1;
        assert(out@ =~= old(out)@ + family.regs_below(w as int, vcpu_count as nat));
    }
    assert(family.regs_below(w as int, vcpu_count as nat) =~= family.regs(
        nr_irqs as int,
        vcpu_count as nat,
    ));
}

/// Appends the CPU-interface registers of all vCPUs.
fn append_cpu_regs(out: &mut Vec<GicReg>, vcpu_count: u64)
    ensures
        final(out)@ == old(out)@ + cpu_regs(vcpu_count as nat),
{
    let offsets: [u32; 8] = gicc_regs();
    let ghost all = cpu_regs(vcpu_count as nat);
    let mut c: u64 = 0;
    assert(out@ =~= old(out)@ + all.take(0));
    while c < vcpu_count
        invariant
            c <= vcpu_count,
            offsets@ == cpu_offsets(),
            all == cpu_regs(vcpu_count as nat),
            all.len() == 8 * vcpu_count,
            out@ == old(out)@ + all.take(8 * c),
        decreases vcpu_count - c,
    {
        let mut k: usize = 0;
        while k < 8
            invariant
                k <= 8,
                c < vcpu_count,
                offsets@ == cpu_offsets(),
                all == cpu_regs(vcpu_count as nat),
                all.len() == 8 * vcpu_count,
                out@ == old(out)@ + all.take(8 * c + k),
            decreases 8 - k,
        {
            let offset: u32 = offsets[k];
            assert(all[8 * c + k] == cpu_reg(c as int, offset as int));
            out.push(GicReg { group: KVM_DEV_ARM_VGIC_GRP_CPU_REGS, attr: vgic_attr(c, offset) });
            k += 1;
            assert(out@ =~= old(out)@ + all.take(8 * c + k));
        }
        c += 1;
    }
    assert(all.take(8 * c) =~= all);
}

/// The registers of a snapshot of a vGIC with `nr_irqs` interrupts and
/// `vcpu_count` vCPUs, in the order in which they are read, stored and written
/// back.
pub fn registers_to_save(nr_irqs: u32, vcpu_count: u64) -> (regs: Vec<GicReg>)
    requires
        nr_irqs * 8 <= u32::MAX,
    ensures
        regs@ == save_order(nr_irqs as int, vcpu_count as nat),
{
    let all: [GicdPerIrq; 7] = gicd_per_irq();
    let mut regs: Vec<GicReg> = Vec::new();
    let mut i: usize = 0;
    while i < 7
        invariant
            i <= 7,
            all@ == families(),
            nr_irqs * 8 <= u32::MAX,
            regs@ == families_regs(families().take(i as int), nr_irqs as int, vcpu_count as nat),
        decreases 7 - i,
    {
        assert(families().take(i + 1).drop_last() =~= families().take(i as int));
        append_family(&mut regs, all[i], nr_irqs, vcpu_count);
        i += 1;
    }
    assert(families().take(7) =~= families());
    append_cpu_regs(&mut regs, vcpu_count);
    regs.push(GicReg { group: KVM_DEV_ARM_VGIC_GRP_DIST_REGS, attr: vgic_attr(0, GICD_CTLR) });
    assert(regs@ =~= save_order(nr_irqs as int, vcpu_count as nat));
    regs
}

} // verus!
