//! What the save order of a GICv2 guarantees: which registers it holds, that
//! it holds none twice, and that replaying it is safe.

use vstd::prelude::*;
use crate::vgic_regs::{GicReg, GicdPerIrq, GICD_CTLR};
use crate::vgic_regs::{KVM_DEV_ARM_VGIC_GRP_CPU_REGS, KVM_DEV_ARM_VGIC_GRP_DIST_REGS};

verus! {

/// Whether `r` is a copy of a word of `f` that lies below word `end`.
pub open spec fn is_family_word(f: GicdPerIrq, end: int, vcpus: nat, r: GicReg) -> bool {
    exists|w: int, c: int|
        f.first_word() <= w < end && 0 <= c < f.copies(w, vcpus) && r
            == #[trigger] crate::vgic_regs::dist_reg(c, f.word_offset(w))
}

/// Whether `r` is a CPU-interface register that is saved.
pub open spec fn is_saved_cpu_reg(vcpus: nat, r: GicReg) -> bool {
    exists|c: int, k: int|
        0 <= c < vcpus && 0 <= k < 8 && r == #[trigger] crate::vgic_regs::cpu_reg(
            c,
            crate::vgic_regs::cpu_offsets()[k] as int,
        )
}

/// Whether `r` is a word of one of the families of `fs` that is saved.
pub open spec fn is_saved_dist_reg(
    fs: Seq<GicdPerIrq>,
    nr_irqs: int,
    vcpus: nat,
    r: GicReg,
) -> bool {
    exists|k: int|
        0 <= k < fs.len() && is_family_word(
            #[trigger] fs[k],
            fs[k].total_words(nr_irqs),
            vcpus,
            r,
        )
}

/// The step of a restore that `r` belongs to: 0 configuration, 1 enable, 2
/// pending, 3 active, 4 CPU interface, 5 distributor control.
pub open spec fn restore_step(r: GicReg) -> int {
    let offset = r.attr % 0x1_0000_0000;
    if r.group == KVM_DEV_ARM_VGIC_GRP_CPU_REGS {
        4
    } else if offset == GICD_CTLR {
        5
    } else if 0x100 <= offset < 0x200 {
        1
    } else if 0x200 <= offset < 0x300 {
        2
    } else if 0x300 <= offset < 0x400 {
        3
    } else {
        0
    }
}

/// A sequence of two parts holds what either part holds.
proof fn lemma_concat_contains<A>(a: Seq<A>, b: Seq<A>, x: A)
    ensures
        (a + b).contains(x) <==> a.contains(x) || b.contains(x),
{
    if a.contains(x) {
        let i = choose|i: int| 0 <= i < a.len() && a[i] == x;
        assert((a + b)[i] == x);
    }
    if b.contains(x) {
        let i = choose|i: int| 0 <= i < b.len() && b[i] == x;
        assert((a + b)[a.len() + i] == x);
    }
}

/// The part of a family below word `end` holds exactly the copies of its words.
proof fn lemma_family_contains(f: GicdPerIrq, end: int, vcpus: nat, r: GicReg)
    ensures
        f.regs_below(end, vcpus).contains(r) <==> is_family_word(f, end, vcpus, r),
    decreases end - f.first_word(),
{
    if end > f.first_word() {
        let below = f.regs_below(end - 1, vcpus);
        let word = f.word_regs(end - 1, vcpus);
        lemma_family_contains(f, end - 1, vcpus, r);
        lemma_concat_contains(below, word, r);
        if word.contains(r) {
            let c = choose|c: int| 0 <= c < word.len() && word[c] == r;
            assert(r == crate::vgic_regs::dist_reg(c, f.word_offset(end - 1)));
        }
        if is_family_word(f, end, vcpus, r) {
            let (w, c) = choose|w: int, c: int|
                f.first_word() <= w < end && 0 <= c < f.copies(w, vcpus) && r
                    == #[trigger] crate::vgic_regs::dist_reg(c, f.word_offset(w));
            if w == end - 1 {
                assert(word[c] == r);
            } else {
                assert(is_family_word(f, end - 1, vcpus, r));
            }
        }
    }
}

/// The families hold exactly the copies of their words.
proof fn lemma_families_contain(fs: Seq<GicdPerIrq>, nr_irqs: int, vcpus: nat, r: GicReg)
    ensures
        crate::vgic_regs::families_regs(fs, nr_irqs, vcpus).contains(r) <==> is_saved_dist_reg(
            fs,
            nr_irqs,
            vcpus,
            r,
        ),
    decreases fs.len(),
{
    if fs.len() > 0 {
        let init = fs.drop_last();
        let f = fs.last();
        lemma_families_contain(init, nr_irqs, vcpus, r);
        lemma_family_contains(f, f.total_words(nr_irqs), vcpus, r);
        lemma_concat_contains(
            crate::vgic_regs::families_regs(init, nr_irqs, vcpus),
            f.regs(nr_irqs, vcpus),
            r,
        );
        if is_saved_dist_reg(init, nr_irqs, vcpus, r) {
            let k = choose|k: int|
                0 <= k < init.len() && is_family_word(
                    #[trigger] init[k],
                    init[k].total_words(nr_irqs),
                    vcpus,
                    r,
                );
            assert(fs[k] == init[k]);
        }
        if is_saved_dist_reg(fs, nr_irqs, vcpus, r) {
            let k = choose|k: int|
                0 <= k < fs.len() && is_family_word(
                    #[trigger] fs[k],
                    fs[k].total_words(nr_irqs),
                    vcpus,
                    r,
                );
            if k < init.len() {
                assert(init[k] == fs[k]);
            }
        }
    }
}

/// The CPU-interface part holds exactly the saved registers of each vCPU.
proof fn lemma_cpu_regs_contain(vcpus: nat, r: GicReg)
    ensures
        crate::vgic_regs::cpu_regs(vcpus).contains(r) <==> is_saved_cpu_reg(vcpus, r),
{
    let all = crate::vgic_regs::cpu_regs(vcpus);
    if all.contains(r) {
        let i = choose|i: int| 0 <= i < all.len() && all[i] == r;
        assert(r == crate::vgic_regs::cpu_reg(
            i / 8,
            crate::vgic_regs::cpu_offsets()[i % 8] as int,
        ));
    }
    if is_saved_cpu_reg(vcpus, r) {
        let (c, k) = choose|c: int, k: int|
            0 <= c < vcpus && 0 <= k < 8 && r == #[trigger] crate::vgic_regs::cpu_reg(
                c,
                crate::vgic_regs::cpu_offsets()[k] as int,
            );
        assert(all[8 * c + k] == r);
    }
}

/// A snapshot holds every word of every family that covers an interrupt of the
/// vGIC, with one copy per vCPU where it is banked and one copy where it is
/// shared, the saved CPU-interface registers of every vCPU, the distributor
/// control register, and nothing else.
pub proof fn law_save_order_contents(nr_irqs: int, vcpus: nat, r: GicReg)
    ensures
        crate::vgic_regs::save_order(nr_irqs, vcpus).contains(r) <==> {
            ||| is_saved_dist_reg(crate::vgic_regs::families(), nr_irqs, vcpus, r)
            ||| is_saved_cpu_reg(vcpus, r)
            ||| r == crate::vgic_regs::dist_reg(0, GICD_CTLR as int)
        },
{
    let d = crate::vgic_regs::families_regs(crate::vgic_regs::families(), nr_irqs, vcpus);
    let c = crate::vgic_regs::cpu_regs(vcpus);
    let last = seq![crate::vgic_regs::dist_reg(0, GICD_CTLR as int)];
    lemma_families_contain(crate::vgic_regs::families(), nr_irqs, vcpus, r);
    lemma_cpu_regs_contain(vcpus, r);
    lemma_concat_contains(d, c, r);
    lemma_concat_contains(d + c, last, r);
    assert(last[0] == crate::vgic_regs::dist_reg(0, GICD_CTLR as int));
    if last.contains(r) {
        let i = choose|i: int| 0 <= i < last.len() && last[i] == r;
    }
}

/// The offset of a saved word of `f` lies between its first saved word and its
/// end, and the attribute carries that offset in its low half.
proof fn lemma_family_offsets(f: GicdPerIrq, end: int, vcpus: nat, r: GicReg)
    requires
        is_family_word(f, end, vcpus, r),
        f.word_offset(end) <= u32::MAX,
    ensures
        r.group == KVM_DEV_ARM_VGIC_GRP_DIST_REGS,
        f.word_offset(f.first_word()) <= r.attr % 0x1_0000_0000 < f.word_offset(end),
        vcpus == 0 ==> f.word_offset(f.bits_per_irq as int) <= r.attr % 0x1_0000_0000,
{
}

/// The words of family number `k`.
proof fn lemma_total_words(k: int, nr_irqs: int)
    requires
        0 <= k < 7,
        0 <= nr_irqs,
    ensures
        crate::vgic_regs::families()[k].total_words(nr_irqs) == if k == 1 || k == 2 {
            nr_irqs / 4
        } else if k == 3 {
            nr_irqs / 16
        } else {
            nr_irqs / 32
        },
{
    let f = crate::vgic_regs::families()[k];
    if k == 1 || k == 2 {
        assert(f.bits_per_irq == 8);
        assert(nr_irqs * f.bits_per_irq == nr_irqs * 8);
    } else if k == 3 {
        assert(f.bits_per_irq == 2);
        assert(nr_irqs * f.bits_per_irq == nr_irqs * 2);
    } else {
        assert(f.bits_per_irq == 1);
        assert(nr_irqs * f.bits_per_irq == nr_irqs * 1);
    }
}

/// The distributor control register comes last, and nowhere else: the
/// distributor is enabled again only once all of its state is in place.
pub proof fn law_distributor_control_last(nr_irqs: int, vcpus: nat)
    requires
        0 <= nr_irqs,
        nr_irqs * 8 <= u32::MAX,
    ensures
        crate::vgic_regs::save_order(nr_irqs, vcpus).len() > 0,
        crate::vgic_regs::save_order(nr_irqs, vcpus).last() == crate::vgic_regs::dist_reg(
            0,
            GICD_CTLR as int,
        ),
        !crate::vgic_regs::save_order(nr_irqs, vcpus).drop_last().contains(
            crate::vgic_regs::dist_reg(0, GICD_CTLR as int),
        ),
{
    let ctlr = crate::vgic_regs::dist_reg(0, GICD_CTLR as int);
    let fs = crate::vgic_regs::families();
    let d = crate::vgic_regs::families_regs(fs, nr_irqs, vcpus);
    let c = crate::vgic_regs::cpu_regs(vcpus);
    assert(crate::vgic_regs::save_order(nr_irqs, vcpus).drop_last() =~= d + c);
    lemma_families_contain(fs, nr_irqs, vcpus, ctlr);
    lemma_cpu_regs_contain(vcpus, ctlr);
    lemma_concat_contains(d, c, ctlr);
    if is_saved_dist_reg(fs, nr_irqs, vcpus, ctlr) {
        let k = choose|k: int|
            0 <= k < fs.len() && is_family_word(
                #[trigger] fs[k],
                fs[k].total_words(nr_irqs),
                vcpus,
                ctlr,
            );
        lemma_total_words(k, nr_irqs);
        lemma_family_offsets(fs[k], fs[k].total_words(nr_irqs), vcpus, ctlr);
    }
}

/// Whether the steps of `s` never go back and end at step `step` or before.
spec fn steps_up_to(s: Seq<GicReg>, step: int) -> bool {
    &&& forall|i: int| 0 <= i < s.len() ==> restore_step(#[trigger] s[i]) <= step
    &&& forall|i: int, j: int|
        0 <= i < j < s.len() ==> restore_step(#[trigger] s[i]) <= restore_step(#[trigger] s[j])
}

/// A part that belongs to one step can follow parts of that step or earlier.
proof fn lemma_append_step(a: Seq<GicReg>, b: Seq<GicReg>, before: int, step: int)
    requires
        steps_up_to(a, before),
        before <= step,
        forall|i: int| 0 <= i < b.len() ==> restore_step(#[trigger] b[i]) == step,
    ensures
        steps_up_to(a + b, step),
{
    let s = a + b;
    assert forall|i: int| 0 <= i < s.len() implies restore_step(#[trigger] s[i]) <= step by {
        if i < a.len() {
            assert(s[i] == a[i]);
        } else {
            assert(s[i] == b[i - a.len()]);
        }
    }
    assert forall|i: int, j: int| 0 <= i < j < s.len() implies restore_step(#[trigger] s[i])
        <= restore_step(#[trigger] s[j]) by {
        if j < a.len() {
            assert(s[i] == a[i] && s[j] == a[j]);
        } else {
            assert(s[j] == b[j - a.len()]);
        }
    }
}

/// The step that family number `k` belongs to.
spec fn family_step(k: int) -> int {
    if k < 4 {
        0
    } else {
        k - 3
    }
}

/// The registers of family number `k` belong to the step of that family.
proof fn lemma_family_step(k: int, nr_irqs: int, vcpus: nat)
    requires
        0 <= k < 7,
        0 <= nr_irqs < 1056,
    ensures
        forall|i: int|
            0 <= i < crate::vgic_regs::families()[k].regs(nr_irqs, vcpus).len() ==> restore_step(
                #[trigger] crate::vgic_regs::families()[k].regs(nr_irqs, vcpus)[i],
            ) == family_step(k),
{
    let f = crate::vgic_regs::families()[k];
    let s = f.regs(nr_irqs, vcpus);
    lemma_total_words(k, nr_irqs);
    assert forall|i: int| 0 <= i < s.len() implies restore_step(#[trigger] s[i]) == family_step(
        k,
    ) by {
        assert(s.contains(s[i]));
        lemma_family_contains(f, f.total_words(nr_irqs), vcpus, s[i]);
        lemma_family_offsets(f, f.total_words(nr_irqs), vcpus, s[i]);
    }
}

/// The first `n` families are in step order.
proof fn lemma_families_steps(n: int, nr_irqs: int, vcpus: nat)
    requires
        0 <= n <= 7,
        0 <= nr_irqs < 1056,
    ensures
        steps_up_to(
            crate::vgic_regs::families_regs(
                crate::vgic_regs::families().take(n),
                nr_irqs,
                vcpus,
            ),
            family_step(n - 1),
        ),
    decreases n,
{
    let fs = crate::vgic_regs::families();
    if n > 0 {
        lemma_families_steps(n - 1, nr_irqs, vcpus);
        lemma_family_step(n - 1, nr_irqs, vcpus);
        assert(fs.take(n).drop_last() =~= fs.take(n - 1));
        assert(fs.take(n).last() == fs[n - 1]);
        lemma_append_step(
            crate::vgic_regs::families_regs(fs.take(n - 1), nr_irqs, vcpus),
            fs[n - 1].regs(nr_irqs, vcpus),
            family_step(n - 2),
            family_step(n - 1),
        );
    }
}

/// Replaying a snapshot is safe: all configuration comes before the first
/// enable bit, enable before pending, pending before active, and the
/// distributor before the CPU interfaces, except for its control register.
///
/// From 1056 interrupts on, the group words reach into the offsets of the
/// enable words.
pub proof fn law_restore_safe_order(nr_irqs: int, vcpus: nat, i: int, j: int)
    requires
        0 <= nr_irqs < 1056,
        0 <= i < j < crate::vgic_regs::save_order(nr_irqs, vcpus).len(),
    ensures
        restore_step(crate::vgic_regs::save_order(nr_irqs, vcpus)[i]) <= restore_step(
            crate::vgic_regs::save_order(nr_irqs, vcpus)[j],
        ),
{
    let fs = crate::vgic_regs::families();
    let d = crate::vgic_regs::families_regs(fs, nr_irqs, vcpus);
    let c = crate::vgic_regs::cpu_regs(vcpus);
    let last = seq![crate::vgic_regs::dist_reg(0, GICD_CTLR as int)];
    lemma_families_steps(7, nr_irqs, vcpus);
    assert(fs.take(7) =~= fs);
    lemma_append_step(d, c, 3, 4);
    lemma_append_step(d + c, last, 4, 5);
    let all = crate::vgic_regs::save_order(nr_irqs, vcpus);
    assert(all == d + c + last);
    assert(restore_step(all[i]) <= restore_step(all[j]));
}

/// A part without duplicates, whose elements do not occur before it, adds no
/// duplicate.
proof fn lemma_append_no_duplicates(a: Seq<GicReg>, b: Seq<GicReg>)
    requires
        a.no_duplicates(),
        b.no_duplicates(),
        forall|r: GicReg| #[trigger] a.contains(r) ==> !b.contains(r),
    ensures
        (a + b).no_duplicates(),
{
    let s = a + b;
    assert forall|i: int, j: int| 0 <= i < s.len() && 0 <= j < s.len() && i != j implies s[i]
        != s[j] by {
        if i < a.len() && j >= a.len() {
            assert(s[i] == a[i] && s[j] == b[j - a.len()]);
            assert(a.contains(a[i]));
            assert(b.contains(b[j - a.len()]));
        } else if i >= a.len() && j < a.len() {
            assert(s[j] == a[j] && s[i] == b[i - a.len()]);
            assert(a.contains(a[j]));
            assert(b.contains(b[i - a.len()]));
        }
    }
}

/// No copy of a word of a family is saved twice.
proof fn lemma_family_no_duplicates(f: GicdPerIrq, end: int, vcpus: nat)
    requires
        vcpus <= 0x1_0000,
        f.word_offset(end) <= u32::MAX,
    ensures
        f.regs_below(end, vcpus).no_duplicates(),
    decreases end - f.first_word(),
{
    if end > f.first_word() {
        let below = f.regs_below(end - 1, vcpus);
        let word = f.word_regs(end - 1, vcpus);
        lemma_family_no_duplicates(f, end - 1, vcpus);
        assert forall|r: GicReg| #[trigger] below.contains(r) implies !word.contains(r) by {
            lemma_family_contains(f, end - 1, vcpus, r);
            lemma_family_offsets(f, end - 1, vcpus, r);
            if word.contains(r) {
                let c = choose|c: int| 0 <= c < word.len() && word[c] == r;
                assert(r == crate::vgic_regs::dist_reg(c, f.word_offset(end - 1)));
            }
        }
        lemma_append_no_duplicates(below, word);
    }
}

/// The first `n` families hold no register twice.
proof fn lemma_families_no_duplicates(n: int, nr_irqs: int, vcpus: nat)
    requires
        0 <= n <= 7,
        0 <= nr_irqs < 1028 || (vcpus == 0 && 0 <= nr_irqs < 1036),
        vcpus <= 0x1_0000,
    ensures
        crate::vgic_regs::families_regs(
            crate::vgic_regs::families().take(n),
            nr_irqs,
            vcpus,
        ).no_duplicates(),
    decreases n,
{
    let fs = crate::vgic_regs::families();
    if n > 0 {
        let before = fs.take(n - 1);
        let f = fs[n - 1];
        lemma_families_no_duplicates(n - 1, nr_irqs, vcpus);
        lemma_total_words(n - 1, nr_irqs);
        lemma_family_no_duplicates(f, f.total_words(nr_irqs), vcpus);
        assert(fs.take(n).drop_last() =~= before);
        assert(fs.take(n).last() == f);
        let a = crate::vgic_regs::families_regs(before, nr_irqs, vcpus);
        let b = f.regs(nr_irqs, vcpus);
        assert forall|r: GicReg| #[trigger] a.contains(r) implies !b.contains(r) by {
            lemma_families_contain(before, nr_irqs, vcpus, r);
            let k = choose|k: int|
                0 <= k < before.len() && is_family_word(
                    #[trigger] before[k],
                    before[k].total_words(nr_irqs),
                    vcpus,
                    r,
                );
            assert(before[k] == fs[k]);
            lemma_total_words(k, nr_irqs);
            lemma_family_offsets(fs[k], fs[k].total_words(nr_irqs), vcpus, r);
            if b.contains(r) {
                lemma_family_contains(f, f.total_words(nr_irqs), vcpus, r);
                lemma_family_offsets(f, f.total_words(nr_irqs), vcpus, r);
            }
        }
        lemma_append_no_duplicates(a, b);
    }
}

/// No register is saved twice: a banked register once per vCPU, a shared one
/// once.
///
/// The vCPU index of an attribute has sixteen bits, and from 1028 interrupts on
/// the target words reach into the offsets of the configuration words, from
/// 1036 on where there is no vCPU with a banked one.
pub proof fn law_no_register_saved_twice(nr_irqs: int, vcpus: nat)
    requires
        0 <= nr_irqs < 1028 || (vcpus == 0 && 0 <= nr_irqs < 1036),
        vcpus <= 0x1_0000,
    ensures
        crate::vgic_regs::save_order(nr_irqs, vcpus).no_duplicates(),
{
    let fs = crate::vgic_regs::families();
    let d = crate::vgic_regs::families_regs(fs, nr_irqs, vcpus);
    let c = crate::vgic_regs::cpu_regs(vcpus);
    let last = seq![crate::vgic_regs::dist_reg(0, GICD_CTLR as int)];
    lemma_families_no_duplicates(7, nr_irqs, vcpus);
    assert(fs.take(7) =~= fs);
    assert(c.no_duplicates()) by {
        assert forall|i: int, j: int| 0 <= i < c.len() && 0 <= j < c.len() && i != j implies c[i]
            != c[j] by {
            assert(c[i].attr == (i / 8) * 0x1_0000_0000 + crate::vgic_regs::cpu_offsets()[i % 8]);
            assert(c[j].attr == (j / 8) * 0x1_0000_0000 + crate::vgic_regs::cpu_offsets()[j % 8]);
        }
    }
    assert forall|r: GicReg| #[trigger] d.contains(r) implies !c.contains(r) by {
        lemma_families_contain(fs, nr_irqs, vcpus, r);
        lemma_cpu_regs_contain(vcpus, r);
    }
    lemma_append_no_duplicates(d, c);
    law_distributor_control_last(nr_irqs, vcpus);
    assert(crate::vgic_regs::save_order(nr_irqs, vcpus).drop_last() =~= d + c);
    assert forall|r: GicReg| #[trigger] (d + c).contains(r) implies !last.contains(r) by {
        if last.contains(r) {
            let i = choose|i: int| 0 <= i < last.len() && last[i] == r;
        }
    }
    lemma_append_no_duplicates(d + c, last);
}

/// The families by number, as offset of word 0, bits per interrupt, and whether
/// the banked words are left out: group, priority, targets, configuration,
/// enable, pending, active.
pub open spec fn family_table(k: int) -> (int, int, bool) {
    if k == 0 {
        (0x080, 1, false)
    } else if k == 1 {
        (0x400, 8, false)
    } else if k == 2 {
        (0x800, 8, true)
    } else if k == 3 {
        (0xc00, 2, false)
    } else if k == 4 {
        (0x100, 1, false)
    } else if k == 5 {
        (0x200, 1, false)
    } else {
        (0x300, 1, false)
    }
}

/// How many registers the words below `words` of a family come to: each of the
/// first `bits` words once per vCPU, or not at all where the family leaves its
/// banked words out, and each further word once.
pub open spec fn family_size(bits: int, spi_only: bool, words: int, vcpus: int) -> int {
    let banked = if spi_only || words <= 0 {
        0
    } else if words < bits {
        words * vcpus
    } else {
        bits * vcpus
    };
    banked + if words > bits {
        words - bits
    } else {
        0
    }
}

/// How many registers family number `k` comes to.
pub open spec fn table_size(k: int, nr_irqs: int, vcpus: int) -> int {
    let (_, bits, spi_only) = family_table(k);
    family_size(bits, spi_only, nr_irqs * bits / 32, vcpus)
}

/// How many registers stand in front of family number `k`.
pub open spec fn registers_before(k: int, nr_irqs: int, vcpus: int) -> int
    decreases k,
{
    if k <= 0 {
        0
    } else {
        registers_before(k - 1, nr_irqs, vcpus) + table_size(k - 1, nr_irqs, vcpus)
    }
}

/// The families of the save order are those of the table.
proof fn lemma_family_table(k: int)
    requires
        0 <= k < 7,
    ensures
        crate::vgic_regs::families().len() == 7,
        crate::vgic_regs::families()[k].offset == family_table(k).0,
        crate::vgic_regs::families()[k].bits_per_irq == family_table(k).1,
        crate::vgic_regs::families()[k].spi_only == family_table(k).2,
{
}

/// The size of the part of a family below word `end`, and where in it each copy
/// of a word stands.
proof fn lemma_family_positions(f: GicdPerIrq, end: int, vcpus: nat, w: int, c: int)
    requires
        0 < f.bits_per_irq,
        0 <= end,
    ensures
        f.regs_below(end, vcpus).len() == family_size(
            f.bits_per_irq as int,
            f.spi_only,
            end,
            vcpus as int,
        ),
        f.first_word() <= w < end && 0 <= c < (if w < f.bits_per_irq {
            vcpus as int
        } else {
            1
        }) ==> {
            let at = if w < f.bits_per_irq {
                w * vcpus + c
            } else {
                family_size(f.bits_per_irq as int, f.spi_only, w, vcpus as int)
            };
            &&& 0 <= at < f.regs_below(end, vcpus).len()
            &&& f.regs_below(end, vcpus)[at] == (GicReg {
                group: 1,
                attr: ((c % 0x1_0000) * 0x1_0000_0000 + (f.offset + 4 * w)) as u64,
            })
        },
    decreases end,
{
    let bits = f.bits_per_irq as int;
    let v = vcpus as int;
    if end > 0 {
        lemma_family_positions(f, end - 1, vcpus, w, c);
        assert((end - 1) * v + v == end * v) by (nonlinear_arith);
        if end > f.first_word() {
            let below = f.regs_below(end - 1, vcpus);
            let word = f.word_regs(end - 1, vcpus);
            assert(f.regs_below(end, vcpus) == below + word);
            if end - 1 < bits {
                assert(!f.spi_only);
                assert(below.len() == (end - 1) * v) by {
                    assert(0 * v == 0) by (nonlinear_arith);
                }
            }
            if w == end - 1 && 0 <= c < word.len() {
                assert((below + word)[below.len() + c] == word[c]);
            }
        }
    }
}

/// The families up to number `n`: how many registers they come to, and where
/// those of each begin.
proof fn lemma_families_positions(n: int, nr_irqs: int, vcpus: nat, k: int, i: int)
    requires
        0 <= n <= 7,
        0 <= nr_irqs,
    ensures
        crate::vgic_regs::families_regs(
            crate::vgic_regs::families().take(n),
            nr_irqs,
            vcpus,
        ).len() == registers_before(n, nr_irqs, vcpus as int),
        0 <= k < n && 0 <= i < crate::vgic_regs::families()[k].regs(nr_irqs, vcpus).len() ==> {
            let at = registers_before(k, nr_irqs, vcpus as int) + i;
            let all = crate::vgic_regs::families_regs(
                crate::vgic_regs::families().take(n),
                nr_irqs,
                vcpus,
            );
            0 <= at < all.len() && all[at] == crate::vgic_regs::families()[k].regs(
                nr_irqs,
                vcpus,
            )[i]
        },
    decreases n,
{
    let fs = crate::vgic_regs::families();
    if n > 0 {
        let f = fs[n - 1];
        lemma_families_positions(n - 1, nr_irqs, vcpus, k, i);
        lemma_family_table(n - 1);
        assert(0 <= nr_irqs * f.bits_per_irq) by (nonlinear_arith)
            requires
                0 <= nr_irqs,
        ;
        lemma_family_positions(f, f.total_words(nr_irqs), vcpus, 0, 0);
        assert(fs.take(n).drop_last() =~= fs.take(n - 1));
        assert(fs.take(n).last() == f);
    }
}

/// Where each register of the distributor stands in a snapshot: the copy for
/// vCPU `c` of word `w` of family number `k`. A word below the bits per
/// interrupt is there for every vCPU, in vCPU order; a further word once, under
/// index 0.
pub proof fn law_distributor_positions(nr_irqs: int, vcpus: nat, k: int, w: int, c: int)
    requires
        0 <= nr_irqs,
        0 <= k < 7,
        0 <= w < nr_irqs * family_table(k).1 / 32,
        w < family_table(k).1 ==> !family_table(k).2 && 0 <= c < vcpus,
        w >= family_table(k).1 ==> c == 0,
    ensures
        ({
            let (offset, bits, spi_only) = family_table(k);
            let at = registers_before(k, nr_irqs, vcpus as int) + if w < bits {
                w * vcpus + c
            } else if spi_only {
                w - bits
            } else {
                bits * vcpus + (w - bits)
            };
            &&& 0 <= at < crate::vgic_regs::save_order(nr_irqs, vcpus).len()
            &&& crate::vgic_regs::save_order(nr_irqs, vcpus)[at] == (GicReg {
                group: 1,
                attr: ((c % 0x1_0000) * 0x1_0000_0000 + offset + 4 * w) as u64,
            })
        }),
{
    let fs = crate::vgic_regs::families();
    let f = fs[k];
    lemma_family_table(k);
    assert(f.total_words(nr_irqs) == nr_irqs * family_table(k).1 / 32);
    lemma_family_positions(f, f.total_words(nr_irqs), vcpus, w, c);
    let bits = family_table(k).1;
    let i = if w < bits {
        w * vcpus + c
    } else {
        family_size(bits, family_table(k).2, w, vcpus as int)
    };
    lemma_families_positions(7, nr_irqs, vcpus, k, i);
    assert(fs.take(7) =~= fs);
}

/// Where CPU-interface register number `j` of vCPU `c` stands.
proof fn lemma_cpu_position(nr_irqs: int, vcpus: nat, c: int, j: int, offset: int)
    requires
        0 <= nr_irqs,
        0 <= c < vcpus,
        0 <= j < 8,
        offset == crate::vgic_regs::cpu_offsets()[j],
    ensures
        ({
            let all = crate::vgic_regs::save_order(nr_irqs, vcpus);
            let at = registers_before(7, nr_irqs, vcpus as int) + 8 * c;
            &&& 0 <= at
            &&& at + 8 < all.len()
            &&& all[at + j] == GicReg {
                group: 2,
                attr: ((c % 0x1_0000) * 0x1_0000_0000 + offset) as u64,
            }
        }),
{
    let fs = crate::vgic_regs::families();
    let d = crate::vgic_regs::families_regs(fs, nr_irqs, vcpus);
    let cpu = crate::vgic_regs::cpu_regs(vcpus);
    lemma_families_positions(7, nr_irqs, vcpus, 0, 0);
    assert(fs.take(7) =~= fs);
    assert((8 * c + j) / 8 == c && (8 * c + j) % 8 == j);
    assert(cpu[8 * c + j] == crate::vgic_regs::cpu_reg(c, offset));
    assert((d + cpu)[d.len() + (8 * c + j)] == cpu[8 * c + j]);
}

/// Where each CPU-interface register stands in a snapshot: behind the
/// distributor's, eight for each vCPU in vCPU order: control, priority mask,
/// binary point, aliased binary point and the four active-priority words.
pub proof fn law_cpu_interface_positions(nr_irqs: int, vcpus: nat, c: int)
    requires
        0 <= nr_irqs,
        0 <= c < vcpus,
    ensures
        ({
            let all = crate::vgic_regs::save_order(nr_irqs, vcpus);
            let at = registers_before(7, nr_irqs, vcpus as int) + 8 * c;
            let base = (c % 0x1_0000) * 0x1_0000_0000;
            &&& 0 <= at
            &&& at + 8 < all.len()
            &&& all[at] == GicReg { group: 2, attr: (base + 0x00) as u64 }
            &&& all[at + 1] == GicReg { group: 2, attr: (base + 0x04) as u64 }
            &&& all[at + 2] == GicReg { group: 2, attr: (base + 0x08) as u64 }
            &&& all[at + 3] == GicReg { group: 2, attr: (base + 0x1c) as u64 }
            &&& all[at + 4] == GicReg { group: 2, attr: (base + 0xd0) as u64 }
            &&& all[at + 5] == GicReg { group: 2, attr: (base + 0xd4) as u64 }
            &&& all[at + 6] == GicReg { group: 2, attr: (base + 0xd8) as u64 }
            &&& all[at + 7] == GicReg { group: 2, attr: (base + 0xdc) as u64 }
        }),
{
    lemma_cpu_position(nr_irqs, vcpus, c, 0, 0x00);
    lemma_cpu_position(nr_irqs, vcpus, c, 1, 0x04);
    lemma_cpu_position(nr_irqs, vcpus, c, 2, 0x08);
    lemma_cpu_position(nr_irqs, vcpus, c, 3, 0x1c);
    lemma_cpu_position(nr_irqs, vcpus, c, 4, 0xd0);
    lemma_cpu_position(nr_irqs, vcpus, c, 5, 0xd4);
    lemma_cpu_position(nr_irqs, vcpus, c, 6, 0xd8);
    lemma_cpu_position(nr_irqs, vcpus, c, 7, 0xdc);
}

/// How many of `words` words are banked, when the first `bits` are.
pub open spec fn banked_words(words: int, bits: int) -> int {
    if words < bits {
        words
    } else {
        bits
    }
}

/// How many of `words` words are shared, when the first `bits` are banked.
pub open spec fn shared_words(words: int, bits: int) -> int {
    if words < bits {
        0
    } else {
        words - bits
    }
}

/// How many registers a snapshot holds, by the numbers of interrupts and vCPUs:
/// of group, enable, pending and active a word for 32 interrupts, of priority
/// for 4, of configuration for 16, those of the first 32 interrupts for every
/// vCPU; of targets only the shared words; eight CPU-interface registers for
/// every vCPU; and the distributor control register, which comes last.
pub proof fn law_save_order_length(nr_irqs: int, vcpus: nat)
    requires
        0 <= nr_irqs,
    ensures
        crate::vgic_regs::save_order(nr_irqs, vcpus).len() == 4 * (banked_words(nr_irqs / 32, 1)
            * vcpus + shared_words(nr_irqs / 32, 1)) + banked_words(nr_irqs / 4, 8) * vcpus + 2
            * shared_words(nr_irqs / 4, 8) + banked_words(nr_irqs / 16, 2) * vcpus + shared_words(
            nr_irqs / 16,
            2,
        ) + 8 * vcpus + 1,
        crate::vgic_regs::save_order(nr_irqs, vcpus).last() == (GicReg { group: 1, attr: 0 }),
{
    let fs = crate::vgic_regs::families();
    let v = vcpus as int;
    lemma_families_positions(7, nr_irqs, vcpus, 0, 0);
    assert(fs.take(7) =~= fs);
    reveal_with_fuel(registers_before, 8);
    assert(0 * v == 0) by (nonlinear_arith);
    assert(nr_irqs * 1 / 32 == nr_irqs / 32);
    assert(nr_irqs * 8 / 32 == nr_irqs / 4);
    assert(nr_irqs * 2 / 32 == nr_irqs / 16);
    let one = banked_words(nr_irqs / 32, 1) * v + shared_words(nr_irqs / 32, 1);
    assert(table_size(0, nr_irqs, v) == one);
    assert(table_size(4, nr_irqs, v) == one);
    assert(table_size(5, nr_irqs, v) == one);
    assert(table_size(6, nr_irqs, v) == one);
    assert(table_size(1, nr_irqs, v) == banked_words(nr_irqs / 4, 8) * v + shared_words(
        nr_irqs / 4,
        8,
    ));
    assert(table_size(2, nr_irqs, v) == shared_words(nr_irqs / 4, 8));
    assert(table_size(3, nr_irqs, v) == banked_words(nr_irqs / 16, 2) * v + shared_words(
        nr_irqs / 16,
        2,
    ));
}

/// The banked words of every vCPU are saved: those of the private interrupts'
/// group, priority, configuration, enable, pending and active state, as far as
/// the vGIC has them.
pub proof fn law_banked_words_of_every_vcpu(nr_irqs: int, vcpus: nat, c: int, w: int)
    requires
        0 <= nr_irqs,
        0 <= c < vcpus,
        0 <= w,
    ensures
        ({
            let all = crate::vgic_regs::save_order(nr_irqs, vcpus);
            let base = (c % 0x1_0000) * 0x1_0000_0000 + 4 * w;
            &&& w < 1 && w < nr_irqs / 32 ==> {
                &&& all.contains(GicReg { group: 1, attr: (base + 0x080) as u64 })
                &&& all.contains(GicReg { group: 1, attr: (base + 0x100) as u64 })
                &&& all.contains(GicReg { group: 1, attr: (base + 0x200) as u64 })
                &&& all.contains(GicReg { group: 1, attr: (base + 0x300) as u64 })
            }
            &&& w < 8 && w < nr_irqs / 4 ==> all.contains(
                GicReg { group: 1, attr: (base + 0x400) as u64 },
            )
            &&& w < 2 && w < nr_irqs / 16 ==> all.contains(
                GicReg { group: 1, attr: (base + 0xc00) as u64 },
            )
        }),
{
    assert(nr_irqs * 1 / 32 == nr_irqs / 32);
    assert(nr_irqs * 8 / 32 == nr_irqs / 4);
    assert(nr_irqs * 2 / 32 == nr_irqs / 16);
    if w < 1 && w < nr_irqs / 32 {
        law_distributor_positions(nr_irqs, vcpus, 0, w, c);
        law_distributor_positions(nr_irqs, vcpus, 4, w, c);
        law_distributor_positions(nr_irqs, vcpus, 5, w, c);
        law_distributor_positions(nr_irqs, vcpus, 6, w, c);
    }
    if w < 8 && w < nr_irqs / 4 {
        law_distributor_positions(nr_irqs, vcpus, 1, w, c);
    }
    if w < 2 && w < nr_irqs / 16 {
        law_distributor_positions(nr_irqs, vcpus, 3, w, c);
    }
}

/// The shared words are saved, those of the targets among them, as far as the
/// vGIC has them.
pub proof fn law_shared_words_are_saved(nr_irqs: int, vcpus: nat, w: int)
    requires
        0 <= nr_irqs,
    ensures
        ({
            let all = crate::vgic_regs::save_order(nr_irqs, vcpus);
            &&& 1 <= w < nr_irqs / 32 ==> {
                &&& all.contains(GicReg { group: 1, attr: (0x080 + 4 * w) as u64 })
                &&& all.contains(GicReg { group: 1, attr: (0x100 + 4 * w) as u64 })
                &&& all.contains(GicReg { group: 1, attr: (0x200 + 4 * w) as u64 })
                &&& all.contains(GicReg { group: 1, attr: (0x300 + 4 * w) as u64 })
            }
            &&& 8 <= w < nr_irqs / 4 ==> {
                &&& all.contains(GicReg { group: 1, attr: (0x400 + 4 * w) as u64 })
                &&& all.contains(GicReg { group: 1, attr: (0x800 + 4 * w) as u64 })
            }
            &&& 2 <= w < nr_irqs / 16 ==> all.contains(
                GicReg { group: 1, attr: (0xc00 + 4 * w) as u64 },
            )
        }),
{
    assert(nr_irqs * 1 / 32 == nr_irqs / 32);
    assert(nr_irqs * 8 / 32 == nr_irqs / 4);
    assert(nr_irqs * 2 / 32 == nr_irqs / 16);
    if 1 <= w < nr_irqs / 32 {
        law_distributor_positions(nr_irqs, vcpus, 0, w, 0);
        law_distributor_positions(nr_irqs, vcpus, 4, w, 0);
        law_distributor_positions(nr_irqs, vcpus, 5, w, 0);
        law_distributor_positions(nr_irqs, vcpus, 6, w, 0);
    }
    if 8 <= w < nr_irqs / 4 {
        law_distributor_positions(nr_irqs, vcpus, 1, w, 0);
        law_distributor_positions(nr_irqs, vcpus, 2, w, 0);
    }
    if 2 <= w < nr_irqs / 16 {
        law_distributor_positions(nr_irqs, vcpus, 3, w, 0);
    }
}

} // verus!
