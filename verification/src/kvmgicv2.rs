//! The in-kernel GICv2 of a KVM guest: how it is set up, described, saved and
//! restored.
//!
//! The type here decides; whoever holds the device file performs what it asks
//! for. A save asks for one register at a time and ends in a blob; a restore
//! asks for one register write at a time.

use vstd::prelude::*;
use crate::text::{append_decimal, append_hex};
use crate::vgic_regs::{
    KVM_DEV_ARM_VGIC_CTRL_INIT, KVM_DEV_ARM_VGIC_GRP_ADDR, KVM_DEV_ARM_VGIC_GRP_CTRL,
    KVM_DEV_ARM_VGIC_GRP_NR_IRQS, KVM_VGIC_V2_ADDR_TYPE_CPU, KVM_VGIC_V2_ADDR_TYPE_DIST,
};
use crate::vgic_runs::{GicRestore, GicSave};

verus! {

/// Size of the distributor window.
pub const KVM_VGIC_V2_DIST_SIZE: u64 = 0x1000;

/// Size of the CPU-interface window.
pub const KVM_VGIC_V2_CPU_SIZE: u64 = 0x2000;

/// Maintenance interrupt for the device tree.
pub const ARCH_GIC_V2_MAINT_IRQ: u32 = 8;

/// The device type of a GICv2.
pub const KVM_DEV_TYPE_ARM_VGIC_V2: u32 = 5;

/// What is written to the event of an interrupt line to raise it.
pub const IRQ_EVENT_VALUE: u64 = 1;

/// The size of the argument of the attribute requests:
/// `core::mem::size_of` on `kvm_bindings::kvm_device_attr`, two 32-bit and two
/// 64-bit fields in C layout, 24 bytes.
#[verifier::external_body]
fn device_attr_size() -> (n: u64)
    ensures
        n == 24,
{
    core::mem::size_of::<kvm_bindings::kvm_device_attr>() as u64
}

/// The request number that reads a device attribute: a request with a write
/// direction, of KVM's own type, number 0xe2, with the size of its argument.
pub fn kvm_ioc_get_device_attr() -> (r: u64)
    ensures
        r == 0x4000_0000 + 24 * 0x1_0000 + 0xae * 0x100 + 0xe2,
{
    let size: u64 = device_attr_size();
    assert((1u64 << 30) | (24u64 << 16) | (0xaeu64 << 8) | 0xe2u64 == 0x4018_aee2u64) by (bit_vector);
    (1u64 << 30) | (size << 16) | (0xaeu64 << 8) | 0xe2u64
}

/// The value that an attribute write carries.
#[derive(Clone, Copy, Debug, PartialEq, Eq, Structural)]
pub enum AttrValue {
    /// A 64-bit value.
    Long(u64),
    /// A 32-bit value.
    Word(u32),
    /// No value.
    Absent,
}

/// One attribute write of the device setup.
#[derive(Clone, Copy, Debug, PartialEq, Eq, Structural)]
pub struct AttrWrite {
    pub group: u32,
    pub attr: u64,
    pub value: AttrValue,
}

/// A GICv2 of a KVM guest.
pub struct KvmGicV2 {
    /// GIC device properties, to be used for setting up the fdt entry
    properties: [u64; 4],
    /// Number of CPUs handled by the device
    vcpu_count: u64,
    /// Total IRQ lines the vGIC was created with; bounds the distributor
    /// register sweep in save.
    nr_irqs: u32,
}

/// The text that reports a failed attribute request.
pub open spec fn attr_failure(
    request: Seq<char>,
    group: u32,
    attr: u64,
    cause: Seq<char>,
) -> Seq<char> {
    request + "(group="@ + crate::text::decimal(group as nat) + ", attr="@ + crate::text::hex(
        attr as nat,
    ) + "): "@ + cause
}

/// Writes the text that reports a failed attribute request.
fn attr_failure_text(request: &str, group: u32, attr: u64, cause: &str) -> (text: String)
    ensures
        text@ == attr_failure(request@, group, attr, cause@),
{
    let mut text: String = request.to_owned();
    text.append("(group=");
    append_decimal(&mut text, group as u64);
    text.append(", attr=");
    append_hex(&mut text, attr);
    text.append("): ");
    text.append(cause);
    text
}

impl KvmGicV2 {
    /// The four device properties: address and size of the distributor window,
    /// then of the CPU-interface window.
    pub closed spec fn properties(self) -> [u64; 4] {
        self.properties
    }

    /// The number of vCPUs.
    pub closed spec fn vcpus(self) -> u64 {
        self.vcpu_count
    }

    /// The number of interrupt lines.
    pub closed spec fn irqs(self) -> u32 {
        self.nr_irqs
    }

    /// Lays the device out: the distributor window ends where device memory
    /// starts, and the CPU-interface window ends where the distributor starts.
    pub fn new(mmio_mem_start: u64, irq_base: u32, irq_max: u32, vcpu_count: u64) -> (gic: Self)
        requires
            mmio_mem_start >= KVM_VGIC_V2_DIST_SIZE + KVM_VGIC_V2_CPU_SIZE,
            irq_base <= irq_max,
            irq_max - irq_base < u32::MAX,
        ensures
            gic.properties()[0] + KVM_VGIC_V2_DIST_SIZE == mmio_mem_start,
            gic.properties()[1] == KVM_VGIC_V2_DIST_SIZE,
            gic.properties()[2] + KVM_VGIC_V2_CPU_SIZE == gic.properties()[0],
            gic.properties()[3] == KVM_VGIC_V2_CPU_SIZE,
            gic.properties()[0] == mmio_mem_start - 0x1000,
            gic.properties()[1] == 0x1000,
            gic.properties()[2] == mmio_mem_start - 0x3000,
            gic.properties()[3] == 0x2000,
            gic.vcpus() == vcpu_count,
            gic.irqs() == irq_max - irq_base + 1,
    {
        let dist_size: u64 = KVM_VGIC_V2_DIST_SIZE;
        let dist_addr: u64 = mmio_mem_start - dist_size;
        let cpu_size: u64 = KVM_VGIC_V2_CPU_SIZE;
        let cpu_addr: u64 = dist_addr - cpu_size;
        let nr_irqs: u32 = irq_max - irq_base + 1;
        KvmGicV2 { properties: [dist_addr, dist_size, cpu_addr, cpu_size], vcpu_count, nr_irqs }
    }

    /// The attribute writes that set the created device up, in order: the two
    /// window addresses, the number of interrupt lines, then initialization.
    pub fn setup_writes(&self) -> (writes: Vec<AttrWrite>)
        ensures
            writes@ == seq![
                AttrWrite {
                    group: KVM_DEV_ARM_VGIC_GRP_ADDR,
                    attr: KVM_VGIC_V2_ADDR_TYPE_DIST as u64,
                    value: AttrValue::Long(self.properties()[0]),
                },
                AttrWrite {
                    group: KVM_DEV_ARM_VGIC_GRP_ADDR,
                    attr: KVM_VGIC_V2_ADDR_TYPE_CPU as u64,
                    value: AttrValue::Long(self.properties()[2]),
                },
                AttrWrite {
                    group: KVM_DEV_ARM_VGIC_GRP_NR_IRQS,
                    attr: 0,
                    value: AttrValue::Word(self.irqs()),
                },
                AttrWrite {
                    group: KVM_DEV_ARM_VGIC_GRP_CTRL,
                    attr: KVM_DEV_ARM_VGIC_CTRL_INIT as u64,
                    value: AttrValue::Absent,
                },
            ],
            writes@ == seq![
                AttrWrite { group: 0, attr: 0, value: AttrValue::Long(self.properties()[0]) },
                AttrWrite { group: 0, attr: 1, value: AttrValue::Long(self.properties()[2]) },
                AttrWrite { group: 3, attr: 0, value: AttrValue::Word(self.irqs()) },
                AttrWrite { group: 4, attr: 0, value: AttrValue::Absent },
            ],
    {
        let mut writes: Vec<AttrWrite> = Vec::new();
        writes.push(
            AttrWrite {
                group: KVM_DEV_ARM_VGIC_GRP_ADDR,
                attr: KVM_VGIC_V2_ADDR_TYPE_DIST as u64,
                value: AttrValue::Long(self.properties[0]),
            },
        );
        writes.push(
            AttrWrite {
                group: KVM_DEV_ARM_VGIC_GRP_ADDR,
                attr: KVM_VGIC_V2_ADDR_TYPE_CPU as u64,
                value: AttrValue::Long(self.properties[2]),
            },
        );
        writes.push(
            AttrWrite {
                group: KVM_DEV_ARM_VGIC_GRP_NR_IRQS,
                attr: 0,
                value: AttrValue::Word(self.nr_irqs),
            },
        );
        writes.push(
            AttrWrite {
                group: KVM_DEV_ARM_VGIC_GRP_CTRL,
                attr: KVM_DEV_ARM_VGIC_CTRL_INIT as u64,
                value: AttrValue::Absent,
            },
        );
        writes
    }

    /// What a register read returns, from what the request returned: the value
    /// it filled in, or, for a negative return, the system's error as text.
    pub fn get_reg(group: u32, attr: u64, ret: i32, val: u32, os_error: &str) -> (r: Result<
        u32,
        String,
    >)
        ensures
            match r {
                Ok(v) => ret >= 0 && v == val,
                Err(e) => ret < 0 && e@ == attr_failure(
                    "KVM_GET_DEVICE_ATTR"@,
                    group,
                    attr,
                    os_error@,
                ),
            },
            r matches Err(e) ==> e@ == "KVM_GET_DEVICE_ATTR"@ + "(group="@ + crate::text::decimal(
                group as nat,
            ) + ", attr="@ + crate::text::hex(attr as nat) + "): "@ + os_error@,
    {
        if ret < 0 {
            return Err(attr_failure_text("KVM_GET_DEVICE_ATTR", group, attr, os_error));
        }
        Ok(val)
    }

    /// What a register write returns, from the reply of the request: its error
    /// is reported with the register that it was about.
    pub fn set_reg(group: u32, attr: u64, reply: Result<(), String>) -> (r: Result<(), String>)
        ensures
            match (reply, r) {
                (Ok(_), Ok(_)) => true,
                (Err(cause), Err(e)) => e@ == attr_failure(
                    "KVM_SET_DEVICE_ATTR"@,
                    group,
                    attr,
                    cause@,
                ),
                _ => false,
            },
            reply matches Err(cause) ==> (r matches Err(e) && e@ == "KVM_SET_DEVICE_ATTR"@
                + "(group="@ + crate::text::decimal(group as nat) + ", attr="@ + crate::text::hex(
                attr as nat,
            ) + "): "@ + cause@),
    {
        match reply {
            Ok(()) => Ok(()),
            Err(cause) => Err(
                attr_failure_text("KVM_SET_DEVICE_ATTR", group, attr, cause.as_str()),
            ),
        }
    }

    /// Returns an array with GIC device properties
    pub fn device_properties(&self) -> (r: Vec<u64>)
        ensures
            r@ == self.properties()@,
    {
        let mut r: Vec<u64> = Vec::new();
        r.push(self.properties[0]);
        r.push(self.properties[1]);
        r.push(self.properties[2]);
        r.push(self.properties[3]);
        assert(r@ =~= self.properties()@);
        r
    }

    /// Returns the number of vCPUs this GIC handles
    pub fn vcpu_count(&self) -> (r: u64)
        ensures
            r == self.vcpus(),
    {
        self.vcpu_count
    }

    /// Returns the fdt compatibility property of the device
    pub fn fdt_compatibility(&self) -> (r: String)
        ensures
            r@ == "arm,gic-400"@,
    {
        "arm,gic-400".to_owned()
    }

    /// Returns the maint_irq fdt property of the device
    pub fn fdt_maint_irq(&self) -> (r: u32)
        ensures
            r == 8,
    {
        ARCH_GIC_V2_MAINT_IRQ
    }

    /// Returns the GIC version of the device
    pub fn version(&self) -> (r: u32)
        ensures
            r == KVM_DEV_TYPE_ARM_VGIC_V2,
            r == 5,
    {
        KVM_DEV_TYPE_ARM_VGIC_V2
    }

    /// Starts a save: the registers of the device in restore-safe order, none
    /// read yet.
    pub fn save_state(&self) -> (next: GicSave)
        requires
            self.irqs() * 8 <= u32::MAX,
        ensures
            next@ == crate::vgic_runs::save_started(
                crate::vgic_regs::save_order(self.irqs() as int, self.vcpus() as nat),
            ),
            next matches GicSave::Read(run) && run.regs() == crate::vgic_regs::save_order(
                self.irqs() as int,
                self.vcpus() as nat,
            ) && run.vals() == Seq::<u32>::empty(),
    {
        GicSave::start(self.nr_irqs, self.vcpu_count)
    }

    /// Starts a restore from a blob that a save produced.
    pub fn restore_state<'a>(&self, blob: &'a [u8]) -> (next: GicRestore<'a>)
        ensures
            next@ == crate::vgic_runs::restore_started(blob@),
            if !(blob@.len() >= 4 && blob@[0] == 0x47 && blob@[1] == 0x56 && blob@[2] == 0x32
                && blob@[3] == 0x01) {
                next matches GicRestore::Failed(error) && error@
                    == "gicv2 restore: blob tag mismatch (snapshot from a different GIC version?)"@
            } else if blob@.len() >= 20 {
                next matches GicRestore::Write(run) && run.blob() == blob@ && run.written() == 0
            } else if blob@.len() == 4 {
                next is Done
            } else {
                next matches GicRestore::Failed(error) && error@
                    == "gicv2 restore: trailing bytes in blob"@
            },
    {
        GicRestore::start(blob)
    }

    /// The in-kernel device answers no MMIO access in the monitor.
    pub fn get_mmio_addr(&self) -> (r: u64)
        ensures
            r == 0,
    {
        0
    }

    /// The in-kernel device answers no MMIO access in the monitor.
    pub fn get_mmio_size(&self) -> (r: u64)
        ensures
            r == 0,
    {
        0
    }
}

/// The numbers that the kernel and the guest know the device by.
pub proof fn law_device_numbers()
    ensures
        KVM_VGIC_V2_DIST_SIZE == 0x1000,
        KVM_VGIC_V2_CPU_SIZE == 0x2000,
        ARCH_GIC_V2_MAINT_IRQ == 8,
        KVM_DEV_TYPE_ARM_VGIC_V2 == 5,
        IRQ_EVENT_VALUE == 1,
{
}

/// The report of a failed attribute request: the request in front, then the group
/// in decimal and the attribute in hexadecimal, and the cause at the end.
pub proof fn law_failure_report(
    request: Seq<char>,
    group: u32,
    attr: u64,
    cause: Seq<char>,
)
    ensures
        attr_failure(request, group, attr, cause) == request + "(group="@ + crate::text::decimal(
            group as nat,
        ) + ", attr="@ + crate::text::hex(attr as nat) + "): "@ + cause,
        attr_failure(request, group, attr, cause).take(request.len() as int) == request,
        attr_failure(request, group, attr, cause).skip(
            attr_failure(request, group, attr, cause).len() - cause.len(),
        ) == cause,
{
    let all = attr_failure(request, group, attr, cause);
    assert(all.take(request.len() as int) =~= request);
    assert(all.skip(all.len() - cause.len()) =~= cause);
}

/// Why the event of an interrupt line could not be signaled.
pub enum SignalError<E> {
    /// Writing the event failed.
    Write(E),
    /// The line has no event; the text says so.
    NotFound(String),
}

/// Why an interrupt could not be raised.
pub enum DeviceError<E> {
    /// The event of the line could not be signaled.
    FailedSignalingUsedQueue(SignalError<E>),
}

/// What raising an interrupt line returns. `signal` is the outcome of writing
/// [`IRQ_EVENT_VALUE`] to the event of the line, if the line has one.
pub fn set_irq<E>(_irq_line: Option<u32>, signal: Option<Result<(), E>>) -> (r: Result<
    (),
    DeviceError<E>,
>)
    ensures
        match signal {
            Some(Ok(_)) => r == Ok::<(), DeviceError<E>>(()),
            Some(Err(e)) => r == Err::<(), DeviceError<E>>(
                DeviceError::FailedSignalingUsedQueue(SignalError::Write(e)),
            ),
            None => r matches Err(DeviceError::FailedSignalingUsedQueue(SignalError::NotFound(text)))
                && text@ == "EventFd not set up for irq line"@,
        },
{
    match signal {
        Some(Ok(())) => Ok(()),
        Some(Err(e)) => Err(DeviceError::FailedSignalingUsedQueue(SignalError::Write(e))),
        None => Err(
            DeviceError::FailedSignalingUsedQueue(
                SignalError::NotFound("EventFd not set up for irq line".to_owned()),
            ),
        ),
    }
}

} // verus!
