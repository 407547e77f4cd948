//! What the monitor asks of an interrupt controller.

use vstd::prelude::*;

verus! {

/// An interrupt controller of a virtual machine.
pub trait GICDevice {
    /// Returns an array with GIC device properties
    fn device_properties(&self) -> Vec<u64>;

    /// Returns the number of vCPUs this GIC handles
    fn vcpu_count(&self) -> u64;

    /// Returns the fdt compatibility property of the device
    fn fdt_compatibility(&self) -> String;

    /// Returns the maint_irq fdt property of the device
    fn fdt_maint_irq(&self) -> u32;

    /// Returns the GIC version of the device
    fn version(&self) -> u32;

    /// Captures the interrupt-controller state for a cold snapshot as a
    /// version-tagged, opaque blob. A controller that does not provide it
    /// reports that it is unsupported.
    fn save_state(&self) -> (r: Result<Vec<u8>, String>)
        default_ensures
            r matches Err(e) && e@
                == "interrupt controller does not support cold-tier save/restore"@,
    {
        Err("interrupt controller does not support cold-tier save/restore".to_owned())
    }

    /// Restores a blob produced by [`GICDevice::save_state`]. A controller that
    /// does not provide it reports that it is unsupported.
    fn restore_state(&self, _blob: &[u8]) -> (r: Result<(), String>)
        default_ensures
            r matches Err(e) && e@
                == "interrupt controller does not support cold-tier save/restore"@,
    {
        Err("interrupt controller does not support cold-tier save/restore".to_owned())
    }
}

} // verus!
