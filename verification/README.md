# cold_tier

Cold snapshot and restore of a virtual machine: the parts that decide and
encode, proved with Verus, and the parts that touch the machine around them.

`src/` is the verified library.

- `vgic_regs`, `vgic_order`: the GICv2 registers of a snapshot, their order, and
  why replaying them in that order is safe.
- `vgic_blob`: the saved form of a GICv2.
- `vgic_runs`, `kvmgicv2`, `gic`: saving and restoring a GICv2 one register at a
  time, and the controller that does it.
- `guest_ram`: guest RAM behind a handle that records every store.
- `snapshot`, `memory_runs`, `memory_laws`: guest RAM as a byte stream, and back,
  at once or region by region, and why restored memory equals the captured one.
- `persist`: the state of all virtio devices, captured and matched again.
- `block`: disk-image options and copy-on-write overlays.
- `targets`: which targets have the cold tier.
- `text`: numbers as text, and equality of texts.

`app/` holds the device files, streams, JSON and disk images. `tests/` runs the
library against real guest memory and simulated devices.
