# pci_model

A verified model of PCI emulation. Every function of the library states what it does
and is proved to do it with [Verus](https://github.com/verus-lang/verus).

- `regs`, `io`, `slots`, `save_restore`: registers, results of accesses, and small parts.
- `bars`, `cfg_space`: BARs and the emulation of config space, with type 0 and type 1
  headers, legacy interrupts, and saved state.
- `capabilities`: MSI, PCI Express, ACS, AER, DPC, SR-IOV and vendor-specific ones.
- `bus_range`, `msi`, `its`, `dma`: the identity of a device towards interrupts and DMA.
  It follows the bus numbers of the port that owns the device: a port lends its bus
  range, and whoever composes an identity is handed it along with each message.
- `pcie`: ports, switches and the root complex: routing of config accesses and of
  errors, topologies of switches, and error injection.
- `resource`: enumeration of buses, sizing of BARs, and assignment of addresses.
- `nesting`: the stream backend of an emulated SMMU on a host IOMMU.
- `vpci`: registers of a virtual PCI bus and packets for its device.

Enumeration does not touch config space itself. It takes the responses so far and says
which accesses come next; whoever has config space makes them and asks again. The
stream backend asks its host in the same way, one action at a time.

Functions named `law_...` state what holds of several functions together: what is
saved is restored, BARs do not overlap, bus numbers are not shared, a stream is never
left unattached. BARs do not overlap if the fixed positions do not: pinned BARs are
refused where they overlap, and so it is enough that the bridge windows which hold them
lie apart, as they do where all pinned BARs stand on one level.

`app/` holds the ordinary Rust around the library: drivers of those conversations and
errors for display. `tests/` runs the library on concrete values.
