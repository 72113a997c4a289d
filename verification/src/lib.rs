//! A PCI Express model: capabilities, config space, ports and buses, and the
//! assignment of bus numbers and addresses to the devices of a hierarchy.
pub mod bars;
pub mod bus_range;
pub mod capabilities;
pub mod cfg_space;
pub mod dma;
pub mod io;
pub mod its;
pub mod msi;
pub mod nesting;
pub mod pcie;
pub mod regs;
pub mod resource;
pub mod save_restore;
pub mod slots;
pub mod vpci;
