//! Bus enumeration decisions and MMIO address assignment.
pub mod align;
pub mod apart;
pub mod assign;
pub mod bus_numbers;
pub mod complete;
pub mod demand;
pub mod device;
pub mod enumerate;
pub mod feasible;
pub mod fit;
pub mod found;
pub mod gaps;
pub mod geometry;
pub mod hearing;
pub mod laws;
pub mod levels;
pub mod linked;
pub mod listing;
pub mod numbering;
pub mod params;
pub mod pinned;
pub mod placement;
pub mod probe;
pub mod program;
pub mod programmed;
pub mod replay;
pub mod scan;
pub mod session;
pub mod sized;
pub mod sizing;
pub mod sort;
pub mod sounding;
pub mod steps;
pub mod subtree;
pub mod tree;
pub mod walk;
pub mod windows;
