//! Parameters and errors of the assignment.
use vstd::prelude::*;

verus! {

/// A range of addresses that BARs can be placed in.
#[derive(Debug, Clone, Copy)]
pub struct MmioAperture {
    /// First address.
    pub base: u64,
    /// Number of bytes.
    pub len: u64,
}

/// What enumeration and assignment work with.
#[derive(Debug, Clone, Copy)]
pub struct AssignmentParams {
    /// First bus number of the host bridge.
    pub start_bus: u8,
    /// Last bus number of the host bridge.
    pub end_bus: u8,
    /// Aperture below 4 GB.
    pub low_mmio: Option<MmioAperture>,
    /// Aperture above 4 GB.
    pub high_mmio: Option<MmioAperture>,
    /// Whether BARs that are found programmed keep their addresses.
    pub preserve_bars: bool,
}

/// Why enumeration or assignment failed.
#[derive(Debug, Clone, Copy)]
pub enum AssignmentError {
    /// An aperture is too small, or there is none.
    MmioExhaustion {
        /// Bytes needed.
        required: u64,
        /// Bytes there are.
        available: u64,
        /// Which aperture.
        aperture: &'static str,
    },
    /// There are not enough bus numbers.
    BusExhaustion {
        /// Bus number of the function that needs one.
        bus: u8,
        /// Device number.
        device: u8,
        /// Function number.
        function: u8,
    },
    /// The VFs of a PF reach into buses that are already in use.
    SriovBusConflict {
        /// Bus number of the PF.
        bus: u8,
        /// Device number.
        device: u8,
        /// Function number.
        function: u8,
        /// Bus number of the last VF.
        max_vf_bus: u16,
        /// First bus number that is not in use.
        next_bus: u16,
    },
    /// A pinned BAR is not naturally aligned.
    PinnedBarMisaligned {
        /// Bus number.
        bus: u8,
        /// Device number.
        device: u8,
        /// Function number.
        function: u8,
        /// BAR register index.
        bar_index: u8,
        /// The pinned address.
        address: u64,
        /// What it should be a multiple of.
        required_alignment: u64,
    },
    /// Two pinned BARs overlap.
    PinnedBarOverlap {
        /// Start of the first.
        first_address: u64,
        /// End of the first.
        first_end: u64,
        /// Start of the second.
        second_address: u64,
        /// End of the second.
        second_end: u64,
    },
    /// A pinned BAR lies outside the aperture.
    PinnedBarOutOfAperture {
        /// Bus number.
        bus: u8,
        /// Device number.
        device: u8,
        /// Function number.
        function: u8,
        /// BAR register index.
        bar_index: u8,
        /// The pinned address.
        address: u64,
        /// Size of the BAR.
        size: u64,
        /// Which aperture.
        aperture: &'static str,
    },
    /// The range of the pinned BARs starts below the aperture, at a multiple of the
    /// bridge granularity, and something would have to be placed there.
    PinnedRangeBelowAperture {
        /// Where the range starts.
        range_base: u64,
        /// Where the aperture starts.
        aperture_base: u64,
        /// Which aperture.
        aperture: &'static str,
    },
}

/// Where an aperture ends.
pub open spec fn aperture_end(a: MmioAperture) -> int {
    a.base + a.len
}

/// Whether the apertures end within the address space.
pub open spec fn params_ok(params: AssignmentParams) -> bool {
    &&& params.low_mmio matches Some(a) ==> aperture_end(a) <= u64::MAX
    &&& params.high_mmio matches Some(a) ==> aperture_end(a) <= u64::MAX
}

/// The aperture of a pool: mem32 goes into the low one, mem64 into the high
/// one or, without it, into the low one.
pub open spec fn pool_aperture(params: AssignmentParams, mem64: bool) -> Option<MmioAperture> {
    if mem64 && params.high_mmio is Some {
        params.high_mmio
    } else {
        params.low_mmio
    }
}

/// Whether a range lies in an aperture.
pub open spec fn in_aperture(a: Option<MmioAperture>, addr: int, size: int) -> bool {
    a matches Some(a) && a.base <= addr && addr + size <= aperture_end(a)
}

/// Returns the aperture of a pool.
pub fn select_aperture(params: &AssignmentParams, mem64: bool) -> (r: Option<MmioAperture>)
    ensures
        r == pool_aperture(*params, mem64),
{
    if mem64 && params.high_mmio.is_some() {
        params.high_mmio
    } else {
        params.low_mmio
    }
}

/// Returns whether a range lies in an aperture.
pub fn range_in_aperture(a: Option<MmioAperture>, addr: u64, size: u64) -> (r: bool)
    requires
        addr + size <= u64::MAX,
        a matches Some(a) ==> aperture_end(a) <= u64::MAX,
    ensures
        r == in_aperture(a, addr as int, size as int),
{
    match a {
        Some(a) => a.base <= addr && addr + size <= a.base + a.len,
        None => false,
    }
}

}
