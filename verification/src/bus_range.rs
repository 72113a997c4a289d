//! The bus range assigned to the port that owns a device.
use vstd::prelude::*;

verus! {

/// Segment-local bus range assigned to a PCIe downstream port.
///
/// There is one for each port: that of its registers. It is lent out and not
/// copied. Whoever composes an identity from it is handed the range along with
/// each message, and so goes by the bus numbers that the port has then.
#[derive(Debug, PartialEq, Eq, Structural)]
pub struct AssignedBusRange {
    /// The bus on the secondary side of the port.
    pub secondary: u8,
    /// The highest bus below the port.
    pub subordinate: u8,
}

impl AssignedBusRange {
    /// Creates a bus range of zeros.
    pub fn new() -> (r: Self)
        ensures
            r == unassigned(),
    {
        AssignedBusRange { secondary: 0, subordinate: 0 }
    }

    /// Updates the bus range.
    pub fn set_bus_range(&mut self, secondary: u8, subordinate: u8)
        ensures
            *final(self) == (AssignedBusRange { secondary, subordinate }),
    {
        self.secondary = secondary;
        self.subordinate = subordinate;
    }

    /// Returns the current secondary and subordinate bus numbers.
    pub fn bus_range(&self) -> (r: (u8, u8))
        ensures
            r == (self.secondary, self.subordinate),
    {
        (self.secondary, self.subordinate)
    }

    /// Returns whether a bus number is in the range.
    pub fn contains_bus(&self, bus: u8) -> (r: bool)
        ensures
            r == in_bus_range(*self, bus as int),
    {
        let (secondary, subordinate) = self.bus_range();
        secondary <= bus && bus <= subordinate
    }

    /// Composes an ITS device identifier from the bus range, the segment and
    /// the device's BDF, which defaults to function 0 of the secondary bus.
    ///
    /// Returns `None` while no secondary bus is assigned, or if the BDF's bus
    /// number is outside the range.
    pub fn compose_its_devid(&self, segment: u16, devid: Option<u32>) -> (r: Option<u32>)
        ensures
            r == its_devid(*self, segment, devid),
    {
        let (secondary, subordinate) = self.bus_range();
        if secondary == 0 {
            return None;
        }
        let bdf: u32 = match devid {
            Some(b) => b,
            None => secondary as u32 * 256,
        };
        let bus: u32 = bdf / 256 % 256;
        if bus < secondary as u32 || bus > subordinate as u32 {
            return None;
        }
        Some(segment as u32 * 0x1_0000 + bdf % 0x1_0000)
    }
}

impl Default for AssignedBusRange {
    fn default() -> (r: Self)
        ensures
            r == unassigned(),
    {
        AssignedBusRange::new()
    }
}

/// The range of a port whose bus numbers are not assigned.
pub open spec fn unassigned() -> AssignedBusRange {
    AssignedBusRange { secondary: 0, subordinate: 0 }
}

/// Whether a bus number is in the range.
pub open spec fn in_bus_range(range: AssignedBusRange, bus: int) -> bool {
    range.secondary <= bus <= range.subordinate
}

/// The bus number of a BDF.
pub open spec fn bdf_bus(bdf: int) -> int {
    bdf / 256 % 256
}

/// The ITS device identifier: the segment above the 16 bits of the BDF.
pub open spec fn its_devid(range: AssignedBusRange, segment: u16, devid: Option<u32>) -> Option<
    u32,
> {
    let bdf = match devid {
        Some(b) => b as int,
        None => range.secondary * 256,
    };
    if range.secondary == 0 || !in_bus_range(range, bdf_bus(bdf)) {
        None
    } else {
        Some((segment * 0x1_0000 + bdf % 0x1_0000) as u32)
    }
}

/// An identifier that is composed names a bus of the port's range and the
/// segment it was composed for.
pub proof fn law_its_devid(range: AssignedBusRange, segment: u16, devid: Option<u32>)
    ensures
        its_devid(range, segment, devid) matches Some(id) ==> id / 0x1_0000 == segment
            && in_bus_range(range, bdf_bus(id as int)),
{
    if let Some(id) = its_devid(range, segment, devid) {
        let bdf = match devid {
            Some(b) => b as int,
            None => range.secondary * 256,
        };
        assert(id == segment * 0x1_0000 + bdf % 0x1_0000);
        assert(id as int / 256 % 256 == bdf / 256 % 256);
    }
}

/// An identifier is composed exactly if a secondary bus is assigned and the bus that
/// the device names is behind the port. It holds the segment in its upper half, and in
/// the lower one what the device named, or the first function of the secondary bus if
/// it named nothing.
pub proof fn law_its_composed(range: AssignedBusRange, segment: u16, bdf: u16)
    ensures
        its_devid(range, segment, Some(bdf as u32)) == if range.secondary > 0 && range.secondary
            * 256 <= bdf < (range.subordinate + 1) * 256 {
            Some((segment * 0x1_0000 + bdf) as u32)
        } else {
            None
        },
        its_devid(range, segment, None) == if 0 < range.secondary <= range.subordinate {
            Some((segment * 0x1_0000 + range.secondary * 256) as u32)
        } else {
            None
        },
{
}

}
