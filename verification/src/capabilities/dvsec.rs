//! PCIe designated vendor-specific extended capability (DVSEC).
use crate::capabilities::ext_header;
use crate::capabilities::PciExtendedCapability;
use crate::regs::EXT_CAP_ID_DVSEC;
use crate::save_restore::RestoreError;
use vstd::prelude::*;

verus! {

/// How many dwords a DVSEC can have behind its header.
pub const DVSEC_DWORDS: usize = 15;

/// A DVSEC with registers that are given. They belong to a vendor, who says what
/// they hold; writes do not change them.
#[derive(Debug, Clone, Copy)]
pub struct DvsecExtendedCapability {
    /// The label.
    pub label: &'static str,
    /// How many dwords there are behind the header.
    pub count: usize,
    /// The dwords behind the header.
    pub registers: [u32; DVSEC_DWORDS],
}

impl DvsecExtendedCapability {
    /// The number of dwords behind the header, as far as there is room for them.
    pub open spec fn dwords(self) -> usize {
        if self.count <= DVSEC_DWORDS {
            self.count
        } else {
            DVSEC_DWORDS
        }
    }

    /// Creates a DVSEC with the first of the given dwords behind its header.
    pub fn new(label: &'static str, count: usize, registers: [u32; DVSEC_DWORDS]) -> (r: Self)
        requires
            count <= DVSEC_DWORDS,
        ensures
            r == (DvsecExtendedCapability { label, count, registers }),
            r.dwords() == count,
    {
        DvsecExtendedCapability { label, count, registers }
    }

    fn dword_count(&self) -> (r: usize)
        ensures
            r == self.dwords(),
    {
        if self.count <= DVSEC_DWORDS {
            self.count
        } else {
            DVSEC_DWORDS
        }
    }
}

impl PciExtendedCapability for DvsecExtendedCapability {
    type Saved = ();

    open spec fn label_text(&self) -> Seq<char> {
        self.label@
    }

    open spec fn ext_id(&self) -> u16 {
        EXT_CAP_ID_DVSEC
    }

    open spec fn ext_version(&self) -> u8 {
        1
    }

    open spec fn ext_len(&self) -> int {
        4 + 4 * self.dwords()
    }

    open spec fn value(&self, offset: u16) -> u32 {
        if offset == 0 {
            ext_header(EXT_CAP_ID_DVSEC, 1)
        } else if offset % 4 == 0 && offset / 4 <= self.dwords() {
            self.registers[offset / 4 - 1]
        } else {
            0xFFFF_FFFF
        }
    }

    open spec fn written(&self, offset: u16, val: u32) -> Self {
        *self
    }

    open spec fn after_reset(&self) -> Self {
        *self
    }

    open spec fn saves_as(&self, state: ()) -> bool {
        true
    }

    open spec fn restore_error(&self, state: ()) -> Option<RestoreError> {
        None
    }

    open spec fn restored(&self, state: ()) -> Self {
        *self
    }

    fn label(&self) -> (r: &'static str) {
        self.label
    }

    fn extended_capability_id(&self) -> (r: u16) {
        EXT_CAP_ID_DVSEC
    }

    fn capability_version(&self) -> (r: u8) {
        1
    }

    fn len(&self) -> (r: usize) {
        4 + 4 * self.dword_count()
    }

    fn read_u32(&self, offset: u16) -> (r: u32) {
        if offset == 0 {
            (EXT_CAP_ID_DVSEC as u32) | ((1u8 as u32) << 16u32)
        } else if offset % 4 == 0 && (offset / 4) as usize <= self.dword_count() {
            self.registers[(offset / 4 - 1) as usize]
        } else {
            0xFFFF_FFFF
        }
    }

    fn write_u32(&mut self, offset: u16, val: u32) {
    }

    fn reset(&mut self) {
    }

    fn save_state(&self) -> (r: ()) {
    }

    fn restore_state(&mut self, state: ()) -> (r: Result<(), RestoreError>) {
        Ok(())
    }
}

/// The dwords that a DVSEC was given are read behind its header, one after the other,
/// whatever is written. Behind them there is nothing.
pub proof fn law_dvsec_read(cap: DvsecExtendedCapability, i: int, offset: u16, val: u32)
    requires
        0 <= i < cap.count <= DVSEC_DWORDS,
    ensures
        cap.written(offset, val).value((4 + 4 * i) as u16) == cap.registers[i],
        cap.ext_len() == 4 + 4 * cap.count,
        cap.value((4 + 4 * cap.count) as u16) == 0xFFFF_FFFF,
{
}

}
