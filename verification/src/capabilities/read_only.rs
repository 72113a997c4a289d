//! A capability whose registers cannot be written.
use crate::capabilities::PciCapability;
use crate::save_restore::RestoreError;
use vstd::prelude::*;

verus! {

/// A capability of one dword that cannot be written.
#[derive(Debug, Clone, Copy)]
pub struct ReadOnlyCapability {
    /// The label.
    pub label: &'static str,
    /// The capability identifier.
    pub id: u8,
    /// The dword.
    pub data: u32,
}

impl ReadOnlyCapability {
    /// Creates a capability.
    pub fn new(label: &'static str, id: u8, data: u32) -> (r: Self)
        ensures
            r == (ReadOnlyCapability { label, id, data }),
    {
        ReadOnlyCapability { label, id, data }
    }
}

impl PciCapability for ReadOnlyCapability {
    type Saved = ();

    open spec fn label_text(&self) -> Seq<char> {
        self.label@
    }

    open spec fn cap_id(&self) -> u8 {
        self.id
    }

    open spec fn cap_len(&self) -> int {
        4
    }

    open spec fn value(&self, offset: u16) -> u32 {
        if offset == 0 {
            self.data
        } else {
            0xFFFF_FFFF
        }
    }

    open spec fn written(&self, offset: u16, val: u32) -> Self {
        *self
    }

    open spec fn after_reset(&self) -> Self {
        *self
    }

    open spec fn saves_as(&self, state: ()) -> bool {
        true
    }

    open spec fn restore_error(&self, state: ()) -> Option<RestoreError> {
        None
    }

    open spec fn restored(&self, state: ()) -> Self {
        *self
    }

    fn label(&self) -> (r: &'static str) {
        self.label
    }

    fn capability_id(&self) -> (r: u8) {
        self.id
    }

    fn len(&self) -> (r: usize) {
        4
    }

    fn read_u32(&self, offset: u16) -> (r: u32) {
        if offset == 0 {
            self.data
        } else {
            0xFFFF_FFFF
        }
    }

    fn write_u32(&mut self, offset: u16, val: u32) {
    }

    fn reset(&mut self) {
    }

    fn save_state(&self) -> (r: ()) {
    }

    fn restore_state(&mut self, state: ()) -> (r: Result<(), RestoreError>) {
        Ok(())
    }
}

}
