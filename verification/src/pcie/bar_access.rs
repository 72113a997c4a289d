//! Accesses to the BAR of a port.
use crate::io::IoError;
use crate::io::IoResult;
use crate::pcie::port::PcieDownstreamPort;
use crate::pcie::settings::bar_model;
use crate::pcie::settings::BarModel;
use crate::pcie::settings::PortBarDefinition;
use crate::pcie::settings::PortBarSubregionDefinition;
use crate::pcie::settings::PortBarSubregionKind;
use crate::pcie::GenericPciBusDevice;
use crate::save_restore::RestoreError;
use vstd::prelude::*;

verus! {

/// What becomes of an access to a BAR.
#[derive(Debug, Clone, Copy, PartialEq, Eq, Structural)]
pub enum BarAccess {
    /// It is done. A read gives this byte throughout.
    Filled(u8),
    /// It goes to the CXL component registers, at this offset.
    Component(u16),
    /// It failed.
    Failed(IoError),
}

/// Whether an access lies in a part of a BAR.
pub open spec fn lies_in(s: PortBarSubregionDefinition, offset: u64, len: int) -> bool {
    &&& s.offset + s.size_bytes <= u64::MAX
    &&& s.offset <= offset
    &&& offset + len <= s.offset + s.size_bytes
}

/// The first part, from one on, that an access lies in.
pub open spec fn part_index(
    subregions: Seq<PortBarSubregionDefinition>,
    offset: u64,
    len: int,
    i: int,
) -> Option<int>
    decreases subregions.len() - i,
{
    if i >= subregions.len() {
        None
    } else if lies_in(subregions[i], offset, len) {
        Some(i)
    } else {
        part_index(subregions, offset, len, i + 1)
    }
}

/// Why CXL component registers cannot be accessed: accesses have four or eight
/// bytes and are aligned.
pub open spec fn component_error(offset: u64, len: int) -> Option<IoError> {
    if len != 4 && len != 8 {
        Some(IoError::InvalidAccessSize)
    } else if offset as int % len != 0 {
        Some(IoError::UnalignedAccess)
    } else {
        None
    }
}

/// What becomes of an access. Outside of what is there, reads give zeros; where
/// there is no BAR at all, ones.
pub open spec fn bar_access(
    bar_config: Option<BarModel>,
    component_registers: bool,
    bar: u8,
    offset: u64,
    len: int,
) -> BarAccess {
    if bar != 0 || bar_config is None || offset + len > u64::MAX {
        BarAccess::Filled(0xff)
    } else {
        let parts = bar_config->0.subregions;
        match part_index(parts, offset, len, 0) {
            None => BarAccess::Filled(0),
            Some(i) => if parts[i].kind != PortBarSubregionKind::CxlComponentRegisters
                || !component_registers {
                BarAccess::Filled(0)
            } else {
                let relative = (offset - parts[i].offset) as u64;
                match component_error(relative, len) {
                    Some(e) => BarAccess::Failed(e),
                    None => if relative > 0xFFFF {
                        BarAccess::Filled(0)
                    } else {
                        BarAccess::Component(relative as u16)
                    },
                }
            },
        }
    }
}

/// Checks an access to CXL component registers.
pub fn validate_cxl_component_register_access(offset: u64, len: usize) -> (r: Result<(), IoError>)
    ensures
        match component_error(offset, len as int) {
            Some(e) => r == Err::<(), IoError>(e),
            None => r is Ok,
        },
{
    if len != 4 && len != 8 {
        return Err(IoError::InvalidAccessSize);
    }
    if offset % (len as u64) != 0 {
        return Err(IoError::UnalignedAccess);
    }
    Ok(())
}

fn find_part(bar: &PortBarDefinition, offset: u64, end: u64, len: usize) -> (r: Option<usize>)
    requires
        end == offset + len,
    ensures
        match part_index(bar.subregions@, offset, len as int, 0) {
            Some(i) => r == Some(i as usize) && 0 <= i < bar.subregions.len() && lies_in(
                bar.subregions@[i],
                offset,
                len as int,
            ),
            None => r is None,
        },
{
    let mut i: usize = 0;
    while i < bar.subregions.len()
        invariant
            i <= bar.subregions.len(),
            end == offset + len,
            part_index(bar.subregions@, offset, len as int, 0) == part_index(
                bar.subregions@,
                offset,
                len as int,
                i as int,
            ),
        decreases bar.subregions.len() - i,
    {
        let s: PortBarSubregionDefinition = bar.subregions[i];
        if let Some(part_end) = s.offset.checked_add(s.size_bytes) {
            if s.offset <= offset && end <= part_end {
                return Some(i);
            }
        }
        i = i + 1;
    }
    None
}

fn fill(data: &mut [u8], byte: u8)
    ensures
        final(data)@ == Seq::new(old(data)@.len(), |i: int| byte),
{
    let len: usize = data.len();
    let mut i: usize = 0;
    while i < len
        invariant
            i <= len,
            len == data@.len(),
            len == old(data)@.len(),
            forall|j: int| 0 <= j < i ==> data@[j] == byte,
        decreases len - i,
    {
        data[i] = byte;
        i = i + 1;
    }
    assert(data@ =~= Seq::new(old(data)@.len(), |i: int| byte));
}

impl<D: GenericPciBusDevice> PcieDownstreamPort<D> {
    /// Finds the BAR at an address, and the offset in it.
    pub fn find_bar(&self, addr: u64) -> (r: Option<(u8, u64)>)
        ensures
            r == crate::bars::found_from(self.cfg_space.common.active_bars, addr, 0),
    {
        self.cfg_space.find_bar(addr)
    }

    fn access(&self, bar: u8, bar_offset: u64, len: usize) -> (r: BarAccess)
        ensures
            r == bar_access(
                bar_model(self.bar),
                self.component_registers,
                bar,
                bar_offset,
                len as int,
            ),
    {
        if bar != 0 {
            return BarAccess::Filled(0xff);
        }
        let config: &PortBarDefinition = match &self.bar {
            Some(b) => b,
            None => {
                return BarAccess::Filled(0xff);
            },
        };
        let end: u64 = match bar_offset.checked_add(len as u64) {
            Some(end) => end,
            None => {
                return BarAccess::Filled(0xff);
            },
        };
        match find_part(config, bar_offset, end, len) {
            None => BarAccess::Filled(0),
            Some(i) => {
                let part: PortBarSubregionDefinition = config.subregions[i];
                if part.kind != PortBarSubregionKind::CxlComponentRegisters
                    || !self.component_registers {
                    return BarAccess::Filled(0);
                }
                let relative: u64 = bar_offset - part.offset;
                if let Err(e) = validate_cxl_component_register_access(relative, len) {
                    return BarAccess::Failed(e);
                }
                if relative > 0xFFFF {
                    BarAccess::Filled(0)
                } else {
                    BarAccess::Component(relative as u16)
                }
            },
        }
    }

    /// Reads from a BAR. A read of CXL component registers is left to the
    /// caller, who is told the offset, and hands what it gave to
    /// [`component_read_done`].
    pub fn bar_mmio_read(&self, bar: u8, bar_offset: u64, data: &mut [u8]) -> (r: BarAccess)
        ensures
            r == bar_access(
                bar_model(self.bar),
                self.component_registers,
                bar,
                bar_offset,
                old(data)@.len() as int,
            ),
            final(data)@ == match r {
                BarAccess::Filled(byte) => Seq::new(old(data)@.len(), |i: int| byte),
                _ => old(data)@,
            },
    {
        let access: BarAccess = self.access(bar, bar_offset, data.len());
        if let BarAccess::Filled(byte) = access {
            fill(data, byte);
        }
        access
    }

    /// Writes to a BAR. A write of CXL component registers is left to the
    /// caller, who is told the offset, and hands what it gave to
    /// [`component_write_done`]; any other write has no effect.
    pub fn bar_mmio_write(&self, bar: u8, bar_offset: u64, data: &[u8]) -> (r: BarAccess)
        ensures
            r == bar_access(
                bar_model(self.bar),
                self.component_registers,
                bar,
                bar_offset,
                data@.len() as int,
            ),
    {
        self.access(bar, bar_offset, data.len())
    }
}

/// Ends a read of CXL component registers: a register that is not there reads as
/// zero.
pub fn component_read_done(result: IoResult, data: &mut [u8]) -> (r: IoResult)
    ensures
        result == Err::<(), IoError>(IoError::InvalidRegister) ==> r is Ok && final(data)@
            == Seq::new(old(data)@.len(), |i: int| 0u8),
        result != Err::<(), IoError>(IoError::InvalidRegister) ==> r == result && final(data)@
            == old(data)@,
{
    match result {
        Err(IoError::InvalidRegister) => {
            fill(data, 0);
            Ok(())
        },
        _ => result,
    }
}

/// Ends a write of CXL component registers: a register that is not there takes
/// any write.
pub fn component_write_done(result: IoResult) -> (r: IoResult)
    ensures
        r == if result == Err::<(), IoError>(IoError::InvalidRegister) {
            Ok(())
        } else {
            result
        },
{
    match result {
        Err(IoError::InvalidRegister) => Ok(()),
        _ => result,
    }
}

/// An access that reaches the component registers has four or eight bytes, is
/// aligned, and lies in a part of the BAR that holds them.
pub proof fn law_component_access(
    bar_config: Option<BarModel>,
    component_registers: bool,
    bar: u8,
    offset: u64,
    len: int,
)
    ensures
        bar_access(bar_config, component_registers, bar, offset, len) matches BarAccess::Component(
            o,
        ) ==> {
            &&& len == 4 || len == 8
            &&& o as int % len == 0
            &&& component_registers
            &&& exists|i: int|
                {
                    &&& 0 <= i < bar_config->0.subregions.len()
                    &&& #[trigger] bar_config->0.subregions[i].kind
                        == PortBarSubregionKind::CxlComponentRegisters
                    &&& lies_in(bar_config->0.subregions[i], offset, len)
                    &&& o == offset - bar_config->0.subregions[i].offset
                }
        },
{
    if bar_access(bar_config, component_registers, bar, offset, len) is Component {
        let parts = bar_config->0.subregions;
        lemma_part_index(parts, offset, len, 0);
        let i = part_index(parts, offset, len, 0)->0;
        assert(parts[i].kind == PortBarSubregionKind::CxlComponentRegisters);
    }
}

/// What an access to a BAR comes to. Where there is no BAR it reads as all ones, and
/// outside of the parts of a BAR as zeros. One that lies in a part with component
/// registers, and in no other part, reaches them at its offset in the part, if it has
/// four or eight bytes and is aligned; it fails if not.
pub proof fn law_bar_accessed(bar_config: Option<BarModel>, bar: u8, offset: u64, len: int, i: int)
    requires
        0 <= len,
        offset + len <= u64::MAX,
    ensures
        bar != 0 || bar_config is None ==> bar_access(bar_config, true, bar, offset, len)
            == BarAccess::Filled(0xff),
        bar == 0 && bar_config is Some ==> {
            let parts = bar_config->0.subregions;
            let r = bar_access(bar_config, true, bar, offset, len);
            &&& (forall|j: int|
                #![trigger parts[j]]
                0 <= j < parts.len() ==> offset < parts[j].offset || parts[j].offset
                    + parts[j].size_bytes < offset + len) ==> r == BarAccess::Filled(0)
            &&& 0 <= i < parts.len() && parts[i].kind
                == PortBarSubregionKind::CxlComponentRegisters && parts[i].offset
                + parts[i].size_bytes <= u64::MAX && parts[i].offset <= offset && offset + len
                <= parts[i].offset + parts[i].size_bytes && (forall|j: int|
                #![trigger parts[j]]
                0 <= j < parts.len() && j != i ==> offset < parts[j].offset || parts[j].offset
                    + parts[j].size_bytes < offset + len) ==> {
                let at = offset - parts[i].offset;
                &&& len != 4 && len != 8 ==> r == BarAccess::Failed(IoError::InvalidAccessSize)
                &&& (len == 4 || len == 8) && at % len != 0 ==> r == BarAccess::Failed(
                    IoError::UnalignedAccess,
                )
                &&& (len == 4 || len == 8) && at % len == 0 && at <= 0xFFFF ==> r
                    == BarAccess::Component(at as u16)
                &&& bar_access(bar_config, false, bar, offset, len) == BarAccess::Filled(0)
            }
        },
{
    if bar == 0 && bar_config is Some {
        let parts = bar_config->0.subregions;
        lemma_part_index(parts, offset, len, 0);
        lemma_part_none(parts, offset, len, 0);
    }
}

proof fn lemma_part_none(
    parts: Seq<PortBarSubregionDefinition>,
    offset: u64,
    len: int,
    k: int,
)
    requires
        0 <= k,
    ensures
        part_index(parts, offset, len, k) is None ==> forall|j: int|
            #![trigger parts[j]]
            k <= j < parts.len() ==> !lies_in(parts[j], offset, len),
    decreases parts.len() - k,
{
    if k < parts.len() && !lies_in(parts[k], offset, len) {
        lemma_part_none(parts, offset, len, k + 1);
    }
}

proof fn lemma_part_index(
    subregions: Seq<PortBarSubregionDefinition>,
    offset: u64,
    len: int,
    i: int,
)
    requires
        0 <= i,
    ensures
        part_index(subregions, offset, len, i) matches Some(k) ==> i <= k < subregions.len()
            && lies_in(subregions[k], offset, len),
    decreases subregions.len() - i,
{
    if i < subregions.len() {
        lemma_part_index(subregions, offset, len, i + 1);
    }
}

/// What is saved of the component registers: nothing where there are none.
pub open spec fn component_saved<S>(component_registers: bool, state: S) -> Option<S> {
    if component_registers {
        Some(state)
    } else {
        None
    }
}

/// What the component registers are restored from. There is a saved state exactly
/// where there are registers.
pub open spec fn component_restored<S>(component_registers: bool, state: Option<S>) -> Result<
    Option<S>,
    RestoreError,
> {
    if component_registers && state is None {
        Err(RestoreError::MissingComponentRegisters)
    } else if !component_registers && state is Some {
        Err(RestoreError::UnexpectedComponentRegisters)
    } else {
        Ok(state)
    }
}

impl<D: GenericPciBusDevice> PcieDownstreamPort<D> {
    /// Saves the state of the component registers, if there are any.
    pub fn save_cxl_component_registers_state<S>(&self, state: S) -> (r: Option<S>)
        ensures
            r == component_saved(self.component_registers, state),
    {
        if self.component_registers {
            Some(state)
        } else {
            None
        }
    }

    /// Returns what to restore the component registers from, if there are any.
    pub fn restore_cxl_component_registers_state<S>(&self, state: Option<S>) -> (r: Result<
        Option<S>,
        RestoreError,
    >)
        ensures
            r == component_restored(self.component_registers, state),
    {
        if self.component_registers && state.is_none() {
            return Err(RestoreError::MissingComponentRegisters);
        }
        if !self.component_registers && state.is_some() {
            return Err(RestoreError::UnexpectedComponentRegisters);
        }
        Ok(state)
    }
}

/// What a port has saved of its component registers is accepted by a port of the
/// same kind, and by no other.
pub proof fn law_component_save_restore<S>(saved_by: bool, restored_by: bool, state: S)
    ensures
        component_restored(restored_by, component_saved(saved_by, state)) is Ok <==> saved_by
            == restored_by,
        saved_by == restored_by ==> component_restored(
            restored_by,
            component_saved(saved_by, state),
        ) == Ok::<Option<S>, RestoreError>(component_saved(saved_by, state)),
{
}

}
