//! A virtual PCI bus: its registers, and config space behind them.
use crate::io::IoError;
use vstd::prelude::*;

pub mod chunks;
pub mod deferred;
pub mod tdisp;

use crate::vpci::chunks::chunk_offsets;
use crate::vpci::chunks::chunks_of;
use crate::vpci::chunks::is_chunks;
use crate::vpci::chunks::Chunk;
use crate::vpci::deferred::PendingDeferredWrite;

verus! {

/// The size of a page of registers.
pub const MMIO_PAGE_SIZE: u64 = 0x1000;

/// A device is not a PCI device.
#[derive(Debug, Clone, Copy, PartialEq, Eq, Structural)]
pub struct NotPciDevice;

/// An error creating a bus.
#[derive(Debug)]
pub enum CreateBusError {
    /// The device is not a PCI device.
    NotPci(NotPciDevice),
    /// The channel could not be offered.
    Offer(String),
}

/// A register of the bus.
#[derive(Debug, Clone, Copy, PartialEq, Eq)]
pub enum Register {
    /// The number of the slot whose config space is accessed.
    SlotNumber,
    /// Config space at an offset.
    ConfigSpace(u16),
}

/// The bus, with one device in slot 0.
#[derive(Debug)]
pub struct VpciBusDevice {
    /// Where the registers are, once that is known.
    pub config_base: Option<u64>,
    /// The slot whose config space is accessed.
    pub current_slot: u32,
    /// An address bit that accesses may have set or not.
    pub vtom: Option<u64>,
    /// Writes that wait for the device.
    pub pending_writes: Vec<PendingDeferredWrite>,
}

/// A bus whose channel was offered.
#[derive(Debug)]
pub struct VpciBus {
    /// The registers.
    pub bus_device: VpciBusDevice,
}

/// How a read is to be done.
#[derive(Debug)]
pub enum VpciRead {
    /// No device is in the slot: every byte is all ones.
    AllOnes,
    /// Config space has to be read at some offsets.
    Config {
        /// The offset of the read.
        offset: u16,
        /// The offsets of the dwords.
        offsets: Vec<u16>,
    },
}

/// How a write is to be done.
#[derive(Debug)]
pub enum VpciWrite {
    /// It is done.
    Done,
    /// Config space has to be written.
    Config {
        /// The dwords.
        chunks: Vec<Chunk>,
    },
}

/// An address without the bit that accesses may have set or not.
pub open spec fn without_vtom(vtom: Option<u64>, addr: u64) -> u64 {
    match vtom {
        Some(bit) => addr & !bit,
        None => addr & !0u64,
    }
}

/// The register that an access is to.
pub open spec fn register_at(config_base: Option<u64>, addr: u64, len: nat) -> Result<
    Register,
    IoError,
> {
    match config_base {
        None => Err(IoError::InvalidRegister),
        Some(base) => {
            let offset = (addr - base) % 0x1_0000_0000_0000_0000;
            let in_page = offset % 0x1000;
            if in_page + len >= 0x1000 {
                Err(IoError::InvalidAccessSize)
            } else if offset / 0x1000 == 0 {
                if in_page != 0 {
                    Err(IoError::InvalidRegister)
                } else if len != 4 {
                    Err(IoError::InvalidAccessSize)
                } else {
                    Ok(Register::SlotNumber)
                }
            } else if offset / 0x1000 == 1 {
                Ok(Register::ConfigSpace(in_page as u16))
            } else {
                Err(IoError::InvalidRegister)
            }
        },
    }
}

/// The number in four bytes.
pub open spec fn le_u32(data: Seq<u8>) -> u32 {
    (data[0] + data[1] * 0x100 + data[2] * 0x1_0000 + data[3] * 0x100_0000) as u32
}

impl VpciBusDevice {
    /// Creates a bus for a device.
    pub fn new(is_pci: bool, vtom: Option<u64>) -> (r: Result<Self, NotPciDevice>)
        ensures
            match r {
                Ok(bus) => {
                    &&& is_pci
                    &&& bus.config_base is None
                    &&& bus.current_slot == 0
                    &&& bus.vtom == vtom
                    &&& bus.pending_writes@ == Seq::<PendingDeferredWrite>::empty()
                },
                Err(_) => !is_pci,
            },
    {
        if !is_pci {
            return Err(NotPciDevice);
        }
        Ok(
            VpciBusDevice {
                config_base: None,
                current_slot: 0,
                vtom,
                pending_writes: Vec::new(),
            },
        )
    }

    /// Sets where the registers are.
    pub fn set_config_base(&mut self, base: Option<u64>)
        ensures
            *final(self) == (VpciBusDevice { config_base: base, ..*old(self) }),
    {
        self.config_base = base;
    }

    /// Works out which register an access is to. An access has to end before the
    /// end of a page.
    pub fn register(&self, addr: u64, len: usize) -> (r: Result<Register, IoError>)
        ensures
            r == register_at(self.config_base, addr, len as nat),
    {
        let base: u64 = match self.config_base {
            None => {
                return Err(IoError::InvalidRegister);
            },
            Some(base) => base,
        };
        let offset: u64 = addr.wrapping_sub(base);
        let in_page: u64 = offset % MMIO_PAGE_SIZE;
        if len as u64 >= MMIO_PAGE_SIZE - in_page {
            return Err(IoError::InvalidAccessSize);
        }
        let page: u64 = offset / MMIO_PAGE_SIZE;
        if page == 0 {
            if in_page != 0 {
                return Err(IoError::InvalidRegister);
            }
            if len != 4 {
                return Err(IoError::InvalidAccessSize);
            }
            Ok(Register::SlotNumber)
        } else if page == 1 {
            Ok(Register::ConfigSpace(in_page as u16))
        } else {
            Err(IoError::InvalidRegister)
        }
    }

    fn decode(&self, addr: u64, len: usize) -> (r: Result<Register, IoError>)
        ensures
            r == register_at(self.config_base, without_vtom(self.vtom, addr), len as nat),
    {
        let vtom: u64 = match self.vtom {
            Some(bit) => bit,
            None => 0,
        };
        self.register(addr & !vtom, len)
    }

    /// Works out how to do a read. The slot number cannot be read.
    pub fn mmio_read(&self, addr: u64, len: usize) -> (r: Result<VpciRead, IoError>)
        ensures
            match register_at(self.config_base, without_vtom(self.vtom, addr), len as nat) {
                Err(e) => r == Err::<VpciRead, IoError>(e),
                Ok(Register::SlotNumber) => r == Err::<VpciRead, IoError>(
                    IoError::InvalidRegister,
                ),
                Ok(Register::ConfigSpace(offset)) => if self.current_slot == 0 {
                    r matches Ok(VpciRead::Config { offset: o, offsets }) && o == offset
                        && is_offsets(offsets@, offset as int, len as int)
                } else {
                    r matches Ok(VpciRead::AllOnes)
                },
            },
    {
        match self.decode(addr, len) {
            Err(e) => Err(e),
            Ok(Register::SlotNumber) => Err(IoError::InvalidRegister),
            Ok(Register::ConfigSpace(offset)) => {
                if self.current_slot == 0 {
                    Ok(VpciRead::Config { offset, offsets: chunk_offsets(offset, len) })
                } else {
                    Ok(VpciRead::AllOnes)
                }
            },
        }
    }

    /// Works out how to do a write. A write of the slot number is done at once; one
    /// to config space of a slot without a device does nothing.
    pub fn mmio_write(&mut self, addr: u64, data: &[u8]) -> (r: Result<VpciWrite, IoError>)
        ensures
            final(self).config_base == old(self).config_base,
            final(self).vtom == old(self).vtom,
            final(self).pending_writes == old(self).pending_writes,
            match register_at(
                old(self).config_base,
                without_vtom(old(self).vtom, addr),
                data@.len(),
            ) {
                Err(e) => r == Err::<VpciWrite, IoError>(e) && final(self).current_slot == old(
                    self,
                ).current_slot,
                Ok(Register::SlotNumber) => r matches Ok(VpciWrite::Done)
                    && final(self).current_slot == le_u32(data@),
                Ok(Register::ConfigSpace(offset)) => {
                    &&& final(self).current_slot == old(self).current_slot
                    &&& if old(self).current_slot == 0 {
                        r matches Ok(VpciWrite::Config { chunks }) && is_chunks(
                            chunks@,
                            offset as int,
                            data@.len() as int,
                        )
                    } else {
                        r matches Ok(VpciWrite::Done)
                    }
                },
            },
    {
        match self.decode(addr, data.len()) {
            Err(e) => Err(e),
            Ok(Register::SlotNumber) => {
                self.current_slot = data[0] as u32 + data[1] as u32 * 0x100 + data[2] as u32
                    * 0x1_0000 + data[3] as u32 * 0x100_0000;
                Ok(VpciWrite::Done)
            },
            Ok(Register::ConfigSpace(offset)) => {
                if self.current_slot == 0 {
                    Ok(VpciWrite::Config { chunks: chunks_of(offset, data.len()) })
                } else {
                    Ok(VpciWrite::Done)
                }
            },
        }
    }
}

/// Whether offsets are those of the dwords of an access, in order.
pub open spec fn is_offsets(offsets: Seq<u16>, offset: int, len: int) -> bool {
    &&& offsets.len() == crate::vpci::chunks::chunk_count(offset, len)
    &&& forall|k: int|
        0 <= k < offsets.len() ==> #[trigger] offsets[k] == crate::vpci::chunks::chunk_at(
            offset,
            len,
            k,
        ).offset
}

impl VpciBus {
    /// Creates a bus for a device, given how the offer of its channel went. The
    /// channel is offered only for a PCI device.
    pub fn new(is_pci: bool, vtom: Option<u64>, offer: Result<(), String>) -> (r: Result<
        Self,
        CreateBusError,
    >)
        ensures
            match r {
                Ok(bus) => {
                    &&& is_pci && offer is Ok
                    &&& bus.bus_device.config_base is None
                    &&& bus.bus_device.current_slot == 0
                    &&& bus.bus_device.vtom == vtom
                    &&& bus.bus_device.pending_writes@ == Seq::<PendingDeferredWrite>::empty()
                },
                Err(CreateBusError::NotPci(_)) => !is_pci,
                Err(CreateBusError::Offer(e)) => is_pci && offer == Err::<(), String>(e),
            },
    {
        match VpciBusDevice::new(is_pci, vtom) {
            Err(e) => Err(CreateBusError::NotPci(e)),
            Ok(bus_device) => match offer {
                Ok(()) => Ok(VpciBus { bus_device }),
                Err(e) => Err(CreateBusError::Offer(e)),
            },
        }
    }
}

/// Accesses with and without the optional address bit are to the same register.
pub proof fn law_vtom_ignored(config_base: Option<u64>, bit: u64, addr: u64, len: nat)
    ensures
        register_at(config_base, without_vtom(Some(bit), addr), len) == register_at(
            config_base,
            without_vtom(Some(bit), addr | bit),
            len,
        ),
{
    assert(addr & !bit == (addr | bit) & !bit) by (bit_vector);
}

/// An access that is accepted stays within one page of registers.
pub proof fn law_within_page(config_base: Option<u64>, addr: u64, len: nat)
    ensures
        register_at(config_base, addr, len) matches Ok(Register::ConfigSpace(offset))
            ==> offset + len < 0x1000,
        register_at(config_base, addr, len) matches Ok(Register::SlotNumber) ==> config_base
            == Some(addr) && len == 4,
{
}

/// Where the registers are: the slot number at the base, in four bytes, and in the next
/// page config space, each byte at its offset. An access that does not end before the
/// end of its page has the wrong size, and there is nothing anywhere else.
pub proof fn law_registers_reached(base: u64, at: int, len: nat)
    requires
        0 <= at,
        base + at <= u64::MAX,
    ensures
        ({
            let r = register_at(Some(base), (base + at) as u64, len);
            &&& at == 0 && len == 4 ==> (r matches Ok(Register::SlotNumber))
            &&& 0x1000 <= at && at + len < 0x2000 ==> (r matches Ok(Register::ConfigSpace(o)) && o
                == at - 0x1000)
            &&& at + len < 0x1000 && at != 0 ==> r == Err::<Register, IoError>(
                IoError::InvalidRegister,
            )
            &&& at == 0 && len != 4 ==> r == Err::<Register, IoError>(IoError::InvalidAccessSize)
            &&& at < 0x1000 <= at + len ==> r == Err::<Register, IoError>(
                IoError::InvalidAccessSize,
            )
            &&& at < 0x2000 <= at + len ==> r == Err::<Register, IoError>(
                IoError::InvalidAccessSize,
            )
            &&& at >= 0x2000 ==> r is Err
        }),
        register_at(None, base, len) is Err,
{
    assert((base + at - base) % 0x1_0000_0000_0000_0000 == at) by {
        vstd::arithmetic::div_mod::lemma_small_mod(at as nat, 0x1_0000_0000_0000_0000nat);
    }
}

}
