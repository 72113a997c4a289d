//! A root complex: root ports, and an ECAM region through which config space is
//! accessed.
use crate::capabilities::DevicePortType;
use crate::cfg_space::type1::type1_reset;
use crate::cfg_space::type1::type1_write_result;
use crate::cfg_space::type1::type1_written;
use crate::io::IoError;
use crate::io::IoResult;
use crate::pcie::bytes::byte_of;
use crate::pcie::bytes::get_byte;
use crate::pcie::bytes::set_bytes;
use crate::pcie::bytes::with_bytes;
use crate::pcie::port::forward_read;
use crate::pcie::port::forward_write;
use crate::pcie::port::port_made_from;
use crate::pcie::port::presence;
use crate::pcie::port::LinkError;
use crate::pcie::port::PcieDownstreamPort;
use crate::pcie::port::PortModel;
use crate::pcie::settings::no_dvsecs;
use crate::pcie::settings::CxlDvsecs;
use crate::pcie::settings::PciePortSettings;
use crate::pcie::switch::bridge_hardware_ids;
use crate::pcie::switch::bridge_ids;
use crate::pcie::switch::decoding_port;
use crate::pcie::switch::plain_settings;
use crate::pcie::switch::space_read;
use crate::pcie::GenericPciBusDevice;
use crate::pcie::ROOT_PORT_DEVICE_ID;
use vstd::prelude::*;

verus! {

/// Bytes of config space of a bus in the ECAM region.
pub const ECAM_BYTES_PER_BUS: u64 = 0x10_0000;
/// Bytes of config space of a function in the ECAM region.
pub const ECAM_BYTES_PER_FUNCTION: u64 = 0x1000;

/// What a root port is made with.
#[derive(Debug)]
pub struct GenericPcieRootPortDefinition {
    /// The name of the port.
    pub name: String,
    /// Settings.
    pub settings: PciePortSettings,
}

/// A root port.
#[derive(Debug)]
pub struct RootPort<D> {
    /// The port.
    pub port: PcieDownstreamPort<D>,
}

/// Whether a port is a new root port.
pub open spec fn is_new_root_port<M>(
    m: PortModel<M>,
    name: Seq<char>,
    settings: PciePortSettings,
) -> bool {
    port_made_from(
        m,
        name,
        bridge_ids(ROOT_PORT_DEVICE_ID),
        DevicePortType::RootPort,
        false,
        None,
        settings,
        None,
        no_dvsecs(),
        false,
    )
}

impl<D: GenericPciBusDevice> RootPort<D> {
    /// Creates a root port.
    pub fn new(name: String) -> (r: Self)
        ensures
            is_new_root_port(r.port.model(), name@, plain_settings()),
    {
        Self::with_settings(name, PciePortSettings::default())
    }

    /// Creates a root port with settings.
    pub fn with_settings(name: String, settings: PciePortSettings) -> (r: Self)
        ensures
            is_new_root_port(r.port.model(), name@, settings),
    {
        RootPort {
            port: PcieDownstreamPort::new(
                name,
                bridge_hardware_ids(ROOT_PORT_DEVICE_ID),
                DevicePortType::RootPort,
                false,
                None,
                settings,
                None,
                CxlDvsecs::none(),
                false,
            ),
        }
    }

    /// Connects a device. Returns the name of what is connected already, if
    /// something is.
    pub fn connect_device(&mut self, name: String, dev: D) -> (r: Result<(), String>)
        ensures
            match old(self).port.link {
                Some(l) => r is Err && r->Err_0@ == l.name@ && final(self).port.model()
                    == old(self).port.model(),
                None => r is Ok && final(self).port.model() == (PortModel {
                    link: Some((name@, dev.model())),
                    cfg: presence(old(self).port.cfg_space@, true),
                    ..old(self).port.model()
                }),
            },
    {
        if let Some(l) = &self.port.link {
            return Err(l.name.clone());
        }
        let port_name: String = self.port.name.clone();
        let result: Result<(), LinkError> = self.port.add_pcie_device(&port_name, name, dev);
        assert(result is Ok);
        Ok(())
    }
}

/// A root complex. The root port with index `i` is device `i`, function 0 of the
/// lowest bus.
#[derive(Debug)]
pub struct GenericPcieRootComplex<D> {
    /// The lowest bus.
    pub start_bus: u8,
    /// The highest bus.
    pub end_bus: u8,
    /// The address of the ECAM region.
    pub ecam_base: u64,
    /// Root ports.
    pub ports: Vec<RootPort<D>>,
}

/// A root complex as a value.
#[verifier::ext_equal]
pub struct RootModel<M> {
    /// The lowest bus.
    pub start_bus: u8,
    /// The highest bus.
    pub end_bus: u8,
    /// The address of the ECAM region.
    pub ecam_base: u64,
    /// Root ports.
    pub ports: Seq<PortModel<M>>,
}

/// Root ports as values.
pub open spec fn root_port_models<D: GenericPciBusDevice>(ports: Seq<RootPort<D>>) -> Seq<
    PortModel<D::Model>,
> {
    Seq::new(ports.len(), |i: int| ports[i].port.model())
}

/// The size of the ECAM region of some buses.
pub open spec fn ecam_bytes(start_bus: u8, end_bus: u8) -> int {
    (end_bus - start_bus + 1) * ECAM_BYTES_PER_BUS
}

/// Returns the size of the ECAM region of some buses.
pub fn ecam_size_from_bus_numbers(start_bus: u8, end_bus: u8) -> (r: u64)
    requires
        start_bus <= end_bus,
    ensures
        r == ecam_bytes(start_bus, end_bus),
{
    let bus_count: u64 = end_bus as u64 - start_bus as u64 + 1;
    bus_count * ECAM_BYTES_PER_BUS
}

/// What an address of the ECAM region stands for.
#[derive(Debug, Clone, Copy, PartialEq, Eq, Structural)]
pub enum DecodedEcamAccess {
    /// The address is not one of the region.
    UnexpectedIntercept,
    /// Nothing is there.
    Unroutable,
    /// A register of a root port.
    InternalBus {
        /// The root port.
        port: usize,
        /// The register.
        offset: u16,
    },
    /// A register of a function behind a root port.
    DownstreamPort {
        /// The root port.
        port: usize,
        /// The bus.
        bus: u8,
        /// Device and function number.
        device_function: u8,
        /// The register.
        offset: u16,
    },
}

/// What an address of the ECAM region stands for: buses, functions and
/// registers follow each other, from the lowest bus on.
pub open spec fn decoded_access<M>(m: RootModel<M>, addr: u64) -> DecodedEcamAccess {
    let offset = addr - m.ecam_base;
    let bus = m.start_bus + offset / ECAM_BYTES_PER_BUS as int;
    let device_function = offset / ECAM_BYTES_PER_FUNCTION as int % 256;
    let register = (offset % ECAM_BYTES_PER_FUNCTION as int) as u16;
    if !(0 <= offset < ecam_bytes(m.start_bus, m.end_bus)) {
        DecodedEcamAccess::UnexpectedIntercept
    } else if bus == m.start_bus {
        if device_function % 8 == 0 && device_function / 8 < m.ports.len() {
            DecodedEcamAccess::InternalBus {
                port: (device_function / 8) as usize,
                offset: register,
            }
        } else {
            DecodedEcamAccess::Unroutable
        }
    } else {
        match decoding_port(m.ports, bus as u8, 0) {
            Some(i) => DecodedEcamAccess::DownstreamPort {
                port: i as usize,
                bus: bus as u8,
                device_function: device_function as u8,
                offset: register,
            },
            None => DecodedEcamAccess::Unroutable,
        }
    }
}

/// A root complex with one root port replaced.
pub open spec fn with_root_port<M>(m: RootModel<M>, i: int, port: PortModel<M>) -> RootModel<M> {
    RootModel { ports: m.ports.update(i, port), ..m }
}

/// The root complex after the read of a dword, the result and the value. All
/// ones where nothing is.
pub open spec fn dword_read<D: GenericPciBusDevice>(m: RootModel<D::Model>, addr: u64) -> (
    RootModel<D::Model>,
    IoResult,
    u32,
) {
    match decoded_access(m, addr) {
        DecodedEcamAccess::InternalBus { port, offset } => {
            let (result, value) = space_read(m.ports[port as int].cfg, offset, 0xFFFF_FFFF);
            (m, result, value)
        },
        DecodedEcamAccess::DownstreamPort { port, bus, device_function, offset } => {
            let (next, result, value) = forward_read::<D>(
                m.ports[port as int],
                bus,
                device_function,
                offset,
                0xFFFF_FFFF,
            );
            (with_root_port(m, port as int, next), result, value)
        },
        _ => (m, Ok(()), 0xFFFF_FFFF),
    }
}

/// The root complex after the write of a dword, and the result.
pub open spec fn dword_written<D: GenericPciBusDevice>(
    m: RootModel<D::Model>,
    addr: u64,
    value: u32,
) -> (RootModel<D::Model>, IoResult) {
    match decoded_access(m, addr) {
        DecodedEcamAccess::InternalBus { port, offset } => {
            let before = m.ports[port as int];
            (
                with_root_port(
                    m,
                    port as int,
                    PortModel { cfg: type1_written(before.cfg, offset, value), ..before },
                ),
                type1_write_result(before.cfg.common, offset),
            )
        },
        DecodedEcamAccess::DownstreamPort { port, bus, device_function, offset } => {
            let (next, result) = forward_write::<D>(
                m.ports[port as int],
                bus,
                device_function,
                offset,
                value,
            );
            (with_root_port(m, port as int, next), result)
        },
        _ => (m, Ok(())),
    }
}

/// Why an access to the ECAM region is refused: accesses have one, two or four
/// bytes and are aligned.
pub open spec fn access_error(addr: u64, len: int) -> Option<IoError> {
    if len != 1 && len != 2 && len != 4 {
        Some(IoError::InvalidAccessSize)
    } else if addr as int % len != 0 {
        Some(IoError::UnalignedAccess)
    } else {
        None
    }
}

/// The address of the dword that an address is in.
pub open spec fn dword_address(addr: u64) -> u64 {
    (addr - addr % 4) as u64
}

/// The root complex after a write of some bytes, and the result. The other bytes
/// of the dword are read first.
pub open spec fn bytes_written<D: GenericPciBusDevice>(
    m: RootModel<D::Model>,
    addr: u64,
    data: Seq<u8>,
) -> (RootModel<D::Model>, IoResult) {
    if data.len() == 4 {
        dword_written::<D>(m, addr, with_bytes(0, 0, data))
    } else {
        let (read, result, value) = dword_read::<D>(m, dword_address(addr));
        match result {
            Err(e) => (read, Err(e)),
            Ok(_) => dword_written::<D>(
                read,
                dword_address(addr),
                with_bytes(value, (addr % 4) as int, data),
            ),
        }
    }
}

fn check_access(addr: u64, len: usize) -> (r: Option<IoError>)
    ensures
        r == access_error(addr, len as int),
{
    if len != 1 && len != 2 && len != 4 {
        Some(IoError::InvalidAccessSize)
    } else if addr % (len as u64) != 0 {
        Some(IoError::UnalignedAccess)
    } else {
        None
    }
}

fn find_root_port<D: GenericPciBusDevice>(ports: &Vec<RootPort<D>>, bus: u8) -> (r: Option<usize>)
    ensures
        match decoding_port(root_port_models(ports@), bus, 0) {
            Some(i) => r == Some(i as usize) && 0 <= i < ports.len(),
            None => r is None,
        },
{
    let mut i: usize = 0;
    while i < ports.len()
        invariant
            i <= ports.len(),
            decoding_port(root_port_models(ports@), bus, 0) == decoding_port(
                root_port_models(ports@),
                bus,
                i as int,
            ),
        decreases ports.len() - i,
    {
        let (first, last) = ports[i].port.cfg_space.assigned_bus_range();
        if !(first == 0 && last == 0) && first <= bus && bus <= last {
            return Some(i);
        }
        i = i + 1;
    }
    None
}

impl<D: GenericPciBusDevice> GenericPcieRootComplex<D> {
    /// The root complex as a value.
    pub open spec fn model(&self) -> RootModel<D::Model> {
        RootModel {
            start_bus: self.start_bus,
            end_bus: self.end_bus,
            ecam_base: self.ecam_base,
            ports: root_port_models(self.ports@),
        }
    }

    /// Whether buses are in order.
    pub open spec fn wf(&self) -> bool {
        self.start_bus <= self.end_bus
    }

    /// Creates a root complex. There can be 32 root ports.
    pub fn new(
        start_bus: u8,
        end_bus: u8,
        ecam_base: u64,
        ports: Vec<GenericPcieRootPortDefinition>,
    ) -> (r: Self)
        requires
            start_bus <= end_bus,
            ports@.len() <= 32,
        ensures
            r.wf(),
            r.start_bus == start_bus,
            r.end_bus == end_bus,
            r.ecam_base == ecam_base,
            r.ports@.len() == ports@.len(),
            forall|i: int|
                0 <= i < ports@.len() ==> is_new_root_port(
                    (#[trigger] r.ports@[i]).port.model(),
                    ports@[i].name@,
                    ports@[i].settings,
                ),
    {
        let mut made: Vec<RootPort<D>> = Vec::new();
        let mut i: usize = 0;
        while i < ports.len()
            invariant
                i <= ports@.len(),
                made@.len() == i,
                forall|j: int|
                    0 <= j < i ==> is_new_root_port(
                        (#[trigger] made@[j]).port.model(),
                        ports@[j].name@,
                        ports@[j].settings,
                    ),
            decreases ports.len() - i,
        {
            made.push(RootPort::with_settings(ports[i].name.clone(), ports[i].settings));
            i = i + 1;
        }
        GenericPcieRootComplex { start_bus, end_bus, ecam_base, ports: made }
    }

    /// Connects a device to a root port, by the port's device and function
    /// number. Returns the name of what is connected already, if something is.
    pub fn add_pcie_device(&mut self, port: u8, name: String, dev: D) -> (r: Result<(), String>)
        requires
            port % 8 == 0,
            port / 8 < old(self).ports@.len(),
        ensures
            ({
                let before = old(self).ports@[port as int / 8].port;
                match before.link {
                    Some(l) => r is Err && r->Err_0@ == l.name@ && final(self).model()
                        == old(self).model(),
                    None => r is Ok && final(self).model() == with_root_port(
                        old(self).model(),
                        port as int / 8,
                        (PortModel {
                            link: Some((name@, dev.model())),
                            cfg: presence(before.cfg_space@, true),
                            ..before.model()
                        }),
                    ),
                }
            }),
    {
        let i: usize = (port / 8) as usize;
        let ghost before = self.model();
        let result: Result<(), String> = self.ports[i].connect_device(name, dev);
        proof {
            assert(self.model().ports =~= before.ports.update(
                i as int,
                self.ports@[i as int].port.model(),
            ));
            assert(before.ports.update(i as int, before.ports[i as int]) =~= before.ports);
        }
        result
    }

    /// Returns the root ports: their device and function numbers, and names.
    pub fn downstream_ports(&self) -> (r: Vec<(u8, String)>)
        requires
            self.ports@.len() <= 32,
        ensures
            r@.len() == self.ports@.len(),
            forall|i: int|
                0 <= i < r@.len() ==> (#[trigger] r@[i]).0 == 8 * i && r@[i].1@
                    == self.ports@[i].port.name@,
    {
        let mut r: Vec<(u8, String)> = Vec::new();
        let mut i: usize = 0;
        while i < self.ports.len()
            invariant
                i <= self.ports.len() <= 32,
                r@.len() == i,
                forall|j: int|
                    0 <= j < i ==> (#[trigger] r@[j]).0 == 8 * j && r@[j].1@
                        == self.ports@[j].port.name@,
            decreases self.ports.len() - i,
        {
            r.push((i as u8 * 8, self.ports[i].port.name.clone()));
            i = i + 1;
        }
        r
    }

    /// Returns the size of the ECAM region.
    pub fn ecam_size(&self) -> (r: u64)
        requires
            self.wf(),
        ensures
            r == ecam_bytes(self.start_bus, self.end_bus),
    {
        ecam_size_from_bus_numbers(self.start_bus, self.end_bus)
    }

    /// Decodes an address of the ECAM region.
    pub fn decode_ecam_access(&self, addr: u64) -> (r: DecodedEcamAccess)
        requires
            self.wf(),
        ensures
            r == decoded_access(self.model(), addr),
            r matches DecodedEcamAccess::InternalBus { port, .. } ==> port < self.ports@.len(),
            r matches DecodedEcamAccess::DownstreamPort { port, .. } ==> port < self.ports@.len(),
    {
        if addr < self.ecam_base || addr - self.ecam_base >= self.ecam_size() {
            return DecodedEcamAccess::UnexpectedIntercept;
        }
        let offset: u64 = addr - self.ecam_base;
        let bus_index: u64 = offset / ECAM_BYTES_PER_BUS;
        proof {
            assert(bus_index <= self.end_bus - self.start_bus) by {
                let n = self.end_bus - self.start_bus + 1;
                assert(offset < n * 0x10_0000);
                assert(offset as int / 0x10_0000 < n);
            }
        }
        let bus: u8 = self.start_bus + bus_index as u8;
        let device_function: u8 = (offset / ECAM_BYTES_PER_FUNCTION % 256) as u8;
        let register: u16 = (offset % ECAM_BYTES_PER_FUNCTION) as u16;
        if bus == self.start_bus {
            if device_function % 8 == 0 && ((device_function / 8) as usize) < self.ports.len() {
                return DecodedEcamAccess::InternalBus {
                    port: (device_function / 8) as usize,
                    offset: register,
                };
            }
            return DecodedEcamAccess::Unroutable;
        }
        match find_root_port(&self.ports, bus) {
            Some(i) => DecodedEcamAccess::DownstreamPort {
                port: i,
                bus,
                device_function,
                offset: register,
            },
            None => DecodedEcamAccess::Unroutable,
        }
    }

    fn read_dword(&mut self, addr: u64, value: &mut u32) -> (r: IoResult)
        requires
            old(self).wf(),
            *old(value) == 0xFFFF_FFFF,
        ensures
            final(self).wf(),
            (final(self).model(), r, *final(value)) == dword_read::<D>(old(self).model(), addr),
    {
        let ghost before = self.model();
        match self.decode_ecam_access(addr) {
            DecodedEcamAccess::InternalBus { port, offset } => {
                self.ports[port].port.cfg_space.read_u32(offset, value)
            },
            DecodedEcamAccess::DownstreamPort { port, bus, device_function, offset } => {
                let result: IoResult = self.ports[port].port.forward_cfg_read_with_routing(
                    bus,
                    device_function,
                    offset,
                    value,
                );
                proof {
                    assert(self.model().ports =~= before.ports.update(
                        port as int,
                        self.ports@[port as int].port.model(),
                    ));
                }
                result
            },
            _ => Ok(()),
        }
    }

    fn write_dword(&mut self, addr: u64, value: u32) -> (r: IoResult)
        requires
            old(self).wf(),
        ensures
            final(self).wf(),
            (final(self).model(), r) == dword_written::<D>(old(self).model(), addr, value),
    {
        let ghost before = self.model();
        match self.decode_ecam_access(addr) {
            DecodedEcamAccess::InternalBus { port, offset } => {
                let result: IoResult = self.ports[port].port.cfg_space.write_u32(offset, value);
                proof {
                    assert(self.model().ports =~= before.ports.update(
                        port as int,
                        self.ports@[port as int].port.model(),
                    ));
                }
                result
            },
            DecodedEcamAccess::DownstreamPort { port, bus, device_function, offset } => {
                let result: IoResult = self.ports[port].port.forward_cfg_write_with_routing(
                    bus,
                    device_function,
                    offset,
                    value,
                );
                proof {
                    assert(self.model().ports =~= before.ports.update(
                        port as int,
                        self.ports@[port as int].port.model(),
                    ));
                }
                result
            },
            _ => Ok(()),
        }
    }

    /// Reads from the ECAM region. The dword that the bytes are in is read.
    pub fn mmio_read(&mut self, addr: u64, data: &mut [u8]) -> (r: IoResult)
        requires
            old(self).wf(),
        ensures
            final(self).wf(),
            final(data)@.len() == old(data)@.len(),
            match access_error(addr, old(data)@.len() as int) {
                Some(e) => r == Err::<(), IoError>(e) && final(self).model() == old(self).model()
                    && final(data)@ == old(data)@,
                None => {
                    let (read, result, value) = dword_read::<D>(
                        old(self).model(),
                        dword_address(addr),
                    );
                    &&& final(self).model() == read
                    &&& r == result
                    &&& result is Ok ==> forall|i: int|
                        0 <= i < old(data)@.len() ==> #[trigger] final(data)@[i] == byte_of(
                            value,
                            addr % 4 + i,
                        )
                    &&& result is Err ==> final(data)@ == old(data)@
                },
            },
    {
        let len: usize = data.len();
        if let Some(e) = check_access(addr, len) {
            return Err(e);
        }
        let mut value: u32 = 0xFFFF_FFFF;
        let result: IoResult = self.read_dword(addr - addr % 4, &mut value);
        if let Err(e) = result {
            return Err(e);
        }
        let at: usize = (addr % 4) as usize;
        let mut i: usize = 0;
        proof {
            lemma_access_in_dword(addr, len as int);
        }
        while i < len
            invariant
                i <= len,
                at + len <= 4,
                len == data@.len(),
                len == old(data)@.len(),
                forall|j: int| 0 <= j < i ==> #[trigger] data@[j] == byte_of(value, at + j),
            decreases len - i,
        {
            data[i] = get_byte(value, at + i);
            i = i + 1;
        }
        Ok(())
    }

    /// Writes to the ECAM region. Bytes of a dword that are not written are read
    /// first, and written back.
    pub fn mmio_write(&mut self, addr: u64, data: &[u8]) -> (r: IoResult)
        requires
            old(self).wf(),
        ensures
            final(self).wf(),
            match access_error(addr, data@.len() as int) {
                Some(e) => r == Err::<(), IoError>(e) && final(self).model() == old(self).model(),
                None => (final(self).model(), r) == bytes_written::<D>(
                    old(self).model(),
                    addr,
                    data@,
                ),
            },
    {
        let len: usize = data.len();
        if let Some(e) = check_access(addr, len) {
            return Err(e);
        }
        if len == 4 {
            let value: u32 = set_bytes(0, 0, data);
            return self.write_dword(addr, value);
        }
        proof {
            lemma_access_in_dword(addr, len as int);
        }
        let mut value: u32 = 0xFFFF_FFFF;
        let result: IoResult = self.read_dword(addr - addr % 4, &mut value);
        if let Err(e) = result {
            return Err(e);
        }
        let merged: u32 = set_bytes(value, (addr % 4) as usize, data);
        self.write_dword(addr - addr % 4, merged)
    }

    /// Resets all root ports.
    pub fn reset(&mut self)
        ensures
            final(self).start_bus == old(self).start_bus,
            final(self).end_bus == old(self).end_bus,
            final(self).ecam_base == old(self).ecam_base,
            final(self).ports@.len() == old(self).ports@.len(),
            forall|i: int|
                0 <= i < old(self).ports@.len() ==> (
                #[trigger] final(self).ports@[i]).port.model() == (PortModel {
                    cfg: type1_reset(old(self).ports@[i].port.cfg_space@),
                    ..old(self).ports@[i].port.model()
                }),
    {
        let ghost before = self.ports@;
        let mut i: usize = 0;
        while i < self.ports.len()
            invariant
                i <= self.ports@.len(),
                before == old(self).ports@,
                self.start_bus == old(self).start_bus,
                self.end_bus == old(self).end_bus,
                self.ecam_base == old(self).ecam_base,
                self.ports@.len() == before.len(),
                forall|j: int|
                    0 <= j < before.len() ==> (#[trigger] self.ports@[j]).port.model() == if j < i {
                        PortModel {
                            cfg: type1_reset(before[j].port.cfg_space@),
                            ..before[j].port.model()
                        }
                    } else {
                        before[j].port.model()
                    },
            decreases self.ports.len() - i,
        {
            assert(self.ports@[i as int].port.model() == before[i as int].port.model());
            assert(self.ports@[i as int].port.model().cfg == before[i as int].port.cfg_space@);
            self.ports[i].port.cfg_space.reset();
            i = i + 1;
        }
    }

    /// Finds the root port that decodes a bus.
    pub fn find_root_port_for_bus(&self, bus: u8) -> (r: Option<usize>)
        ensures
            match decoding_port(self.model().ports, bus, 0) {
                Some(i) => r == Some(i as usize) && 0 <= i < self.ports.len(),
                None => r is None,
            },
    {
        find_root_port(&self.ports, bus)
    }
}

proof fn lemma_access_in_dword(addr: u64, len: int)
    requires
        access_error(addr, len) is None,
    ensures
        addr % 4 + len <= 4,
        len == 4 ==> dword_address(addr) == addr,
{
}

/// The ECAM address of a register.
pub open spec fn ecam_address<M>(m: RootModel<M>, bus: u8, device_function: u8, offset: u16) -> int {
    m.ecam_base + (bus - m.start_bus) * ECAM_BYTES_PER_BUS + device_function
        * ECAM_BYTES_PER_FUNCTION + offset
}

/// The address of a register of a function on the lowest bus stands for the root
/// port that is that function, and the address of one on another bus for the
/// root port that decodes the bus.
pub proof fn law_ecam_decoded<M>(m: RootModel<M>, bus: u8, device_function: u8, offset: u16)
    requires
        m.start_bus <= bus <= m.end_bus,
        offset < ECAM_BYTES_PER_FUNCTION,
        ecam_address(m, bus, device_function, offset) <= u64::MAX,
    ensures
        decoded_access(m, ecam_address(m, bus, device_function, offset) as u64) == if bus
            == m.start_bus {
            if device_function % 8 == 0 && device_function / 8 < m.ports.len() {
                DecodedEcamAccess::InternalBus { port: (device_function / 8) as usize, offset }
            } else {
                DecodedEcamAccess::Unroutable
            }
        } else {
            match decoding_port(m.ports, bus, 0) {
                Some(i) => DecodedEcamAccess::DownstreamPort {
                    port: i as usize,
                    bus,
                    device_function,
                    offset,
                },
                None => DecodedEcamAccess::Unroutable,
            }
        },
{
    let o = (bus - m.start_bus) * 0x10_0000 + device_function * 0x1000 + offset;
    assert(o / 0x10_0000 == bus - m.start_bus);
    assert(o / 0x1000 == (bus - m.start_bus) * 256 + device_function);
    assert(o / 0x1000 % 256 == device_function);
    assert(o % 0x1000 == offset);
}

}
