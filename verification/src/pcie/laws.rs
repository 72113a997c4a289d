//! Laws of the routing of config accesses as a whole.
use crate::capabilities::kinds::ExtendedCapability;
use crate::cfg_space::type1::type1_read;
use crate::cfg_space::type1::type1_write_result;
use crate::cfg_space::type1::type1_written;
use crate::io::IoError;
use crate::io::IoResult;
use crate::pcie::bytes::byte_of;
use crate::pcie::bytes::law_bytes_written;
use crate::pcie::bytes::with_bytes;
use crate::pcie::port::dpc_of;
use crate::pcie::port::forward_read;
use crate::pcie::port::forward_write;
use crate::pcie::port::PortModel;
use crate::pcie::port::PortSpace;
use crate::pcie::root::access_error;
use crate::pcie::root::bytes_written;
use crate::pcie::root::dword_read;
use crate::pcie::root::dword_written;
use crate::pcie::root::law_ecam_decoded;
use crate::pcie::root::RootModel;
use crate::pcie::switch::decoding_port;
use crate::pcie::switch::GenericPcieSwitch;
use crate::pcie::switch::SwitchModel;
use crate::pcie::CfgRead;
use crate::pcie::GenericPciBusDevice;
use vstd::prelude::*;

verus! {

/// A byte of a dword as a number, lowest first.
pub open spec fn nth_byte(v: u32, i: int) -> int {
    if i == 0 {
        v as int % 0x100
    } else if i == 1 {
        v as int / 0x100 % 0x100
    } else if i == 2 {
        v as int / 0x1_0000 % 0x100
    } else {
        v as int / 0x100_0000
    }
}

/// Whether some bytes of a dword were written: the bytes are there, from `at` on, and
/// the others are as they were.
pub open spec fn bytes_merged(v: u32, before: u32, at: int, data: Seq<u8>) -> bool {
    forall|i: int|
        0 <= i < 4 ==> #[trigger] nth_byte(v, i) == if at <= i < at + data.len() {
            data[i - at] as int
        } else {
            nth_byte(before, i)
        }
}

proof fn lemma_merged(before: u32, at: int, data: Seq<u8>)
    ensures
        bytes_merged(with_bytes(before, at, data), before, at, data),
{
    let v = with_bytes(before, at, data);
    assert forall|i: int| 0 <= i < 4 implies #[trigger] nth_byte(v, i) == if at <= i < at
        + data.len() {
        data[i - at] as int
    } else {
        nth_byte(before, i)
    } by {
        law_bytes_written(before, at, data, i);
        assert(byte_of(v, i) == nth_byte(v, i));
        assert(byte_of(before, i) == nth_byte(before, i));
    }
}

/// Accesses of one, two and four bytes are taken if they are aligned.
pub proof fn law_ecam_sizes(addr: u64, len: int)
    ensures
        access_error(addr, len) is None <==> len == 1 || (len == 2 && addr % 2 == 0) || (len == 4
            && addr % 4 == 0),
        access_error(addr, len) is Some ==> access_error(addr, len)->0 == if len == 2 || len == 4 {
            IoError::UnalignedAccess
        } else {
            IoError::InvalidAccessSize
        },
{
}

/// A write of some bytes is the write of the dword that they are in, with the bytes
/// that are written, and with each other byte as a read of the dword gives it before
/// the write. If that read fails, so does the write, and nothing is written.
pub proof fn law_ecam_write_bytes<D: GenericPciBusDevice>(
    m: RootModel<D::Model>,
    addr: u64,
    data: Seq<u8>,
)
    requires
        data.len() == 1 || data.len() == 2 || data.len() == 4,
        addr as int % data.len() as int == 0,
    ensures
        ({
            let dword = (addr - addr % 4) as u64;
            let (seen, heard, value) = dword_read::<D>(m, dword);
            &&& data.len() < 4 && heard is Err ==> bytes_written::<D>(m, addr, data) == (seen, heard)
            &&& data.len() < 4 && heard is Ok ==> exists|v: u32|
                bytes_merged(v, value, (addr % 4) as int, data) && bytes_written::<D>(m, addr, data)
                    == #[trigger] dword_written::<D>(seen, dword, v)
            &&& data.len() == 4 ==> exists|v: u32|
                bytes_merged(v, 0, 0, data) && bytes_written::<D>(m, addr, data)
                    == #[trigger] dword_written::<D>(m, addr, v)
        }),
{
    let dword = (addr - addr % 4) as u64;
    let (seen, heard, value) = dword_read::<D>(m, dword);
    lemma_merged(value, (addr % 4) as int, data);
    lemma_merged(0, 0, data);
    let v = with_bytes(value, (addr % 4) as int, data);
    let w = with_bytes(0, 0, data);
    if data.len() == 4 {
        assert(bytes_written::<D>(m, addr, data) == dword_written::<D>(m, addr, w));
    } else if heard is Ok {
        assert(bytes_written::<D>(m, addr, data) == dword_written::<D>(seen, dword, v));
    }
}

/// Whether the bus numbers in the registers of a bridge take in a bus. Bus numbers of
/// zero are those of a bridge that has not been given any.
pub open spec fn takes_in(cfg: PortSpace, bus: u8) -> bool {
    let range = cfg.state.bus_range;
    range.secondary <= bus <= range.subordinate && range.subordinate != 0
}

/// Whether a port is the first of some that takes in a bus.
pub open spec fn is_first<M>(ports: Seq<PortModel<M>>, bus: u8, p: int) -> bool {
    &&& 0 <= p < ports.len()
    &&& takes_in(ports[p].cfg, bus)
    &&& forall|k: int| 0 <= k < p ==> !takes_in((#[trigger] ports[k]).cfg, bus)
}

/// Whether none of some ports takes in a bus.
pub open spec fn is_nobodys<M>(ports: Seq<PortModel<M>>, bus: u8) -> bool {
    forall|k: int| 0 <= k < ports.len() ==> !takes_in((#[trigger] ports[k]).cfg, bus)
}

proof fn lemma_first<M>(ports: Seq<PortModel<M>>, bus: u8, from: int)
    requires
        0 <= from <= ports.len(),
        forall|k: int| 0 <= k < from ==> !takes_in((#[trigger] ports[k]).cfg, bus),
    ensures
        match decoding_port(ports, bus, from) {
            Some(p) => is_first(ports, bus, p),
            None => is_nobodys(ports, bus),
        },
    decreases ports.len() - from,
{
    if from < ports.len() && !takes_in(ports[from].cfg, bus) {
        lemma_first(ports, bus, from + 1);
    }
}

/// The port that handles a bus is the first one that takes it in.
pub proof fn law_first_port<M>(ports: Seq<PortModel<M>>, bus: u8, p: int)
    ensures
        decoding_port(ports, bus, 0) == Some(p) <==> is_first(ports, bus, p),
        decoding_port(ports, bus, 0) is None <==> is_nobodys(ports, bus),
{
    lemma_first(ports, bus, 0);
}

/// Whether a port holds back what is behind it: its first DPC capability says in bit 0
/// of the status that an error is contained.
pub open spec fn holds_back(cfg: PortSpace) -> bool {
    exists|k: int|
        #![trigger cfg.common.extended_capabilities[k]]
        is_first_dpc(cfg.common.extended_capabilities, k)
            && cfg.common.extended_capabilities[k]->Dpc_0.status & 0x0001 != 0
}

/// Whether a place is that of the first DPC capability.
pub open spec fn is_first_dpc(exts: Seq<ExtendedCapability>, k: int) -> bool {
    &&& 0 <= k < exts.len()
    &&& exts[k] is Dpc
    &&& forall|j: int| 0 <= j < k ==> !((#[trigger] exts[j]) is Dpc)
}

proof fn lemma_first_dpc(exts: Seq<ExtendedCapability>, from: int)
    requires
        0 <= from <= exts.len(),
        forall|j: int| 0 <= j < from ==> !((#[trigger] exts[j]) is Dpc),
    ensures
        match crate::pcie::find::dpc_index(exts, from) {
            Some(k) => is_first_dpc(exts, k),
            None => forall|j: int| 0 <= j < exts.len() ==> !((#[trigger] exts[j]) is Dpc),
        },
    decreases exts.len() - from,
{
    if from < exts.len() && !(exts[from] is Dpc) {
        lemma_first_dpc(exts, from + 1);
    }
}

/// A port holds back what is behind it exactly while it contains an error.
pub proof fn law_holds_back(cfg: PortSpace)
    ensures
        crate::pcie::port::contains(cfg) <==> holds_back(cfg),
        dpc_of(cfg) matches Some(dpc) ==> (holds_back(cfg) <==> dpc.status & 0x0001 != 0),
        dpc_of(cfg) is None ==> !holds_back(cfg),
{
    let exts = cfg.common.extended_capabilities;
    lemma_first_dpc(exts, 0);
    if let Some(k) = crate::pcie::find::dpc_index(exts, 0) {
        assert(exts[k] is Dpc);
        assert forall|j: int| #![trigger exts[j]] is_first_dpc(exts, j) implies j == k by {
            assert(exts[j] is Dpc);
        }
    }
}

/// What a port answers for its own registers.
pub open spec fn own_answer(cfg: PortSpace, offset: u16) -> (IoResult, u32) {
    match type1_read(cfg.common, cfg.state, offset) {
        Ok(v) => (Ok(()), v),
        Err(e) => (Err(e), 0xFFFF_FFFF),
    }
}

/// The device that is connected to a port.
pub open spec fn device_behind<M>(m: PortModel<M>) -> M {
    match m.link {
        Some((_, device)) => device,
        None => arbitrary(),
    }
}

/// A port with the device that is connected to it replaced by what it has become.
pub open spec fn with_device<M>(m: PortModel<M>, device: M) -> PortModel<M> {
    PortModel {
        link: match m.link {
            Some((name, _)) => Some((name, device)),
            None => None,
        },
        ..m
    }
}

/// What a port makes of an access to a bus that it takes in. While it holds back what
/// is behind it, or if nothing is, a read gives what it gave before or all ones and a
/// write does nothing. Else the device behind it gets the access, with the bus that
/// the device is on, and nothing but the device changes.
pub proof fn law_port_forwards<D: GenericPciBusDevice>(
    m: PortModel<D::Model>,
    bus: u8,
    function: u8,
    offset: u16,
    value: u32,
)
    ensures
        holds_back(m.cfg) ==> forward_read::<D>(m, bus, function, offset, value) == (
            m,
            Ok::<(), IoError>(()),
            0xFFFF_FFFFu32,
        ),
        holds_back(m.cfg) || m.link is None || !takes_in(m.cfg, bus) ==> {
            &&& forward_write::<D>(m, bus, function, offset, value) == (m, Ok::<(), IoError>(()))
            &&& !holds_back(m.cfg) ==> forward_read::<D>(m, bus, function, offset, value) == (
                m,
                Ok::<(), IoError>(()),
                value,
            )
        },
        !holds_back(m.cfg) && takes_in(m.cfg, bus) && m.link is Some ==> {
            let s = m.cfg.state.bus_range.secondary;
            let read = D::read_routed(device_behind(m), s, bus, function, offset, value);
            let written = D::write_routed(device_behind(m), s, bus, function, offset, value);
            &&& forward_read::<D>(m, bus, function, offset, value) == (
                with_device(m, read.model),
                match read.result {
                    Some(Err(e)) => Err(e),
                    _ => Ok(()),
                },
                read.value,
            )
            &&& forward_write::<D>(m, bus, function, offset, value) == (
                with_device(m, written.0),
                match written.1 {
                    Some(Err(e)) => Err(e),
                    _ => Ok(()),
                },
            )
        },
{
    law_holds_back(m.cfg);
}

/// The address of a register in the ECAM region: a megabyte for each bus from the
/// lowest one on, four kilobytes for each function.
pub open spec fn register_address<M>(m: RootModel<M>, bus: u8, function: u8, offset: u16) -> int {
    m.ecam_base + (bus - m.start_bus) * 0x10_0000 + function * 0x1000 + offset
}

/// A dword of a function on the lowest bus is one of the root port whose device number
/// the function has, if it is function 0 of a device that there is a root port for.
/// Where there is none, a read gives all ones and a write does nothing. No other root
/// port changes.
pub proof fn law_ecam_own_bus<D: GenericPciBusDevice>(
    m: RootModel<D::Model>,
    function: u8,
    offset: u16,
    value: u32,
)
    requires
        m.start_bus <= m.end_bus,
        offset < 0x1000,
        register_address(m, m.start_bus, function, offset) <= u64::MAX,
    ensures
        ({
            let addr = register_address(m, m.start_bus, function, offset) as u64;
            let p = function as int / 8;
            if function % 8 == 0 && p < m.ports.len() {
                let port = m.ports[p];
                let (result, v) = own_answer(port.cfg, offset);
                &&& dword_read::<D>(m, addr) == (m, result, v)
                &&& dword_written::<D>(m, addr, value) == (
                    RootModel {
                        ports: m.ports.update(
                            p,
                            PortModel { cfg: type1_written(port.cfg, offset, value), ..port },
                        ),
                        ..m
                    },
                    type1_write_result(port.cfg.common, offset),
                )
            } else {
                &&& dword_read::<D>(m, addr) == (m, Ok::<(), IoError>(()), 0xFFFF_FFFFu32)
                &&& dword_written::<D>(m, addr, value) == (m, Ok::<(), IoError>(()))
            }
        }),
{
    law_ecam_decoded(m, m.start_bus, function, offset);
}

/// A dword of a function on another bus is handed down by the first root port that
/// takes in the bus. Where none does, a read gives all ones and a write does nothing.
/// No other root port changes.
pub proof fn law_ecam_other_bus<D: GenericPciBusDevice>(
    m: RootModel<D::Model>,
    bus: u8,
    function: u8,
    offset: u16,
    value: u32,
    p: int,
)
    requires
        m.start_bus < bus <= m.end_bus,
        offset < 0x1000,
        m.ports.len() <= usize::MAX,
        register_address(m, bus, function, offset) <= u64::MAX,
    ensures
        ({
            let addr = register_address(m, bus, function, offset) as u64;
            &&& is_nobodys(m.ports, bus) ==> {
                &&& dword_read::<D>(m, addr) == (m, Ok::<(), IoError>(()), 0xFFFF_FFFFu32)
                &&& dword_written::<D>(m, addr, value) == (m, Ok::<(), IoError>(()))
            }
            &&& is_first(m.ports, bus, p) ==> {
                let (read, heard, v) = forward_read::<D>(
                    m.ports[p],
                    bus,
                    function,
                    offset,
                    0xFFFF_FFFF,
                );
                let (written, result) = forward_write::<D>(
                    m.ports[p],
                    bus,
                    function,
                    offset,
                    value,
                );
                &&& dword_read::<D>(m, addr) == (
                    RootModel { ports: m.ports.update(p, read), ..m },
                    heard,
                    v,
                )
                &&& dword_written::<D>(m, addr, value) == (
                    RootModel { ports: m.ports.update(p, written), ..m },
                    result,
                )
            }
        }),
{
    law_first_port(m.ports, bus, p);
    law_ecam_decoded(m, bus, function, offset);
}

/// An address outside of the region is none of the root complex: a read gives all
/// ones, and a write does nothing.
pub proof fn law_ecam_outside<D: GenericPciBusDevice>(
    m: RootModel<D::Model>,
    addr: u64,
    value: u32,
)
    requires
        addr < m.ecam_base || addr >= m.ecam_base + (m.end_bus - m.start_bus + 1) * 0x10_0000,
    ensures
        dword_read::<D>(m, addr) == (m, Ok::<(), IoError>(()), 0xFFFF_FFFFu32),
        dword_written::<D>(m, addr, value) == (m, Ok::<(), IoError>(())),
{
}

/// What a switch makes of an access, by the bus: on its own bus it has the upstream
/// port as function 0; on the secondary bus of that port the downstream ports, each at
/// its place in the list; other buses that the upstream port takes in are behind the
/// first downstream port that takes them in. Whatever is nobody's is not answered, and
/// nothing but the one port changes.
pub proof fn law_switch_routes<D: GenericPciBusDevice>(
    m: SwitchModel<D::Model>,
    own_bus: u8,
    bus: u8,
    function: u8,
    offset: u16,
    value: u32,
    p: int,
)
    ensures
        ({
            let read = <GenericPcieSwitch<D> as GenericPciBusDevice>::read_routed(
                m,
                own_bus,
                bus,
                function,
                offset,
                0xFFFF_FFFF,
            );
            let (next, result) = <GenericPcieSwitch<D> as GenericPciBusDevice>::write_routed(
                m,
                own_bus,
                bus,
                function,
                offset,
                value,
            );
            let second = m.upstream.state.bus_range.secondary;
            let silent = {
                &&& read == (CfgRead { model: m, result: None::<IoResult>, value: 0xFFFF_FFFFu32 })
                &&& next == m && result is None
            };
            if bus == own_bus {
                if function == 0 {
                    &&& read == (CfgRead {
                        model: m,
                        result: Some(own_answer(m.upstream, offset).0),
                        value: own_answer(m.upstream, offset).1,
                    })
                    &&& next == (SwitchModel {
                        upstream: type1_written(m.upstream, offset, value),
                        ..m
                    })
                    &&& result == Some(type1_write_result(m.upstream.common, offset))
                } else {
                    silent
                }
            } else if !takes_in(m.upstream, bus) {
                silent
            } else if bus == second {
                if function < m.ports.len() {
                    let port = m.ports[function as int];
                    &&& read == (CfgRead {
                        model: m,
                        result: Some(own_answer(port.cfg, offset).0),
                        value: own_answer(port.cfg, offset).1,
                    })
                    &&& next == (SwitchModel {
                        ports: m.ports.update(
                            function as int,
                            PortModel { cfg: type1_written(port.cfg, offset, value), ..port },
                        ),
                        ..m
                    })
                    &&& result == Some(type1_write_result(port.cfg.common, offset))
                } else {
                    silent
                }
            } else {
                &&& is_nobodys(m.ports, bus) ==> silent
                &&& is_first(m.ports, bus, p) ==> {
                    let (port, heard, v) = forward_read::<D>(
                        m.ports[p],
                        bus,
                        function,
                        offset,
                        0xFFFF_FFFF,
                    );
                    let (other, done) = forward_write::<D>(
                        m.ports[p],
                        bus,
                        function,
                        offset,
                        value,
                    );
                    &&& read == (CfgRead {
                        model: SwitchModel { ports: m.ports.update(p, port), ..m },
                        result: Some(heard),
                        value: v,
                    })
                    &&& next == (SwitchModel { ports: m.ports.update(p, other), ..m })
                    &&& result == Some(done)
                }
            }
        }),
{
    law_first_port(m.ports, bus, p);
}

proof fn lemma_halves(v: u32)
    ensures
        (((v >> 16u32) as u16 as u32) << 16u32) | (v as u16 as u32) == v,
{
    assert((((v >> 16u32) as u16 as u32) << 16u32) | (v as u16 as u32) == v) by (bit_vector);
}

/// A window register reads as it was written.
proof fn lemma_window_register(cfg: PortSpace, offset: u16, v: u32)
    requires
        offset == 0x20 || offset == 0x28 || offset == 0x2C,
        cfg.common.bar_count == 2,
    ensures
        ({
            let next = type1_written(cfg, offset, v);
            &&& type1_write_result(cfg.common, offset) == Ok::<(), IoError>(())
            &&& type1_read(next.common, next.state, offset) == Ok::<u32, IoError>(v)
            &&& type1_read(cfg.common, cfg.state, offset) is Ok
            &&& next.common == cfg.common
            &&& next.state.bus_range == cfg.state.bus_range
        }),
{
    lemma_halves(v);
}

/// Bytes that are written to a window register of a root port are read back, and the
/// other bytes of the register stay. The registers are the memory window at 0x20, and
/// the upper halves of the prefetchable base and limit at 0x28 and 0x2C. No other root
/// port changes, and nothing else of this one.
pub proof fn law_window_bytes_read_back<D: GenericPciBusDevice>(
    m: RootModel<D::Model>,
    p: int,
    offset: u16,
    at: int,
    data: Seq<u8>,
)
    requires
        m.start_bus <= m.end_bus,
        0 <= p < m.ports.len() <= 32,
        offset == 0x20 || offset == 0x28 || offset == 0x2C,
        data.len() == 1 || data.len() == 2 || data.len() == 4,
        0 <= at < 4,
        at % data.len() as int == 0,
        m.ecam_base % 4 == 0,
        register_address(m, m.start_bus, (8 * p) as u8, offset) + 4 <= u64::MAX,
        m.ports[p].cfg.common.bar_count == 2,
    ensures
        ({
            let dword = register_address(m, m.start_bus, (8 * p) as u8, offset) as u64;
            let (next, result) = bytes_written::<D>(m, (dword + at) as u64, data);
            let before = dword_read::<D>(m, dword).2;
            let after = dword_read::<D>(next, dword).2;
            &&& result is Ok
            &&& bytes_merged(after, before, at, data)
            &&& next.ports.len() == m.ports.len()
            &&& forall|k: int|
                0 <= k < m.ports.len() && k != p ==> next.ports[k] == #[trigger] m.ports[k]
            &&& next.ports[p].link == m.ports[p].link
            &&& next.ports[p].outbox == m.ports[p].outbox
            &&& next.ports[p].cfg.common == m.ports[p].cfg.common
            &&& next.ports[p].cfg.state.bus_range == m.ports[p].cfg.state.bus_range
        }),
{
    let f = (8 * p) as u8;
    let dword = register_address(m, m.start_bus, f, offset) as u64;
    let addr = (dword + at) as u64;
    assert(dword % 4 == 0);
    assert(addr % 4 == at && addr - addr % 4 == dword);
    if data.len() == 2 {
        assert(at == 0 || at == 2);
    } else if data.len() == 4 {
        assert(at == 0);
    }
    let value = dword_read::<D>(m, dword).2;
    let base = if data.len() == 4 {
        0
    } else {
        value
    };
    let v = with_bytes(base, at, data);
    let cfg = m.ports[p].cfg;
    assert(f as int / 8 == p && f % 8 == 0);
    lemma_window_register(cfg, offset, v);
    law_ecam_own_bus::<D>(m, f, offset, v);
    assert(dword_read::<D>(m, dword).0 == m && dword_read::<D>(m, dword).1 is Ok);
    let next = dword_written::<D>(m, dword, v).0;
    assert(bytes_written::<D>(m, addr, data) == dword_written::<D>(m, dword, v));
    assert(next.ports[p].cfg == type1_written(cfg, offset, v));
    law_ecam_own_bus::<D>(next, f, offset, v);
    assert(dword_read::<D>(next, dword).2 == v);
    lemma_merged(base, at, data);
    assert(bytes_merged(v, value, at, data)) by {
        assert forall|i: int| 0 <= i < 4 implies #[trigger] nth_byte(v, i) == if at <= i < at
            + data.len() {
            data[i - at] as int
        } else {
            nth_byte(value, i)
        } by {}
    }
}

}
