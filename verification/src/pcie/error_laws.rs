//! Laws of error reporting and containment as a whole.
use crate::capabilities::aer::aer_recorded;
use crate::capabilities::aer::aer_reported;
use crate::capabilities::aer::law_report_interrupt;
use crate::capabilities::aer::AerExtendedCapability;
use crate::capabilities::aer::AerInjectedErrorKind;
use crate::capabilities::aer::AerInjection;
use crate::capabilities::aer::AerPortType;
use crate::capabilities::dpc::law_trigger_outcome;
use crate::capabilities::dpc::law_uncorrectable_phases;
use crate::capabilities::dpc::uncorrectable_triggered;
use crate::capabilities::dpc::with_rp_busy;
use crate::capabilities::dpc::DpcExtendedCapability;
use crate::capabilities::kinds::ExtendedCapability;
use crate::pcie::error_inject::aer_reported_for;
use crate::pcie::error_inject::dpc_begun_for;
use crate::pcie::error_inject::dpc_completed_for;
use crate::pcie::error_inject::TargetError;
use crate::pcie::find::aer_index;
use crate::pcie::find::dpc_index;
use crate::pcie::find::lemma_indices;
use crate::pcie::laws::device_behind;
use crate::pcie::laws::holds_back;
use crate::pcie::laws::is_first;
use crate::pcie::laws::is_nobodys;
use crate::pcie::laws::law_first_port;
use crate::pcie::laws::law_holds_back;
use crate::pcie::laws::takes_in;
use crate::pcie::laws::with_device;
use crate::pcie::port::aer_injected;
use crate::pcie::port::aer_of;
use crate::pcie::port::aer_report_received;
use crate::pcie::port::armed_message;
use crate::pcie::port::child_aer;
use crate::pcie::port::dpc_applied;
use crate::pcie::port::dpc_begun;
use crate::pcie::port::dpc_completed;
use crate::pcie::port::dpc_injected;
use crate::pcie::port::dpc_of;
use crate::pcie::port::with_aer;
use crate::pcie::port::with_dpc;
use crate::pcie::port::InjectError;
use crate::pcie::port::PcieAerInjectRequest;
use crate::pcie::port::PortModel;
use crate::pcie::port::PortSpace;
use crate::pcie::root::RootModel;
use crate::pcie::switch::contain_upstream;
use crate::pcie::switch::GenericPcieSwitch;
use crate::pcie::switch::SwitchModel;
use crate::pcie::GenericPciBusDevice;
use crate::pcie::PcieDpcRoutingAction;
use vstd::prelude::*;

verus! {

proof fn lemma_same_kinds(a: Seq<ExtendedCapability>, b: Seq<ExtendedCapability>, i: int)
    requires
        0 <= i,
        a.len() == b.len(),
        forall|j: int|
            0 <= j < a.len() ==> ((#[trigger] a[j]) is Aer <==> b[j] is Aer) && (a[j] is Dpc
                <==> b[j] is Dpc),
    ensures
        aer_index(a, i) == aer_index(b, i),
        dpc_index(a, i) == dpc_index(b, i),
    decreases a.len() - i,
{
    if i < a.len() {
        assert(a[i] is Aer <==> b[i] is Aer);
        lemma_same_kinds(a, b, i + 1);
    }
}

/// Another AER capability leaves the DPC capability and all other registers.
proof fn lemma_with_aer(cfg: PortSpace, cap: AerExtendedCapability)
    requires
        aer_of(cfg) is Some,
    ensures
        aer_of(with_aer(cfg, cap)) == Some(cap),
        dpc_of(with_aer(cfg, cap)) == dpc_of(cfg),
        with_aer(cfg, cap).state == cfg.state,
        with_aer(cfg, cap).common.capabilities == cfg.common.capabilities,
        with_aer(cfg, cap).common.extended_capabilities.len()
            == cfg.common.extended_capabilities.len(),
{
    let a = cfg.common.extended_capabilities;
    let b = with_aer(cfg, cap).common.extended_capabilities;
    lemma_indices(cfg.common.capabilities, a, 0);
    lemma_same_kinds(a, b, 0);
}

/// Another DPC capability leaves the AER capability and all other registers.
proof fn lemma_with_dpc(cfg: PortSpace, cap: DpcExtendedCapability)
    requires
        dpc_of(cfg) is Some,
    ensures
        dpc_of(with_dpc(cfg, cap)) == Some(cap),
        aer_of(with_dpc(cfg, cap)) == aer_of(cfg),
        with_dpc(cfg, cap).state == cfg.state,
        with_dpc(cfg, cap).common.capabilities == cfg.common.capabilities,
        with_dpc(cfg, cap).common.extended_capabilities.len()
            == cfg.common.extended_capabilities.len(),
{
    let a = cfg.common.extended_capabilities;
    let b = with_dpc(cfg, cap).common.extended_capabilities;
    lemma_indices(cfg.common.capabilities, a, 0);
    lemma_same_kinds(a, b, 0);
}

/// Whether nothing of a port has changed but its extended capabilities and what it has
/// signaled.
pub open spec fn otherwise_same<M>(a: PortModel<M>, b: PortModel<M>) -> bool {
    &&& a.name == b.name
    &&& a.link == b.link
    &&& a.bar == b.bar
    &&& a.cxl == b.cxl
    &&& a.component_registers == b.component_registers
    &&& a.cfg.state == b.cfg.state
    &&& a.cfg.common.state == b.cfg.common.state
    &&& a.cfg.common.capabilities == b.cfg.common.capabilities
    &&& a.cfg.common.extended_capabilities.len() == b.cfg.common.extended_capabilities.len()
}

/// Whether a port has signaled an interrupt in between: once if it was to, and the
/// message is that of its MSI capability, if that is armed.
pub open spec fn signaled<M>(a: PortModel<M>, b: PortModel<M>, wanted: bool) -> bool {
    b.outbox == match armed_message(a.cfg) {
        Some(message) if wanted => a.outbox.push(message),
        _ => a.outbox,
    }
}

/// Whether an error message asks for an interrupt of a root port: its command register
/// enables it for the class of the error.
pub open spec fn wants_interrupt(aer: AerExtendedCapability, e: AerInjection) -> bool {
    aer.root_error_command & (if e.kind == AerInjectedErrorKind::Correctable {
        1u32
    } else if e.status_bits & aer.unc_err_severity == 0 {
        2
    } else {
        4
    }) != 0
}

/// A port that starts to contain an error holds back what is behind it from then on.
/// The source is noted unless an error was contained already. An interrupt is signaled
/// exactly if bit 3 of the control register enables it. Nothing else of the port
/// changes. A port without a DPC capability does nothing.
pub proof fn law_containment_begun<M>(m: PortModel<M>, source_id: u16)
    ensures
        ({
            let next = dpc_begun(m, source_id);
            &&& dpc_of(m.cfg) is None ==> next == m
            &&& dpc_of(m.cfg) matches Some(dpc) ==> {
                &&& holds_back(next.cfg)
                &&& dpc_of(next.cfg) matches Some(after) && {
                    &&& after.status & 0x0001 == 0x0001
                    &&& after.error_source_id == if dpc.status & 0x0001 != 0 {
                        dpc.error_source_id
                    } else {
                        source_id
                    }
                    &&& dpc.control & 0x0008 != 0 ==> after.status & 0x0008 == 0x0008
                    &&& dpc.control & 0x0008 == 0 ==> after.status & 0x0008 == dpc.status & 0x0008
                    &&& dpc.capability & 0x0020 != 0 ==> after.status & 0x0010 == 0x0010
                    &&& dpc.capability & 0x0020 == 0 ==> after.status & 0x0010 == dpc.status
                        & 0x0010
                    &&& after.control == dpc.control && after.capability == dpc.capability
                }
                &&& aer_of(next.cfg) == aer_of(m.cfg)
                &&& signaled(m, next, dpc.control & 0x0008 != 0)
                &&& otherwise_same(m, next)
            }
        }),
{
    if let Some(dpc) = dpc_of(m.cfg) {
        let after = with_rp_busy(uncorrectable_triggered(dpc, source_id), true);
        law_trigger_outcome(dpc, 0, 0, source_id);
        law_uncorrectable_phases(dpc, source_id);
        lemma_with_dpc(m.cfg, after);
        law_holds_back(dpc_begun(m, source_id).cfg);
        let s = after.status;
        let t = uncorrectable_triggered(dpc, source_id).status;
        assert(s & !0x0010u16 == t & !0x0010u16 ==> s & 0x0001 == t & 0x0001 && s & 0x0008 == t
            & 0x0008) by (bit_vector);
    }
}

/// A port whose recovery is done still holds back what is behind it. Only the busy bit
/// of a root port is cleared, and nothing is signaled.
pub proof fn law_containment_completed<M>(m: PortModel<M>)
    ensures
        ({
            let next = dpc_completed(m);
            &&& dpc_of(m.cfg) is None ==> next == m
            &&& dpc_of(m.cfg) matches Some(dpc) ==> {
                &&& holds_back(next.cfg) <==> holds_back(m.cfg)
                &&& dpc_of(next.cfg) matches Some(after) && {
                    &&& dpc.capability & 0x0020 != 0 ==> after.status & 0x0010 == 0
                    &&& dpc.capability & 0x0020 == 0 ==> after.status == dpc.status
                    &&& after.status & !0x0010u16 == dpc.status & !0x0010u16
                    &&& after == (DpcExtendedCapability { status: after.status, ..dpc })
                }
                &&& aer_of(next.cfg) == aer_of(m.cfg)
                &&& next.outbox == m.outbox
                &&& otherwise_same(m, next)
            }
        }),
{
    if let Some(dpc) = dpc_of(m.cfg) {
        let after = with_rp_busy(dpc, false);
        lemma_with_dpc(m.cfg, after);
        law_holds_back(m.cfg);
        law_holds_back(dpc_completed(m).cfg);
        let s = dpc.status;
        assert({
            &&& (s & !0x0010u16) & 0x0010 == 0
            &&& (s & !0x0010u16) & !0x0010u16 == s & !0x0010u16
            &&& (s & !0x0010u16) & 0x0001 == s & 0x0001
        }) by (bit_vector);
    }
}

/// An error message is noted by the AER capability of a port. Only a root port signals
/// an interrupt, and it does so exactly if its command register enables it for the
/// class of the error. Nothing else of the port changes.
pub proof fn law_error_message<M>(m: PortModel<M>, e: AerInjection)
    ensures
        ({
            let next = aer_report_received(m, e);
            &&& aer_of(m.cfg) is None ==> next == m
            &&& aer_of(m.cfg) matches Some(aer) ==> {
                &&& aer_of(next.cfg) == Some(aer_reported(aer, e))
                &&& dpc_of(next.cfg) == dpc_of(m.cfg)
                &&& signaled(
                    m,
                    next,
                    aer.port_type == AerPortType::RootPort && wants_interrupt(aer, e)
                        && aer.root_error_interrupt_message_number is Some,
                )
                &&& otherwise_same(m, next)
            }
        }),
{
    if let Some(aer) = aer_of(m.cfg) {
        law_report_interrupt(aer, e);
        lemma_with_aer(m.cfg, aer_reported(aer, e));
    }
}

/// The error of a request.
pub open spec fn error_of(request: PcieAerInjectRequest) -> AerInjection {
    AerInjection {
        kind: request.kind,
        status_bits: request.status_bits,
        header_log: request.header_log,
        source_id: request.source_id,
    }
}

/// What is connected to a port, after an error was to be recorded there. It is told the
/// bus that it is on, if the bus numbers of the port are in order, and the bus, device
/// and function number of the source.
pub open spec fn recorded_behind<D: GenericPciBusDevice>(
    m: PortModel<D::Model>,
    e: AerInjection,
) -> Option<(Seq<char>, D::Model)> {
    let range = m.cfg.state.bus_range;
    match m.link {
        Some((name, device)) => Some(
            (
                name,
                D::aer_routed(
                    device,
                    if range.secondary <= range.subordinate {
                        range.secondary
                    } else {
                        0
                    },
                    (e.source_id / 256) as u8,
                    (e.source_id % 256) as u8,
                    e,
                ).0,
            ),
        ),
        None => None,
    }
}

/// An error that is injected at a root port is recorded in the port's own status, noted
/// as an error message, and recorded at its source. An interrupt is signaled exactly if
/// the command register enables it for the class of the error. A port that is no root
/// port, or has no AER capability, refuses; nothing behind it is told, and nothing is
/// signaled.
pub proof fn law_error_injected<D: GenericPciBusDevice>(
    m: PortModel<D::Model>,
    request: PcieAerInjectRequest,
)
    ensures
        ({
            let (next, result) = aer_injected::<D>(m, request, true);
            let e = error_of(request);
            &&& result is Ok <==> aer_of(m.cfg) is Some && aer_of(m.cfg)->0.port_type
                == AerPortType::RootPort
            &&& result is Err ==> {
                &&& result == Err::<(), InjectError>(InjectError::NotAReportingRootPort)
                &&& next.link == m.link
                &&& next.outbox == m.outbox
                &&& dpc_of(next.cfg) == dpc_of(m.cfg)
            }
            &&& result is Ok ==> {
                let aer = aer_of(m.cfg)->0;
                &&& aer_of(next.cfg) == Some(aer_reported(aer_recorded(aer, e), e))
                &&& dpc_of(next.cfg) == dpc_of(m.cfg)
                &&& next.link == recorded_behind::<D>(m, e)
                &&& signaled(
                    m,
                    next,
                    wants_interrupt(aer, e) && aer.root_error_interrupt_message_number is Some,
                )
                &&& next.cfg.state == m.cfg.state
            }
        }),
{
    if let Some(aer) = aer_of(m.cfg) {
        let e = error_of(request);
        law_report_interrupt(aer, e);
        law_report_interrupt(aer_recorded(aer, e), e);
        lemma_with_aer(m.cfg, aer_reported(aer_recorded(aer, e), e));
    }
}

/// An error that a port is to contain has to be uncorrectable, and the port has to have
/// the AER and the DPC capability. It is recorded and noted first, and then contained.
/// In a port without them, or for another error, nothing is contained.
pub proof fn law_error_contained<D: GenericPciBusDevice>(
    m: PortModel<D::Model>,
    request: PcieAerInjectRequest,
)
    ensures
        ({
            let (next, result) = dpc_injected::<D>(m, request);
            let e = error_of(request);
            let correctable = request.kind == AerInjectedErrorKind::Correctable;
            &&& result is Ok <==> !correctable && aer_of(m.cfg) is Some && dpc_of(m.cfg) is Some
            &&& correctable ==> next == m && result == Err::<(), InjectError>(
                InjectError::NotUncorrectable,
            )
            &&& !correctable && aer_of(m.cfg) is None ==> next == m && result == Err::<
                (),
                InjectError,
            >(InjectError::NoAerCapability)
            &&& result is Err ==> dpc_of(next.cfg) == dpc_of(m.cfg)
            &&& result is Ok ==> {
                let aer = aer_of(m.cfg)->0;
                let dpc = dpc_of(m.cfg)->0;
                let told = aer.port_type == AerPortType::RootPort && wants_interrupt(aer, e)
                    && aer.root_error_interrupt_message_number is Some;
                &&& holds_back(next.cfg)
                &&& aer_of(next.cfg) == Some(aer_reported(aer_recorded(aer, e), e))
                &&& dpc_of(next.cfg) matches Some(after) && after.error_source_id == if dpc.status
                    & 0x0001 != 0 {
                    dpc.error_source_id
                } else {
                    request.source_id
                }
                &&& next.link == recorded_behind::<D>(m, e)
                &&& next.cfg.state == m.cfg.state
                &&& next.outbox.len() == m.outbox.len() + match armed_message(m.cfg) {
                    Some(_) => (if told {
                        1int
                    } else {
                        0
                    }) + (if dpc.control & 0x0008 != 0 {
                        1int
                    } else {
                        0
                    }),
                    None => 0,
                }
            }
        }),
{
    if request.kind == AerInjectedErrorKind::Uncorrectable && aer_of(m.cfg) is Some {
        let e = error_of(request);
        let aer = aer_of(m.cfg)->0;
        law_report_interrupt(aer, e);
        lemma_with_aer(m.cfg, aer_reported(aer_recorded(aer, e), e));
        let told = aer_injected::<D>(m, request, false).0;
        law_containment_begun(told, request.source_id);
    }
}

/// A port can contain an error of a function behind it exactly if it has the DPC
/// capability, and what it does then is to note the error, if one is given, and to
/// start containment; or to complete it.
pub proof fn law_action_applied<M>(m: PortModel<M>, source_id: u16, action: PcieDpcRoutingAction)
    ensures
        dpc_applied(m, source_id, action).1 <==> dpc_of(m.cfg) is Some,
        dpc_of(m.cfg) is None ==> dpc_applied(m, source_id, action).0 == m,
        dpc_of(m.cfg) is Some ==> match action {
            PcieDpcRoutingAction::Begin { aer } => {
                let next = dpc_applied(m, source_id, action).0;
                &&& holds_back(next.cfg)
                &&& next == dpc_begun(
                    match aer {
                        Some(e) => aer_report_received(m, e),
                        None => m,
                    },
                    source_id,
                )
                &&& otherwise_same(m, next)
            },
            PcieDpcRoutingAction::Complete => dpc_applied(m, source_id, action).0
                == dpc_completed(m),
        },
{
    if let PcieDpcRoutingAction::Begin { aer } = action {
        let told = match aer {
            Some(e) => aer_report_received(m, e),
            None => m,
        };
        if let Some(e) = aer {
            law_error_message(m, e);
        }
        law_containment_begun(told, source_id);
    }
}

/// An error of a function behind a port is contained as close to the function as can
/// be: by a port behind this one, if what is connected finds one, and else by this one.
/// A port that the function is directly connected to does not ask what is connected.
pub proof fn law_contained_close<D: GenericPciBusDevice>(
    m: PortModel<D::Model>,
    bus: u8,
    function: u8,
    action: PcieDpcRoutingAction,
)
    requires
        takes_in(m.cfg, bus),
    ensures
        ({
            let (next, done) = contain_upstream::<D>(m, bus, function, action);
            let second = m.cfg.state.bus_range.secondary;
            let source_id = (bus as int * 256 + function) as u16;
            let asked = m.link is Some && bus != second;
            let (device, found) = D::dpc_routed(device_behind(m), second, bus, function, action);
            &&& asked && found ==> done && next == with_device(m, device)
            &&& asked && !found ==> (next, done) == dpc_applied(
                with_device(m, device),
                source_id,
                action,
            )
            &&& !asked ==> (next, done) == dpc_applied(m, source_id, action)
        }),
{
}

/// An error of a device is recorded at the device and then reported to the first root
/// port that takes in the bus of the device, which is the upper half of the target. No
/// other root port is told. If there is no such root port, nothing is done.
pub proof fn law_error_of_device<D: GenericPciBusDevice>(
    m: RootModel<D::Model>,
    target: u16,
    request: crate::pcie::error_inject::PcieAerInjectRequest,
    p: int,
)
    ensures
        ({
            let bus = (target / 256) as u8;
            let (next, result) = aer_reported_for::<D>(m, target, request);
            let e = AerInjection {
                kind: request.kind,
                status_bits: request.status_bits,
                header_log: request.header_log,
                source_id: target,
            };
            &&& is_nobodys(m.ports, bus) ==> next == m && result == Err::<(), TargetError>(
                TargetError::NoRootPort,
            )
            &&& is_first(m.ports, bus, p) ==> {
                let told = PortModel { link: recorded_behind::<D>(m.ports[p], e), ..m.ports[p] };
                &&& result is Ok
                &&& next == (RootModel {
                    ports: m.ports.update(p, aer_report_received(told, e)),
                    ..m
                })
            }
        }),
{
    law_first_port(m.ports, (target / 256) as u8, p);
}

/// Containment of an error of a device starts at the first root port that takes in the
/// bus of the device, and goes as close to the device as can be. The error, if one is
/// given, is recorded at the device first. No other root port changes. It fails if
/// there is no such root port, or no port on the way that can contain errors.
pub proof fn law_containment_of_device<D: GenericPciBusDevice>(
    m: RootModel<D::Model>,
    target: u16,
    request: Option<crate::pcie::error_inject::PcieAerInjectRequest>,
    p: int,
)
    ensures
        ({
            let bus = (target / 256) as u8;
            let function = (target % 256) as u8;
            let (next, result) = dpc_begun_for::<D>(m, target, request);
            let (after, ended) = dpc_completed_for::<D>(m, target);
            let aer = match request {
                Some(q) => Some(
                    AerInjection {
                        kind: q.kind,
                        status_bits: q.status_bits,
                        header_log: q.header_log,
                        source_id: target,
                    },
                ),
                None => None,
            };
            &&& is_nobodys(m.ports, bus) ==> {
                &&& next == m && result == Err::<(), TargetError>(TargetError::NoRootPort)
                &&& after == m && ended == Err::<(), TargetError>(TargetError::NoRootPort)
            }
            &&& is_first(m.ports, bus, p) ==> {
                let told = match aer {
                    Some(e) => PortModel {
                        link: recorded_behind::<D>(m.ports[p], e),
                        ..m.ports[p]
                    },
                    None => m.ports[p],
                };
                let (port, done) = contain_upstream::<D>(
                    told,
                    bus,
                    function,
                    PcieDpcRoutingAction::Begin { aer },
                );
                let (other, finished) = contain_upstream::<D>(
                    m.ports[p],
                    bus,
                    function,
                    PcieDpcRoutingAction::Complete,
                );
                &&& next == (RootModel { ports: m.ports.update(p, port), ..m })
                &&& after == (RootModel { ports: m.ports.update(p, other), ..m })
                &&& result == if done {
                    Ok(())
                } else {
                    Err(TargetError::NoContainingPort)
                }
                &&& ended == if finished {
                    Ok(())
                } else {
                    Err(TargetError::NoContainingPort)
                }
            }
        }),
{
    law_first_port(m.ports, (target / 256) as u8, p);
}

/// What a switch does with an error of a function behind it. It records it at a
/// downstream port, if the function is one, or else behind the first downstream port
/// that takes in the bus. Only the latter can contain it.
pub proof fn law_switch_errors<D: GenericPciBusDevice>(
    m: SwitchModel<D::Model>,
    own_bus: u8,
    bus: u8,
    function: u8,
    e: AerInjection,
    action: PcieDpcRoutingAction,
    p: int,
)
    ensures
        ({
            let (noted, heard) = <GenericPcieSwitch<D> as GenericPciBusDevice>::aer_routed(
                m,
                own_bus,
                bus,
                function,
                e,
            );
            let (next, done) = <GenericPcieSwitch<D> as GenericPciBusDevice>::dpc_routed(
                m,
                own_bus,
                bus,
                function,
                action,
            );
            let second = m.upstream.state.bus_range.secondary;
            &&& bus == own_bus || !takes_in(m.upstream, bus) ==> {
                &&& noted == m && !heard
                &&& next == m && !done
            }
            &&& bus != own_bus && takes_in(m.upstream, bus) && bus == second ==> {
                &&& next == m && !done
                &&& function >= m.ports.len() ==> noted == m && !heard
                &&& function < m.ports.len() ==> {
                    let port = m.ports[function as int];
                    &&& heard <==> aer_of(port.cfg) is Some
                    &&& aer_of(port.cfg) is None ==> noted.ports[function as int] == port
                    &&& aer_of(port.cfg) matches Some(aer) ==> aer_of(
                        noted.ports[function as int].cfg,
                    ) == Some(aer_reported(aer_recorded(aer, e), e))
                    &&& noted.ports.len() == m.ports.len()
                    &&& noted.upstream == m.upstream
                    &&& forall|k: int|
                        0 <= k < m.ports.len() && k != function ==> noted.ports[k]
                            == #[trigger] m.ports[k]
                }
            }
            &&& bus != own_bus && takes_in(m.upstream, bus) && bus != second ==> {
                &&& is_nobodys(m.ports, bus) ==> {
                    &&& noted == m && !heard
                    &&& next == m && !done
                }
                &&& is_first(m.ports, bus, p) ==> {
                    let (told, known) = child_aer::<D>(m.ports[p], bus, function, e);
                    let (port, found) = contain_upstream::<D>(m.ports[p], bus, function, action);
                    &&& noted == (SwitchModel { ports: m.ports.update(p, told), ..m })
                    &&& heard == known
                    &&& next == (SwitchModel { ports: m.ports.update(p, port), ..m })
                    &&& done == found
                }
            }
        }),
{
    law_first_port(m.ports, bus, p);
    if function < m.ports.len() {
        let port = m.ports[function as int];
        if let Some(aer) = aer_of(port.cfg) {
            lemma_with_aer(port.cfg, aer_reported(aer_recorded(aer, e), e));
        }
    }
}

}
