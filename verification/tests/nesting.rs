//! The stream backend against a host that keeps its own books.
use pci_model::nesting::setup::query_host_caps;
use pci_model::nesting::setup::HostCapsError;
use pci_model::nesting::setup::HwInfo;
use pci_model::nesting::setup::InvalidateReply;
use pci_model::nesting::setup::SetupError;
use pci_model::nesting::setup::SmmuAccelSetup;
use pci_model::nesting::HostAction;
use pci_model::nesting::HostReply;
use pci_model::nesting::IommufdStreamBackend;
use pci_model::nesting::Next;
use pci_model::nesting::SmmuAccelState;
use pci_model::nesting::StreamConfig;
use pci_model::nesting::StreamError;

const ACCEL: SmmuAccelState = SmmuAccelState {
    viommu_id: 10,
    s2_parent_hwpt_id: 11,
    abort_hwpt_id: 12,
    bypass_hwpt_id: 13,
};

/// A host with numbered objects. `fail_at` counts down to an action that fails.
struct Host {
    next_id: u32,
    attached: Option<u32>,
    live: Vec<u32>,
    log: Vec<HostAction>,
    fail_at: Option<usize>,
}

impl Host {
    fn new() -> Self {
        Host { next_id: 100, attached: None, live: vec![], log: vec![], fail_at: None }
    }

    fn act(&mut self, action: HostAction) -> HostReply {
        self.log.push(action);
        match action {
            HostAction::Attach { .. }
            | HostAction::AllocVdevice { .. }
            | HostAction::AllocHwpt { .. } => match self.fail_at {
                Some(0) => {
                    self.fail_at = None;
                    return HostReply::Failed;
                }
                Some(n) => self.fail_at = Some(n - 1),
                None => {}
            },
            _ => {}
        }
        match action {
            HostAction::Attach { pt_id } => {
                self.attached = Some(pt_id);
                HostReply::Done
            }
            HostAction::Detach => {
                assert!(self.attached.is_some());
                self.attached = None;
                HostReply::Done
            }
            HostAction::Destroy { id } => {
                assert_ne!(self.attached, Some(id));
                let at = self.live.iter().position(|x| *x == id).unwrap();
                self.live.remove(at);
                HostReply::Done
            }
            _ => {
                self.next_id += 1;
                self.live.push(self.next_id);
                HostReply::Id(self.next_id)
            }
        }
    }
}

fn run(b: &mut IommufdStreamBackend, host: &mut Host, first: Next) -> Result<(), StreamError> {
    let mut next = first;
    loop {
        match next {
            Next::Finished(r) => return r,
            Next::Act(action) => {
                let reply = host.act(action);
                next = b.complete(reply);
            }
        }
    }
}

fn configure(
    b: &mut IommufdStreamBackend,
    host: &mut Host,
    config: StreamConfig,
) -> Result<(), StreamError> {
    let first = b.set_stream_config(config);
    run(b, host, first)
}

fn translate(sid: u32, ste: [u64; 2]) -> StreamConfig {
    StreamConfig::Translate { sid, ste_dwords: ste }
}

#[test]
fn abort_and_bypass_attach_to_the_shared_page_tables() {
    let mut host = Host::new();
    let mut b = IommufdStreamBackend::new(ACCEL, 7);
    assert_eq!(configure(&mut b, &mut host, StreamConfig::Abort), Ok(()));
    assert_eq!(host.attached, Some(12));
    assert_eq!(configure(&mut b, &mut host, StreamConfig::Bypass), Ok(()));
    assert_eq!(host.attached, Some(13));
    assert_eq!(
        host.log,
        vec![HostAction::Attach { pt_id: 12 }, HostAction::Attach { pt_id: 13 }]
    );
}

#[test]
fn translation_allocates_the_virtual_device_once() {
    let mut host = Host::new();
    let mut b = IommufdStreamBackend::new(ACCEL, 7);
    assert_eq!(configure(&mut b, &mut host, translate(0x208, [5, 6])), Ok(()));
    assert_eq!(configure(&mut b, &mut host, translate(0x208, [7, 8])), Ok(()));
    assert_eq!(
        host.log,
        vec![
            HostAction::AllocVdevice { viommu_id: 10, dev_id: 7, virtual_sid: 0x208 },
            HostAction::AllocHwpt { dev_id: 7, parent: 10, ste: [5, 6] },
            HostAction::Attach { pt_id: 102 },
            HostAction::AllocHwpt { dev_id: 7, parent: 10, ste: [7, 8] },
            HostAction::Attach { pt_id: 103 },
            HostAction::Destroy { id: 102 },
        ]
    );
    assert_eq!(host.live, vec![101, 103]);
}

#[test]
fn leaving_translation_destroys_the_nested_page_table() {
    let mut host = Host::new();
    let mut b = IommufdStreamBackend::new(ACCEL, 7);
    configure(&mut b, &mut host, translate(1, [1, 2])).unwrap();
    configure(&mut b, &mut host, StreamConfig::Bypass).unwrap();
    assert_eq!(host.attached, Some(13));
    assert_eq!(host.live, vec![101]);
    assert_eq!(b.state.current_nested_hwpt, None);
    assert_eq!(b.state.vdevice_id, Some(101));
}

#[test]
fn new_identity_blocks_dma_and_drops_the_virtual_device() {
    let mut host = Host::new();
    let mut b = IommufdStreamBackend::new(ACCEL, 7);
    configure(&mut b, &mut host, translate(1, [1, 2])).unwrap();
    let first = b.set_stream_id();
    assert_eq!(run(&mut b, &mut host, first), Ok(()));
    assert_eq!(host.attached, Some(12));
    assert!(host.live.is_empty());
    assert_eq!(b.state.vdevice_id, None);
    // The next translation names the new stream.
    host.log.clear();
    configure(&mut b, &mut host, translate(2, [1, 2])).unwrap();
    assert_eq!(
        host.log[0],
        HostAction::AllocVdevice { viommu_id: 10, dev_id: 7, virtual_sid: 2 }
    );
}

#[test]
fn failed_translation_keeps_what_was_there() {
    for fail_at in 0..3 {
        let mut host = Host::new();
        let mut b = IommufdStreamBackend::new(ACCEL, 7);
        configure(&mut b, &mut host, StreamConfig::Bypass).unwrap();
        host.fail_at = Some(fail_at);
        let r = configure(&mut b, &mut host, translate(1, [1, 2]));
        let expected = match fail_at {
            0 => StreamError::AllocVdevice,
            1 => StreamError::AllocHwpt,
            _ => StreamError::AttachNested,
        };
        assert_eq!(r, Err(expected));
        assert_eq!(host.attached, Some(13));
        // At most the virtual device is left.
        assert_eq!(host.live.len(), if fail_at == 0 { 0 } else { 1 });
        assert_eq!(b.state.current_nested_hwpt, None);
    }
}

#[test]
fn failed_attach_to_a_shared_page_table_is_reported() {
    let mut host = Host::new();
    let mut b = IommufdStreamBackend::new(ACCEL, 7);
    host.fail_at = Some(0);
    assert_eq!(
        configure(&mut b, &mut host, StreamConfig::Abort),
        Err(StreamError::AttachAbort)
    );
    host.fail_at = Some(0);
    assert_eq!(
        configure(&mut b, &mut host, StreamConfig::Bypass),
        Err(StreamError::AttachBypass)
    );
    assert!(!b.state.attached);
}

#[test]
fn teardown_leaves_nothing() {
    let mut host = Host::new();
    let mut b = IommufdStreamBackend::new(ACCEL, 7);
    configure(&mut b, &mut host, translate(1, [1, 2])).unwrap();
    let first = b.teardown();
    assert_eq!(run(&mut b, &mut host, first), Ok(()));
    assert_eq!(host.attached, None);
    assert!(host.live.is_empty());
    // A backend that never did anything has nothing to tear down.
    let mut fresh = IommufdStreamBackend::new(ACCEL, 8);
    assert_eq!(fresh.teardown(), Next::Finished(Ok(())));
}

#[test]
fn shared_objects_are_made_in_order() {
    let mut s = SmmuAccelSetup::new(7, 11);
    assert_eq!(s.action(), Some(HostAction::AllocViommu { dev_id: 7, parent: 11 }));
    s.complete(HostReply::Id(10));
    assert_eq!(s.action(), Some(HostAction::AllocHwpt { dev_id: 7, parent: 10, ste: [1, 0] }));
    s.complete(HostReply::Id(12));
    assert_eq!(s.action(), Some(HostAction::AllocHwpt { dev_id: 7, parent: 10, ste: [9, 0] }));
    s.complete(HostReply::Id(13));
    assert_eq!(s.action(), None);
    assert_eq!(s, SmmuAccelSetup::Ready(ACCEL));
    assert_eq!(ACCEL.viommu_id(), 10);
    assert_eq!(ACCEL.s2_parent_hwpt_id(), 11);
}

#[test]
fn setup_fails_where_the_host_does() {
    let errors = [SetupError::Viommu, SetupError::AbortHwpt, SetupError::BypassHwpt];
    for (n, error) in errors.iter().enumerate() {
        let mut s = SmmuAccelSetup::new(7, 11);
        for _ in 0..n {
            s.complete(HostReply::Id(50));
        }
        s.complete(HostReply::Failed);
        assert_eq!(s, SmmuAccelSetup::Failed(*error));
        assert_eq!(s.action(), None);
    }
}

#[test]
fn rejected_invalidations_go_on_at_the_first_not_handled() {
    assert_eq!(ACCEL.invalidate(4, InvalidateReply::Done), Ok(()));
    assert_eq!(ACCEL.invalidate(4, InvalidateReply::Rejected { handled: 3 }), Err(3));
    assert_eq!(ACCEL.invalidate(4, InvalidateReply::Rejected { handled: 4 }), Err(0));
    assert_eq!(ACCEL.invalidate(4, InvalidateReply::Rejected { handled: 0 }), Err(0));
}

#[test]
fn only_smmuv3_information_is_taken() {
    let idr = [1, 2, 3, 4, 5, 6];
    assert_eq!(query_host_caps(Some(HwInfo { data_type: 2, idr })), Ok(idr));
    assert_eq!(
        query_host_caps(Some(HwInfo { data_type: 1, idr })),
        Err(HostCapsError::UnexpectedType(1))
    );
    assert_eq!(query_host_caps(None), Err(HostCapsError::HwInfo));
}
