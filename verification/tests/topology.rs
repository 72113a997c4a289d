//! Names, cycles and order of switches.
use pci_model::pcie::topology::build_switch_topology;
use pci_model::pcie::topology::detect_cycle;
use pci_model::pcie::topology::topological_sort;
use pci_model::pcie::topology::validate_names;
use pci_model::pcie::topology::GenericSwitchDefinition;
use pci_model::pcie::topology::ParentPort;
use pci_model::pcie::topology::SwitchPlacement;
use pci_model::pcie::topology::TopologyError;

fn switch(name: &str, ports: u8, parent: &str) -> GenericSwitchDefinition {
    GenericSwitchDefinition::new(name.to_string(), ports, parent.to_string())
}

fn ports(names: &[&str]) -> Vec<String> {
    names.iter().map(|n| n.to_string()).collect()
}

#[test]
fn definition_keeps_what_it_is_given() {
    let d = switch("sw", 4, "rp0");
    assert_eq!(d.name, "sw");
    assert_eq!(d.num_downstream_ports, 4);
    assert_eq!(d.parent_port, "rp0");
}

#[test]
fn different_names_are_accepted() {
    let r = validate_names(
        &ports(&["rp0", "rp1"]),
        &vec![switch("sw0", 12, "rp0"), switch("sw1", 2, "sw0-downstream-1")],
    );
    assert_eq!(r, Ok(()));
}

#[test]
fn duplicate_names_are_reported() {
    let none: Vec<GenericSwitchDefinition> = vec![];
    assert_eq!(validate_names(&ports(&["rp0", "rp1", "rp0"]), &none), Err("rp0".to_string()));
    assert_eq!(
        validate_names(&ports(&["rp0"]), &vec![switch("rp0", 1, "rp0")]),
        Err("rp0".to_string())
    );
    assert_eq!(
        validate_names(&ports(&["rp0"]), &vec![switch("sw", 1, "rp0"), switch("sw", 1, "rp0")]),
        Err("sw".to_string())
    );
    // The name of a downstream port counts, with both of its digits.
    assert_eq!(
        validate_names(&ports(&["sw-downstream-10"]), &vec![switch("sw", 11, "rp0")]),
        Err("sw-downstream-10".to_string())
    );
    assert_eq!(
        validate_names(&ports(&["sw-downstream-10"]), &vec![switch("sw", 10, "rp0")]),
        Ok(())
    );
}

#[test]
fn cycles_are_closed() {
    let defs = vec![switch("a", 1, "rp0"), switch("b", 1, "c"), switch("c", 1, "b")];
    let cycle = detect_cycle(&defs).unwrap();
    assert_eq!(cycle.first(), cycle.last());
    assert_eq!(cycle.len(), 3);
    for pair in cycle.windows(2) {
        assert_eq!(defs[pair[0]].parent_port, defs[pair[1]].name);
    }
    // A switch that is its own parent.
    assert_eq!(detect_cycle(&vec![switch("a", 1, "a")]), Some(vec![0, 0]));
}

#[test]
fn chains_are_no_cycles() {
    let defs = vec![switch("a", 1, "b"), switch("b", 1, "c"), switch("c", 1, "rp0")];
    assert_eq!(detect_cycle(&defs), None);
    assert_eq!(detect_cycle(&vec![]), None);
}

#[test]
fn parents_come_first() {
    let defs = vec![
        switch("leaf", 1, "mid-downstream-1"),
        switch("mid", 2, "top-downstream-0"),
        switch("top", 2, "rp0"),
    ];
    assert_eq!(topological_sort(&defs), vec![2, 1, 0]);
}

#[test]
fn switches_without_a_way_to_the_root_are_left_out() {
    let defs = vec![
        switch("a", 1, "b-downstream-0"),
        switch("b", 1, "a-downstream-0"),
        switch("top", 2, "rp0"),
    ];
    assert_eq!(topological_sort(&defs), vec![2]);
}

#[test]
fn switches_get_their_root_ports() {
    let r = build_switch_topology(
        &ports(&["rp0", "rp1"]),
        &vec![switch("b", 2, "rp1"), switch("a", 2, "rp0")],
    )
    .unwrap();
    assert_eq!(
        r,
        vec![
            SwitchPlacement { switch: 0, parent: ParentPort::Root(1) },
            SwitchPlacement { switch: 1, parent: ParentPort::Root(0) },
        ]
    );
}

#[test]
fn cyclic_topology_is_refused() {
    let r = build_switch_topology(
        &ports(&["rp0"]),
        &vec![switch("a", 1, "b"), switch("b", 1, "a")],
    );
    match r {
        Err(TopologyError::Cycle(cycle)) => {
            assert_eq!(cycle.len(), 3);
            assert_eq!(cycle[0], cycle[2]);
        }
        other => panic!("{:?}", other),
    }
}

#[test]
fn missing_and_taken_parents_are_refused() {
    let r = build_switch_topology(&ports(&["rp0"]), &vec![switch("a", 1, "rp7")]);
    assert!(matches!(r, Err(TopologyError::ParentUnavailable(0))));
    let r = build_switch_topology(
        &ports(&["rp0"]),
        &vec![switch("a", 1, "rp0"), switch("b", 1, "rp0")],
    );
    assert!(matches!(r, Err(TopologyError::ParentUnavailable(1))));
}

#[test]
fn switches_are_connected_to_ports_of_switches() {
    let r = build_switch_topology(
        &ports(&["rp0"]),
        &vec![
            switch("leaf", 1, "mid-downstream-1"),
            switch("mid", 2, "top-downstream-0"),
            switch("top", 2, "rp0"),
            switch("other", 2, "mid-downstream-0"),
        ],
    )
    .unwrap();
    assert_eq!(
        r,
        vec![
            SwitchPlacement { switch: 2, parent: ParentPort::Root(0) },
            SwitchPlacement { switch: 1, parent: ParentPort::Switch { switch: 2, port: 0 } },
            SwitchPlacement { switch: 3, parent: ParentPort::Switch { switch: 1, port: 0 } },
            SwitchPlacement { switch: 0, parent: ParentPort::Switch { switch: 1, port: 1 } },
        ]
    );
    // A port that is taken, and one that the switch does not have.
    let r = build_switch_topology(
        &ports(&["rp0"]),
        &vec![
            switch("top", 2, "rp0"),
            switch("a", 1, "top-downstream-1"),
            switch("b", 1, "top-downstream-1"),
        ],
    );
    assert!(matches!(r, Err(TopologyError::ParentUnavailable(2))));
    let r = build_switch_topology(
        &ports(&["rp0"]),
        &vec![switch("top", 2, "rp0"), switch("a", 1, "top-downstream-2")],
    );
    assert!(matches!(r, Err(TopologyError::ParentUnavailable(1))));
}

#[test]
fn switches_without_a_way_to_the_root_are_refused() {
    let r = build_switch_topology(
        &ports(&["rp0"]),
        &vec![
            switch("top", 2, "rp0"),
            switch("a", 1, "b-downstream-0"),
            switch("b", 1, "a-downstream-0"),
        ],
    );
    assert!(matches!(r, Err(TopologyError::Unrooted(1))));
}
