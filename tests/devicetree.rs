use kernel::devicetree::{is_memory_name, property_step, subnode_step, HeaderIssue, HeaderTolerance, WalkStep};

#[test]
fn memory_names() {
    assert!(is_memory_name(b"memory"));
    assert!(is_memory_name(b"memory@80000000"));
    assert!(!is_memory_name(b"memor"));
    assert!(!is_memory_name(b"cpus"));
    assert!(!is_memory_name(b""));
    assert!(!is_memory_name(b"Memory@0"));
}

#[test]
fn only_memory_nodes_under_root_are_entered() {
    assert_eq!(subnode_step(true, b"memory@80000000"), WalkStep::Into);
    assert_eq!(subnode_step(false, b"memory@80000000"), WalkStep::Over);
    assert_eq!(subnode_step(true, b"cpus"), WalkStep::Over);
}

#[test]
fn reg_of_memory_node_is_read() {
    assert_eq!(property_step(true, b"memory@80000000"), WalkStep::Out);
    assert_eq!(property_step(false, b"memory@80000000"), WalkStep::Over);
    assert_eq!(property_step(true, b"uart@10000000"), WalkStep::Over);
}

#[test]
fn boot_tolerance() {
    let t = HeaderTolerance::boot();
    assert!(t.tolerates(HeaderIssue::Misaligned(4)));
    assert!(!t.tolerates(HeaderIssue::Misaligned(2)));
    assert!(t.tolerates(HeaderIssue::LastCompVersion(2)));
    assert!(t.tolerates(HeaderIssue::LastCompVersion(17)));
    assert!(!t.tolerates(HeaderIssue::Other));
}

#[test]
fn configured_tolerance() {
    let t = HeaderTolerance { misalignments: vec![2, 4], any_last_comp_version: false };
    assert!(t.tolerates(HeaderIssue::Misaligned(2)));
    assert!(!t.tolerates(HeaderIssue::LastCompVersion(16)));
}
