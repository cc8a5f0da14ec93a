//! The domain router: domain-wide configuration, source modes, delegation,
//! targets, and the set-by-number enable/pending side channels.

use aia_core::aplic::{
    aplic_addr, aplic_init, deliver_wired, idc_addr, Aplic, SourceModes, APLIC_M, APLIC_S,
};
use aia_core::imsic::{imsic_init, imsic_pop, Imsic, MsgAction, PrivMode};
use aia_core::trap::{handle_trap, TrapOutcome};

#[test]
fn domaincfg_packs_three_flags() {
    let mut a = Aplic::new();
    a.set_domaincfg(false, true, true);
    assert_eq!(a.domaincfg, 0x104);
    a.set_domaincfg(true, false, false);
    assert_eq!(a.domaincfg, 0x1);
    a.set_domaincfg(false, false, false);
    assert_eq!(a.domaincfg, 0);
}

#[test]
fn target_packs_hart_guest_identifier() {
    let mut a = Aplic::new();
    a.set_target(10, 1, 2, 3);
    assert_eq!(a.target[9], (1 << 18) | (2 << 12) | 3);
    a.set_target(10, 0, 0, 10);
    assert_eq!(a.target[9], 10);
}

#[test]
fn sourcecfg_stores_trigger_modes() {
    let mut a = Aplic::new();
    a.set_sourcecfg(5, SourceModes::LevelHigh);
    assert_eq!(a.sourcecfg[4], 6);
    a.set_sourcecfg(5, SourceModes::RisingEdge);
    assert_eq!(a.sourcecfg[4], 4);
    a.set_sourcecfg(5, SourceModes::Inactive);
    assert_eq!(a.sourcecfg[4], 0);
}

#[test]
fn delegation_marker_survives_child_configuration() {
    let mut parent = Aplic::new();
    let mut child = Aplic::new();
    parent.sourcecfg_delegate(10, 0);
    child.set_sourcecfg(10, SourceModes::LevelHigh);
    child.set_ie(10, true);
    // The parent's register reads back the delegation-marker form, not a
    // trigger mode.
    assert_eq!(parent.sourcecfg[9], 1 << 10);
    assert_ne!(parent.sourcecfg[9], 6);
    parent.sourcecfg_delegate(12, 3);
    assert_eq!(parent.sourcecfg[11], (1 << 10) | 3);
}

#[test]
fn set_by_number_side_channels() {
    let mut a = Aplic::new();
    a.set_ie(33, true);
    a.set_ip(33, true);
    assert_eq!(a.ie[1], 2);
    assert_eq!(a.ip[1], 2);
    a.set_ie(33, false);
    a.set_ip(33, false);
    assert_eq!(a.ie[1], 0);
    assert_eq!(a.ip[1], 0);
}

#[test]
fn init_runs_the_reference_boot_sequence() {
    let mut root = Aplic::new();
    let mut child = Aplic::new();
    aplic_init(&mut root, &mut child);
    assert_eq!(root.domaincfg, 0x104);
    assert_eq!(child.domaincfg, 0x104);
    assert_eq!(root.smsiaddrcfg, (0x2800_0000u32 >> 12));
    assert_eq!(root.sourcecfg[9], 1 << 10);
    assert_eq!(child.sourcecfg[9], 6);
    assert_eq!(child.target[9], 10);
    assert_eq!(child.ie[0], 1 << 10);
}

#[test]
fn wired_line_reaches_supervisor_file() {
    let mut root = Aplic::new();
    let mut child = Aplic::new();
    let mut im = Imsic::new();
    aplic_init(&mut root, &mut child);
    imsic_init(&mut im);
    // The asserted line is delegated, the child is enabled in
    // message-signaled mode with an active level trigger, so the message
    // lands in the supervisor-level file and the claim hands it back.
    assert!(deliver_wired(&root, &child, &mut im, 10));
    assert_eq!(imsic_pop(&mut im, PrivMode::Supervisor), 10);
    assert_eq!(imsic_pop(&mut im, PrivMode::Supervisor), 0);
}

#[test]
fn wired_line_travels_the_whole_path() {
    let mut root = Aplic::new();
    let mut child = Aplic::new();
    let mut im = Imsic::new();
    aplic_init(&mut root, &mut child);
    imsic_init(&mut im);
    assert!(deliver_wired(&root, &child, &mut im, 10));
    // The supervisor-external trap claims message 10 and routes it to the
    // console handler.
    assert_eq!(
        handle_trap(&mut im, 0x8000_0009),
        TrapOutcome::Dispatched(MsgAction::ConsoleInput)
    );
    assert_eq!(
        handle_trap(&mut im, 0x8000_0009),
        TrapOutcome::Dispatched(MsgAction::Spurious)
    );
}

#[test]
fn wired_line_needs_the_full_route() {
    let mut root = Aplic::new();
    let mut child = Aplic::new();
    let mut im = Imsic::new();
    // Nothing configured: no delivery.
    assert!(!deliver_wired(&root, &child, &mut im, 10));
    aplic_init(&mut root, &mut child);
    // Disabling the child's enable bit cuts the route again.
    child.set_ie(10, false);
    assert!(!deliver_wired(&root, &child, &mut im, 10));
    assert_eq!(imsic_pop(&mut im, PrivMode::Supervisor), 0);
}

#[test]
fn register_block_addresses() {
    assert_eq!(aplic_addr(PrivMode::Machine), APLIC_M);
    assert_eq!(aplic_addr(PrivMode::Supervisor), APLIC_S);
    assert_eq!(idc_addr(0), 0xd00_4000);
    assert_eq!(idc_addr(2), 0xd00_4040);
}
