//! The message file: enable/pending bits through the indirect window,
//! delivery gating, threshold, and the read-and-clear claim.

use aia_core::imsic::{
    imsic_clear, imsic_disable, imsic_enable, imsic_handle, imsic_m, imsic_pop, imsic_read,
    imsic_s, imsic_trigger, imsic_write, Imsic, MsgAction, PrivMode, EIDELIVERY, EITHRESHOLD,
    MIREG, MISELECT, MTOPEI, SIREG, SISELECT, STOPEI,
};

fn delivery_on(im: &mut Imsic) {
    imsic_write(im, MISELECT, EIDELIVERY);
    imsic_write(im, MIREG, 1);
    imsic_write(im, SISELECT, EIDELIVERY);
    imsic_write(im, SIREG, 1);
}

#[test]
fn claim_returns_identifier_exactly_once() {
    let mut im = Imsic::new();
    delivery_on(&mut im);
    imsic_enable(&mut im, PrivMode::Supervisor, 10);
    imsic_trigger(&mut im, PrivMode::Supervisor, 10);
    assert_eq!(imsic_pop(&mut im, PrivMode::Supervisor), 10);
    assert_eq!(imsic_pop(&mut im, PrivMode::Supervisor), 0);
}

#[test]
fn claim_returns_lowest_pending_first() {
    let mut im = Imsic::new();
    delivery_on(&mut im);
    for id in [10usize, 4, 2] {
        imsic_enable(&mut im, PrivMode::Machine, id);
        imsic_trigger(&mut im, PrivMode::Machine, id);
    }
    assert_eq!(imsic_pop(&mut im, PrivMode::Machine), 2);
    assert_eq!(imsic_pop(&mut im, PrivMode::Machine), 4);
    assert_eq!(imsic_pop(&mut im, PrivMode::Machine), 10);
    assert_eq!(imsic_pop(&mut im, PrivMode::Machine), 0);
}

#[test]
fn threshold_excludes_at_and_above() {
    let mut im = Imsic::new();
    delivery_on(&mut im);
    imsic_write(&mut im, MISELECT, EITHRESHOLD);
    imsic_write(&mut im, MIREG, 5);
    for id in [5usize, 6, 4] {
        imsic_enable(&mut im, PrivMode::Machine, id);
        imsic_trigger(&mut im, PrivMode::Machine, id);
    }
    // Only 4 (the identifier one below the threshold) is audible.
    assert_eq!(imsic_pop(&mut im, PrivMode::Machine), 4);
    assert_eq!(imsic_pop(&mut im, PrivMode::Machine), 0);
    // Raising the threshold makes the rest audible again.
    imsic_write(&mut im, MISELECT, EITHRESHOLD);
    imsic_write(&mut im, MIREG, 0);
    assert_eq!(imsic_pop(&mut im, PrivMode::Machine), 5);
    assert_eq!(imsic_pop(&mut im, PrivMode::Machine), 6);
}

#[test]
fn delivery_off_blocks_claims() {
    let mut im = Imsic::new();
    imsic_enable(&mut im, PrivMode::Machine, 7);
    imsic_trigger(&mut im, PrivMode::Machine, 7);
    assert_eq!(imsic_pop(&mut im, PrivMode::Machine), 0);
    delivery_on(&mut im);
    assert_eq!(imsic_pop(&mut im, PrivMode::Machine), 7);
}

#[test]
fn disable_and_clear_remove_bits() {
    let mut im = Imsic::new();
    delivery_on(&mut im);
    imsic_enable(&mut im, PrivMode::Supervisor, 20);
    imsic_trigger(&mut im, PrivMode::Supervisor, 20);
    imsic_disable(&mut im, PrivMode::Supervisor, 20);
    assert_eq!(imsic_pop(&mut im, PrivMode::Supervisor), 0);
    imsic_enable(&mut im, PrivMode::Supervisor, 20);
    assert_eq!(imsic_pop(&mut im, PrivMode::Supervisor), 20);
    imsic_trigger(&mut im, PrivMode::Supervisor, 20);
    imsic_clear(&mut im, PrivMode::Supervisor, 20);
    assert_eq!(imsic_pop(&mut im, PrivMode::Supervisor), 0);
}

#[test]
fn window_reads_back_what_was_selected() {
    let mut im = Imsic::new();
    imsic_write(&mut im, MISELECT, EITHRESHOLD);
    imsic_write(&mut im, MIREG, 42);
    assert_eq!(imsic_read(&im, MISELECT), EITHRESHOLD);
    assert_eq!(imsic_read(&im, MIREG), 42);
    imsic_write(&mut im, SISELECT, EIDELIVERY);
    imsic_write(&mut im, SIREG, 1);
    assert_eq!(imsic_read(&im, SIREG), 1);
}

#[test]
fn claim_register_packs_identifier_and_priority() {
    let mut im = Imsic::new();
    delivery_on(&mut im);
    imsic_enable(&mut im, PrivMode::Machine, 3);
    imsic_trigger(&mut im, PrivMode::Machine, 3);
    // Identifier in the high half, its priority (the identifier) low.
    assert_eq!(imsic_read(&im, MTOPEI), (3 << 16) | 3);
    // A plain read does not clear.
    assert_eq!(imsic_read(&im, MTOPEI), (3 << 16) | 3);
    assert_eq!(imsic_read(&im, STOPEI), 0);
    assert_eq!(imsic_pop(&mut im, PrivMode::Machine), 3);
    assert_eq!(imsic_read(&im, MTOPEI), 0);
}

#[test]
fn handle_dispatches_by_message_number() {
    let mut im = Imsic::new();
    delivery_on(&mut im);
    for id in [2usize, 4, 10, 99] {
        imsic_enable(&mut im, PrivMode::Supervisor, id);
        imsic_trigger(&mut im, PrivMode::Supervisor, id);
    }
    assert_eq!(imsic_handle(&mut im, PrivMode::Supervisor), MsgAction::SelfTestMmio);
    assert_eq!(imsic_handle(&mut im, PrivMode::Supervisor), MsgAction::SelfTestEip);
    assert_eq!(imsic_handle(&mut im, PrivMode::Supervisor), MsgAction::ConsoleInput);
    assert_eq!(imsic_handle(&mut im, PrivMode::Supervisor), MsgAction::Unknown(99));
    assert_eq!(imsic_handle(&mut im, PrivMode::Supervisor), MsgAction::Spurious);
}

#[test]
fn init_sets_gates_thresholds_and_self_tests() {
    let mut im = Imsic::new();
    aia_core::imsic::imsic_init(&mut im);
    assert_eq!(im.m.delivery, 1);
    assert_eq!(im.s.delivery, 1);
    assert_eq!(im.m.threshold, 5);
    assert_eq!(im.s.threshold, 11);
    // Both self-tests are pending below the machine threshold.
    assert_eq!(imsic_pop(&mut im, PrivMode::Machine), 2);
    assert_eq!(imsic_pop(&mut im, PrivMode::Machine), 4);
    assert_eq!(imsic_pop(&mut im, PrivMode::Machine), 0);
    // The supervisor file has message 10 enabled but nothing pending yet.
    assert_eq!(imsic_pop(&mut im, PrivMode::Supervisor), 0);
}

#[test]
fn file_pages_are_a_page_per_hart() {
    assert_eq!(imsic_m(0), 0x2400_0000);
    assert_eq!(imsic_m(3), 0x2400_3000);
    assert_eq!(imsic_s(0), 0x2800_0000);
    assert_eq!(imsic_s(2), 0x2800_2000);
}
