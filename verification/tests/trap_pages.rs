//! The trap dispatcher's classification and routing, and the page
//! allocator with its alignment helpers.

use aia_core::imsic::{imsic_init, Imsic, MsgAction, PrivMode};
use aia_core::page::{align_down, align_up, PageAllocator, PAGE_SIZE};
use aia_core::trap::{classify_trap, handle_trap, TrapDecision, TrapOutcome};

#[test]
fn classification_splits_on_the_top_bit() {
    assert_eq!(
        classify_trap(0x8000_0009),
        TrapDecision::ClaimExternal(PrivMode::Supervisor)
    );
    assert_eq!(
        classify_trap(0x8000_000B),
        TrapDecision::ClaimExternal(PrivMode::Machine)
    );
    assert_eq!(classify_trap(0x8000_0001), TrapDecision::UnknownInterrupt);
    assert_eq!(classify_trap(0x0000_0002), TrapDecision::FatalException);
    assert_eq!(classify_trap(0x0000_000B), TrapDecision::FatalException);
}

#[test]
fn external_interrupts_claim_their_file() {
    let mut im = Imsic::new();
    imsic_init(&mut im);
    // Machine external: the two self-tests come out lowest first.
    assert_eq!(
        handle_trap(&mut im, 0x8000_000B),
        TrapOutcome::Dispatched(MsgAction::SelfTestMmio)
    );
    assert_eq!(
        handle_trap(&mut im, 0x8000_000B),
        TrapOutcome::Dispatched(MsgAction::SelfTestEip)
    );
    assert_eq!(
        handle_trap(&mut im, 0x8000_000B),
        TrapOutcome::Dispatched(MsgAction::Spurious)
    );
    // Supervisor external with nothing pending is spurious.
    assert_eq!(
        handle_trap(&mut im, 0x8000_0009),
        TrapOutcome::Dispatched(MsgAction::Spurious)
    );
    // Other causes leave the files alone.
    assert_eq!(handle_trap(&mut im, 0x8000_0005), TrapOutcome::Ignored);
    assert_eq!(handle_trap(&mut im, 0x0000_0002), TrapOutcome::Fatal);
}

#[test]
fn alignment_rounds_to_page_boundaries() {
    assert_eq!(align_down(0x1234), 0x1000);
    assert_eq!(align_down(0x1000), 0x1000);
    assert_eq!(align_down(0xFFF), 0);
    assert_eq!(align_up(0x1001), 0x2000);
    assert_eq!(align_up(0x1000), 0x1000);
    assert_eq!(align_up(1), 0x1000);
    assert_eq!(align_up(0), 0);
}

#[test]
fn allocator_bumps_and_refuses_past_the_end() {
    let mut pa = PageAllocator::page_init(0x8000_0000, 0x8000_0000 + 4 * PAGE_SIZE);
    assert_eq!(pa.pages_remaining(), 4);
    assert_eq!(pa.alloc_page(2), Some(0x8000_0000));
    assert_eq!(pa.pages_remaining(), 2);
    assert_eq!(pa.alloc_page(3), None);
    assert_eq!(pa.pages_remaining(), 2);
    assert_eq!(pa.alloc_page(2), Some(0x8000_2000));
    assert_eq!(pa.pages_remaining(), 0);
    assert_eq!(pa.alloc_page(1), None);
}

#[test]
fn uninitialized_extent_has_no_pages() {
    let pa = PageAllocator::page_init(0, 0);
    assert_eq!(pa.pages_remaining(), 0);
}
