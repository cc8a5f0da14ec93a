//! Trap dispatcher: one decision per taken trap.  The top bit of the cause
//! register separates interrupts from exceptions; the low byte of an
//! interrupt cause selects the external-interrupt path of one privilege
//! level, whose message file is then claimed.  Every exception is fatal.

use crate::imsic::{action_for, imsic_pop, Imsic, MsgAction, PrivMode};
use vstd::prelude::*;

verus! {

/// Cause code of a supervisor-level external interrupt.
pub const CAUSE_EXT_SUPERVISOR: u32 = 9;

/// Cause code of a machine-level external interrupt.
pub const CAUSE_EXT_MACHINE: u32 = 11;

/// Where a taken trap is routed.
#[derive(Clone, Copy, Debug, PartialEq, Eq, Structural)]
pub enum TrapDecision {
    /// External interrupt: claim the message file of this privilege level.
    ClaimExternal(PrivMode),
    /// Some other interrupt cause: log it and resume.
    UnknownInterrupt,
    /// An exception: log cause, faulting address and trap value, then halt.
    FatalException,
}

/// The classification rule: interrupts have the top cause bit set and
/// dispatch on the low byte; everything else is a fatal exception.
pub open spec fn classify_spec(mcause: u32) -> TrapDecision {
    if mcause >> 31 & 1 == 1 {
        if mcause & 0xFF == CAUSE_EXT_SUPERVISOR {
            TrapDecision::ClaimExternal(PrivMode::Supervisor)
        } else if mcause & 0xFF == CAUSE_EXT_MACHINE {
            TrapDecision::ClaimExternal(PrivMode::Machine)
        } else {
            TrapDecision::UnknownInterrupt
        }
    } else {
        TrapDecision::FatalException
    }
}

/// Classify a raw cause value.
pub fn classify_trap(mcause: u32) -> (d: TrapDecision)
    ensures
        d == classify_spec(mcause),
{
    let interrupt = mcause >> 31 & 1 == 1;
    if interrupt {
        let code = mcause & 0xFF;
        if code == CAUSE_EXT_SUPERVISOR {
            TrapDecision::ClaimExternal(PrivMode::Supervisor)
        } else if code == CAUSE_EXT_MACHINE {
            TrapDecision::ClaimExternal(PrivMode::Machine)
        } else {
            TrapDecision::UnknownInterrupt
        }
    } else {
        TrapDecision::FatalException
    }
}

/// What the caller of the dispatcher must do next.
#[derive(Clone, Copy, Debug, PartialEq, Eq, Structural)]
pub enum TrapOutcome {
    /// An external interrupt was claimed; act on the message.
    Dispatched(MsgAction),
    /// Unknown interrupt: log the cause and resume.
    Ignored,
    /// Exception: log and halt the hart.
    Fatal,
}

/// Route one taken trap: claim the message file on an external-interrupt
/// cause and hand back the per-identifier action, leave the state alone on
/// anything else.
pub fn handle_trap(imsic: &mut Imsic, mcause: u32) -> (out: TrapOutcome)
    requires
        old(imsic).wf(),
    ensures
        final(imsic).wf(),
        classify_spec(mcause) == TrapDecision::ClaimExternal(PrivMode::Machine) ==> out
            == TrapOutcome::Dispatched(action_for(old(imsic).m@.claim_id())) && final(imsic).m@
            == old(imsic).m@.after_claim() && final(imsic).s@ == old(imsic).s@,
        classify_spec(mcause) == TrapDecision::ClaimExternal(PrivMode::Supervisor) ==> out
            == TrapOutcome::Dispatched(action_for(old(imsic).s@.claim_id())) && final(imsic).s@
            == old(imsic).s@.after_claim() && final(imsic).m@ == old(imsic).m@,
        classify_spec(mcause) == TrapDecision::UnknownInterrupt ==> out == TrapOutcome::Ignored
            && *final(imsic) == *old(imsic),
        classify_spec(mcause) == TrapDecision::FatalException ==> out == TrapOutcome::Fatal
            && *final(imsic) == *old(imsic),
{
    match classify_trap(mcause) {
        TrapDecision::ClaimExternal(pm) => {
            let msgnum = imsic_pop(imsic, pm);
            if msgnum == 0 {
                TrapOutcome::Dispatched(MsgAction::Spurious)
            } else if msgnum == 2 {
                TrapOutcome::Dispatched(MsgAction::SelfTestMmio)
            } else if msgnum == 4 {
                TrapOutcome::Dispatched(MsgAction::SelfTestEip)
            } else if msgnum == 10 {
                TrapOutcome::Dispatched(MsgAction::ConsoleInput)
            } else {
                TrapOutcome::Dispatched(MsgAction::Unknown(msgnum))
            }
        },
        TrapDecision::UnknownInterrupt => TrapOutcome::Ignored,
        TrapDecision::FatalException => TrapOutcome::Fatal,
    }
}

} // verus!
