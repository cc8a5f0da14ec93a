//! Interrupt-delivery and bus-enumeration core for a RISC-V supervisor
//! environment, verified over an explicit model of the hardware registers.
//!
//! The crate models each memory-mapped block (interrupt domain router,
//! per-hart message file, PCI configuration space) as a plain record of
//! register words.  Every configuration step, the priority claim operation,
//! and the boot-time bus walk are executable functions whose contracts state
//! exactly which registers change and what the claimed identifier is.

pub mod aplic;
pub mod bits;
pub mod console;
pub mod imsic;
pub mod page;
pub mod pci;
pub mod ringbuffer;
pub mod trap;
