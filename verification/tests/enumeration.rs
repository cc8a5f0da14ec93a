//! Bus enumeration over a simulated configuration space: size probing,
//! window assignment, bridge windows, the capability walk, and the
//! device registry.

use aia_core::imsic::IMSIC_M;
use aia_core::pci::{
    ecam_addr, pci_add_device, pci_init, pci_setup, pci_setup_type0, Bar, CapEntry, ConfigSpace,
    Ecam, HeaderBody, MsixTable, Pci, PciDevice, Type0, Type1,
};

fn empty_type0() -> Type0 {
    Type0 {
        bars: vec![Bar { mask: 0, low: 0, val: 0 }; 6],
        capes_pointer: 0,
        caps: Vec::new(),
        msix_table_addr: 0,
        msix_pba_addr: 0,
        msix_entry: MsixTable { addr: 0, data: 0, control: 0 },
    }
}

fn absent() -> Ecam {
    Ecam {
        vendor_id: 0xFFFF,
        device_id: 0,
        command_reg: 0,
        status_reg: 0,
        header_type: 0,
        body: HeaderBody::Endpoint(empty_type0()),
    }
}

/// An endpoint with a 4 KiB 32-bit window, another one behind it, and a
/// 16 KiB 64-bit window in slots 2 and 3.
fn endpoint() -> Ecam {
    let mut t = empty_type0();
    t.bars[0] = Bar { mask: 0xFFFF_F000, low: 0, val: 0x1000 };
    t.bars[1] = Bar { mask: 0xFFFF_F000, low: 0, val: 0x2000 };
    t.bars[2] = Bar { mask: 0xFFFF_C000, low: 0x4, val: 0 };
    t.bars[3] = Bar { mask: 0xFFFF_FFFF, low: 0, val: 0 };
    Ecam {
        vendor_id: 0x1B36,
        device_id: 0x0010,
        command_reg: 0,
        status_reg: 0,
        header_type: 0,
        body: HeaderBody::Endpoint(t),
    }
}

fn bridge() -> Ecam {
    Ecam {
        vendor_id: 0x1B36,
        device_id: 0x0001,
        command_reg: 0,
        status_reg: 0,
        header_type: 1,
        body: HeaderBody::Bridge(Type1 {
            primary_bus_no: 0,
            secondary_bus_no: 0,
            subordinate_bus_no: 0,
            memory_base: 0,
            memory_limit: 0,
            prefetch_memory_base: 0,
            prefetch_memory_limit: 0,
        }),
    }
}

fn space_with(at: &[(usize, usize, Ecam)]) -> ConfigSpace {
    let mut funcs: Vec<Ecam> = Vec::new();
    for _ in 0..160 {
        funcs.push(absent());
    }
    let mut cfg = ConfigSpace { funcs };
    for (bus, slot, e) in at {
        cfg.funcs[bus * 32 + slot] = Ecam {
            vendor_id: e.vendor_id,
            device_id: e.device_id,
            command_reg: e.command_reg,
            status_reg: e.status_reg,
            header_type: e.header_type,
            body: match &e.body {
                HeaderBody::Endpoint(t) => HeaderBody::Endpoint(Type0 {
                    bars: t.bars.clone(),
                    capes_pointer: t.capes_pointer,
                    caps: t.caps.clone(),
                    msix_table_addr: t.msix_table_addr,
                    msix_pba_addr: t.msix_pba_addr,
                    msix_entry: t.msix_entry,
                }),
                HeaderBody::Bridge(t) => HeaderBody::Bridge(*t),
            },
        };
    }
    cfg
}

#[test]
fn probe_sizes_and_consumes_slots() {
    let mut e = endpoint();
    let dev = pci_setup_type0(&mut e, 0, 1);
    // Base of the (0, 1) window region.
    match &e.body {
        HeaderBody::Endpoint(t) => {
            // 4 KiB window assigned at the base: one slot consumed.
            assert_eq!(t.bars[0].val, 0x4001_0000);
            // The second window follows one probe size later, so the
            // first probe consumed exactly one slot.
            assert_eq!(t.bars[1].val, 0x4001_1000);
            // The 64-bit window consumes slots 2 and 3 and advances the
            // cursor by the 16 KiB its combined mask yields.
            assert_eq!(t.bars[2].val, 0x4001_2000);
            assert_eq!(t.bars[3].val, 0);
            assert_eq!(t.bars[4].val, 0);
        },
        HeaderBody::Bridge(_) => panic!("endpoint expected"),
    }
    assert_eq!(e.command_reg, 6);
    assert_eq!(dev, Some(PciDevice::Nvme(0x4001_0000)));
}

#[test]
fn enumeration_is_deterministic() {
    let layout = [(0usize, 1usize, endpoint()), (1, 2, bridge())];
    let mut cfg1 = space_with(&layout);
    let mut cfg2 = space_with(&layout);
    let mut pci1 = Pci::new();
    let mut pci2 = Pci::new();
    pci_init(&mut pci1, &mut cfg1);
    pci_init(&mut pci2, &mut cfg2);
    for k in 0..160 {
        match (&cfg1.funcs[k].body, &cfg2.funcs[k].body) {
            (HeaderBody::Endpoint(a), HeaderBody::Endpoint(b)) => assert_eq!(a.bars, b.bars),
            (HeaderBody::Bridge(a), HeaderBody::Bridge(b)) => assert_eq!(a, b),
            _ => panic!("shapes diverged"),
        }
        assert_eq!(cfg1.funcs[k].command_reg, cfg2.funcs[k].command_reg);
    }
    assert_eq!(pci1.devices, pci2.devices);
    assert_eq!(pci1.devices, vec![PciDevice::Nvme(0x4001_0000)]);
}

#[test]
fn bridge_gets_fixed_window_by_slot() {
    let mut cfg = space_with(&[(1, 2, bridge())]);
    let dev = pci_setup(&mut cfg, 1, 2);
    assert_eq!(dev, None);
    let e = &cfg.funcs[1 * 32 + 2];
    assert_eq!(e.command_reg, 2);
    match &e.body {
        HeaderBody::Bridge(t) => {
            assert_eq!(t.primary_bus_no, 1);
            assert_eq!(t.secondary_bus_no, 2);
            assert_eq!(t.subordinate_bus_no, 2);
            assert_eq!(t.memory_base, 0x4020);
            assert_eq!(t.memory_limit, 0x402F);
            assert_eq!(t.prefetch_memory_base, 0x4020);
            assert_eq!(t.prefetch_memory_limit, 0x402F);
        },
        HeaderBody::Endpoint(_) => panic!("bridge expected"),
    }
}

#[test]
fn msix_capability_is_programmed() {
    let mut e = endpoint();
    e.status_reg = 1 << 4;
    match &mut e.body {
        HeaderBody::Endpoint(t) => {
            t.capes_pointer = 0x40;
            t.caps.push(CapEntry {
                offset: 0x40,
                cap_id: 0x09,
                next: 0x60,
                msgcontrol: 0,
                table: 0,
                pba: 0,
            });
            t.caps.push(CapEntry {
                offset: 0x60,
                cap_id: 0x11,
                next: 0,
                msgcontrol: 0x0007,
                table: 0x2000,
                pba: 0x3001,
            });
        },
        HeaderBody::Bridge(_) => panic!("endpoint expected"),
    }
    pci_setup_type0(&mut e, 0, 1);
    match &e.body {
        HeaderBody::Endpoint(t) => {
            // A foreign capability is passed over untouched.
            assert_eq!(t.caps[0].msgcontrol, 0);
            // The MSI-X record gets its enable bit; the size bits stay.
            assert_eq!(t.caps[1].msgcontrol, 0x8007);
            // Table in window 0, pending array in window 1, offsets kept.
            assert_eq!(t.msix_table_addr, 0x4001_0000 + 0x2000);
            assert_eq!(t.msix_pba_addr, 0x4001_1000 + 0x3000);
            // Entry 0 aims at the machine-level file, unmasked.
            assert_eq!(t.msix_entry.addr, IMSIC_M as u64);
            assert_eq!(t.msix_entry.data, 31);
            assert_eq!(t.msix_entry.control, 0);
        },
        HeaderBody::Bridge(_) => panic!("endpoint expected"),
    }
}

#[test]
fn registry_rejects_past_capacity() {
    let mut pci = Pci::new();
    assert!(pci_add_device(&mut pci, PciDevice::Nvme(1)));
    assert!(pci_add_device(&mut pci, PciDevice::Nvme(2)));
    assert!(pci_add_device(&mut pci, PciDevice::Nvme(3)));
    assert!(pci_add_device(&mut pci, PciDevice::Nvme(4)));
    assert!(!pci_add_device(&mut pci, PciDevice::Nvme(5)));
    assert_eq!(
        pci.devices,
        vec![
            PciDevice::Nvme(1),
            PciDevice::Nvme(2),
            PciDevice::Nvme(3),
            PciDevice::Nvme(4),
        ]
    );
}

#[test]
fn second_enumeration_is_refused() {
    let mut cfg = space_with(&[(0, 1, endpoint())]);
    let mut pci = Pci::new();
    pci_init(&mut pci, &mut cfg);
    assert!(pci.initialized);
    assert_eq!(pci.devices.len(), 1);
    // The one-shot flag short-circuits the second pass.
    pci_init(&mut pci, &mut cfg);
    assert_eq!(pci.devices.len(), 1);
}

#[test]
fn absent_functions_are_skipped() {
    let mut cfg = space_with(&[]);
    let mut pci = Pci::new();
    pci_init(&mut pci, &mut cfg);
    assert!(pci.devices.is_empty());
    for k in 0..160 {
        assert_eq!(cfg.funcs[k].command_reg, 0);
    }
}

#[test]
fn configuration_space_addresses() {
    assert_eq!(ecam_addr(0, 0), 0x3000_0000);
    assert_eq!(ecam_addr(0, 1), 0x3000_8000);
    assert_eq!(ecam_addr(2, 3), 0x3021_8000);
}
