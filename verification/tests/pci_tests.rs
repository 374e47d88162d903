use moros_core::pci::{
    add_device, config_address, device_present, find_device, header_type_of, ide_legacy_fixup,
    is_ide_controller, is_multi_function, list, vendor_id_of, DeviceConfig, PciRegistry,
};

fn device(bus: u8, vendor_id: u16, device_id: u16) -> DeviceConfig {
    let reg_id = ((device_id as u32) << 16) | vendor_id as u32;
    DeviceConfig::new(bus, 0, 0, reg_id, 0, 0, 0, [0; 6])
}

#[test]
fn config_address_packs_the_legacy_protocol_fields() {
    assert_eq!(config_address(0, 0, 0, 0), 0x8000_0000);
    assert_eq!(config_address(0, 3, 0, 0x10), 0x8000_0000 | (3 << 11) | 0x10);
    assert_eq!(
        config_address(0xAB, 0x1F, 0x7, 0x3D),
        0x8000_0000 | (0xAB << 16) | (0x1F << 11) | (0x7 << 8) | 0x3C
    );
}

#[test]
fn device_config_decodes_the_register_words() {
    let d = DeviceConfig::new(
        1,
        2,
        3,
        0x1050_1AF4, // device id 0x1050, vendor id 0x1AF4
        0x0010_0006, // status 0x0010, command 0x0006
        0x0200_0001, // class 0x02, subclass 0x00, prog 0x00, rev 0x01
        0x0000_0105, // pin 0x01, line 0x05
        [0xFEB0_0008, 0, 0, 0, 0, 0xAB],
    );
    assert_eq!(d.bus, 1);
    assert_eq!(d.device, 2);
    assert_eq!(d.function, 3);
    assert_eq!(d.vendor_id, 0x1AF4);
    assert_eq!(d.device_id, 0x1050);
    assert_eq!(d.command, 0x0006);
    assert_eq!(d.status, 0x0010);
    assert_eq!(d.rev, 0x01);
    assert_eq!(d.prog, 0x00);
    assert_eq!(d.subclass, 0x00);
    assert_eq!(d.class, 0x02);
    assert_eq!(d.interrupt_pin, 0x01);
    assert_eq!(d.interrupt_line, 0x05);
    assert_eq!(d.base_addresses, [0xFEB0_0008, 0, 0, 0, 0, 0xAB]);
}

#[test]
fn enable_bus_mastering_sets_bit_two_and_keeps_the_cache_stale() {
    let mut d = device(0, 0x1AF4, 0x1050);
    let before = d.command;
    let write_back = d.enable_bus_mastering(0x0006);
    assert_eq!(write_back, 0x0006 | 0x4);
    // The cached command field is deliberately not refreshed.
    assert_eq!(d.command, before);
}

#[test]
fn bar_decoding_by_size_class() {
    // Class 0: 32-bit memory base.
    let d = DeviceConfig::new(0, 0, 0, 0, 0, 0, 0, [0xFEB0_0008, 0, 0, 0, 0, 0]);
    assert_eq!(d.bar_type(), 0);
    assert_eq!(d.mem_base(), 0xFEB0_0000);
    // Class 1: 16-bit memory base.
    let d = DeviceConfig::new(0, 0, 0, 0, 0, 0, 0, [0x0001_2F72, 0, 0, 0, 0, 0]);
    assert_eq!(d.bar_type(), 1);
    assert_eq!(d.mem_base(), 0x2F70);
    // Class 2: 64-bit base split across the first two registers.
    let d = DeviceConfig::new(0, 0, 0, 0, 0, 0, 0, [0x8000_0004, 0x0000_00FF, 0, 0, 0, 0]);
    assert_eq!(d.bar_type(), 2);
    assert_eq!(d.mem_base(), 0x8000_0000u64 + (0xF0u64 << 32));
    // An I/O BAR: low bit set, port base in the upper bits.
    let d = DeviceConfig::new(0, 0, 0, 0, 0, 0, 0, [0x0000_C001, 0, 0, 0, 0, 0]);
    assert_eq!(d.io_base(), 0xC000);
}

#[test]
fn find_device_on_an_empty_registry_finds_nothing() {
    let registry = PciRegistry::new();
    assert!(find_device(&registry, 0x1AF4, 0x1050).is_none());
}

#[test]
fn find_device_returns_the_first_inserted_match() {
    let mut registry = PciRegistry::new();
    add_device(&mut registry, device(0, 0x8086, 0x100E));
    add_device(&mut registry, device(1, 0x1AF4, 0x1050));
    add_device(&mut registry, device(2, 0x1AF4, 0x1050));
    let found = find_device(&registry, 0x1AF4, 0x1050).unwrap();
    assert_eq!(found.bus, 1);
    // No match for ids the registry does not hold.
    assert!(find_device(&registry, 0x1AF4, 0x1000).is_none());
    // The listing preserves discovery order.
    let all = list(&registry);
    assert_eq!(all.len(), 3);
    assert_eq!(all[0].bus, 0);
    assert_eq!(all[1].bus, 1);
    assert_eq!(all[2].bus, 2);
}

#[test]
fn presence_and_header_decoding() {
    assert!(!device_present(0xFFFF));
    assert!(device_present(0x1AF4));
    assert_eq!(vendor_id_of(0x1050_1AF4), 0x1AF4);
    assert_eq!(header_type_of(0x00_80_00_00), 0x80);
    assert!(is_multi_function(0x80));
    assert!(!is_multi_function(0x00));
    assert!(is_ide_controller(0x01, 0x01));
    assert!(!is_ide_controller(0x01, 0x06));
}

#[test]
fn ide_fixup_writes_follow_the_programming_interface() {
    // Both channels native and modifiable: two cumulative writes.
    assert_eq!(
        ide_legacy_fixup(0x0F, 0x0000_0505),
        vec![0x0000_0405, 0x0000_0005]
    );
    // Only the primary channel.
    assert_eq!(ide_legacy_fixup(0x03, 0x0000_0505), vec![0x0000_0405]);
    // Only the secondary channel.
    assert_eq!(ide_legacy_fixup(0x0C, 0x0000_0505), vec![0x0000_0105]);
    // Native but not modifiable, or legacy already: nothing to write.
    assert_eq!(ide_legacy_fixup(0x01, 0x0000_0505), Vec::<u32>::new());
    assert_eq!(ide_legacy_fixup(0x00, 0x0000_0505), Vec::<u32>::new());
}
