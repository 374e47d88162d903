//! PCI enumerator logic: the legacy configuration-space address protocol,
//! decoding of a function's configuration registers into a `DeviceConfig`,
//! the device registry with its lookup, and the IDE legacy-mode fixup
//! decisions.
//!
//! The two fixed I/O ports themselves are hardware; the scan loop reads
//! 32-bit register words through them and feeds the words in here.

use vstd::prelude::*;

verus! {

/// One discovered PCI function's identity: its address on the bus and the
/// cached configuration-space registers, built once at scan time.
#[derive(Debug, Clone, Copy)]
pub struct DeviceConfig {
    pub bus: u8,
    pub device: u8,
    pub function: u8,
    pub vendor_id: u16,
    pub device_id: u16,
    pub status: u16,
    pub command: u16,
    pub rev: u8,
    pub prog: u8,
    pub class: u8,
    pub subclass: u8,
    pub base_addresses: [u32; 6],
    pub interrupt_pin: u8,
    pub interrupt_line: u8,
}

impl DeviceConfig {
    /// Decodes a function's identity from the configuration words read at
    /// offsets 0x00 (vendor/device id), 0x04 (command/status), 0x08
    /// (revision, programming interface, subclass, class), 0x3C (interrupt
    /// line/pin), and the six base-address registers at 0x10..0x28.
    pub fn new(
        bus: u8,
        device: u8,
        function: u8,
        reg_id: u32,
        reg_command: u32,
        reg_class: u32,
        reg_interrupt: u32,
        base_addresses: [u32; 6],
    ) -> (r: Self)
        ensures
            r.bus == bus,
            r.device == device,
            r.function == function,
            r.vendor_id == (reg_id & 0xFFFF) as u16,
            r.device_id == ((reg_id >> 16) & 0xFFFF) as u16,
            r.command == (reg_command & 0xFFFF) as u16,
            r.status == ((reg_command >> 16) & 0xFFFF) as u16,
            r.rev == (reg_class & 0xFF) as u8,
            r.prog == ((reg_class >> 8) & 0xFF) as u8,
            r.subclass == ((reg_class >> 16) & 0xFF) as u8,
            r.class == ((reg_class >> 24) & 0xFF) as u8,
            r.interrupt_line == (reg_interrupt & 0xFF) as u8,
            r.interrupt_pin == ((reg_interrupt >> 8) & 0xFF) as u8,
            r.base_addresses@ == base_addresses@,
    {
        DeviceConfig {
            bus,
            device,
            function,
            vendor_id: (reg_id & 0xFFFF) as u16,
            device_id: ((reg_id >> 16) & 0xFFFF) as u16,
            command: (reg_command & 0xFFFF) as u16,
            status: ((reg_command >> 16) & 0xFFFF) as u16,
            rev: (reg_class & 0xFF) as u8,
            prog: ((reg_class >> 8) & 0xFF) as u8,
            subclass: ((reg_class >> 16) & 0xFF) as u8,
            class: ((reg_class >> 24) & 0xFF) as u8,
            base_addresses,
            interrupt_line: (reg_interrupt & 0xFF) as u8,
            interrupt_pin: ((reg_interrupt >> 8) & 0xFF) as u8,
        }
    }

    /// The command-register value to write back for enabling bus mastering:
    /// the current hardware value with bit 2 set. The cached `command`
    /// field is deliberately not refreshed, exactly as the original
    /// read-modify-write leaves it stale.
    pub fn enable_bus_mastering(&mut self, current_command: u32) -> (w: u32)
        ensures
            w == current_command | 0x4u32,
            *final(self) == *old(self),
    {
        current_command | 0x4u32
    }

    /// The memory/IO size class encoded in bits 1..3 of the first
    /// base-address register.
    pub fn bar_type(&self) -> (r: u16)
        ensures
            r == ((self.base_addresses@[0] >> 1) & 0x3) as u16,
    {
        let bar0 = self.base_addresses[0];
        ((bar0 >> 1) & 0x3) as u16
    }

    /// The memory base encoded in the first base-address register(s),
    /// decoded by size class: 32-bit, 16-bit, or 64-bit split across the
    /// first two registers. Class 3 is unknown and excluded.
    pub fn mem_base(&self) -> (r: u64)
        requires
            ((self.base_addresses@[0] >> 1) & 0x3) != 3,
        ensures
            ((self.base_addresses@[0] >> 1) & 0x3) == 0 ==> r == (self.base_addresses@[0]
                & 0xFFFF_FFF0) as u64,
            ((self.base_addresses@[0] >> 1) & 0x3) == 1 ==> r == (self.base_addresses@[0]
                & 0x0000_FFF0) as u64,
            ((self.base_addresses@[0] >> 1) & 0x3) == 2 ==> r == ((self.base_addresses@[0]
                & 0xFFFF_FFF0) as u64) + (((self.base_addresses@[1] & 0xFFFF_FFF0) as u64) << 32),
    {
        let bar0 = self.base_addresses[0];
        let kind = (bar0 >> 1) & 0x3;
        if kind == 0 {
            // 32 bits
            (bar0 & 0xFFFF_FFF0) as u64
        } else if kind == 1 {
            // 16 bits
            (bar0 & 0x0000_FFF0) as u64
        } else {
            // 64 bits, split across the first two registers
            let bar1 = self.base_addresses[1];
            let l = (bar0 & 0xFFFF_FFF0) as u64;
            let h = (bar1 & 0xFFFF_FFF0) as u64;
            proof {
                assert(l <= 0xFFFF_FFF0u64 && h <= 0xFFFF_FFF0u64) by (bit_vector)
                    requires
                        l == (bar0 & 0xFFFF_FFF0u32) as u64,
                        h == (bar1 & 0xFFFF_FFF0u32) as u64,
                ;
                assert((h << 32) <= 0xFFFF_FFF0_0000_0000u64) by (bit_vector)
                    requires
                        h <= 0xFFFF_FFF0u64,
                ;
            }
            l + (h << 32)
        }
    }

    /// The I/O port base encoded in the first base-address register.
    pub fn io_base(&self) -> (r: u16)
        ensures
            r == (self.base_addresses@[0] as u16) & 0xFFF0,
    {
        (self.base_addresses[0] as u16) & 0xFFF0
    }
}

/// The legacy configuration-space address: enable bit, then bus, device,
/// function and the dword-aligned register offset, packed for the fixed
/// address port.
pub fn config_address(bus: u8, device: u8, function: u8, offset: u8) -> (r: u32)
    ensures
        r == 0x8000_0000u32 | ((bus as u32) << 16) | ((device as u32) << 11) | ((
        function as u32) << 8) | ((offset as u32) & 0xFC),
{
    0x8000_0000u32 | ((bus as u32) << 16) | ((device as u32) << 11) | ((function as u32) << 8) | (
    (offset as u32) & 0xFC)
}

/// The vendor id in the low half of the register at offset 0x00.
pub fn vendor_id_of(reg_id: u32) -> (r: u16)
    ensures
        r == (reg_id & 0xFFFF) as u16,
{
    (reg_id & 0xFFFF) as u16
}

/// The header type in bits 16..24 of the register at offset 0x0C.
pub fn header_type_of(reg_header: u32) -> (r: u8)
    ensures
        r == ((reg_header >> 16) & 0xFF) as u8,
{
    ((reg_header >> 16) & 0xFF) as u8
}

/// A function exists at a probed address exactly when its vendor id is not
/// the all-ones absent marker.
pub fn device_present(vendor_id: u16) -> (r: bool)
    ensures
        r == (vendor_id != 0xFFFF),
{
    vendor_id != 0xFFFF
}

/// Whether the multi-function bit of a header type is set, so that
/// functions 1 to 7 must be probed as well.
pub fn is_multi_function(header_type: u8) -> (r: bool)
    ensures
        r == ((header_type & 0x80) != 0),
{
    header_type & 0x80 != 0
}

/// The registry of devices discovered by the scan, in discovery order.
pub struct PciRegistry {
    pub devices: Vec<DeviceConfig>,
}

/// Whether a registry entry matches the looked-up vendor/device pair.
pub open spec fn id_match(d: DeviceConfig, vendor_id: u16, device_id: u16) -> bool {
    d.vendor_id == vendor_id && d.device_id == device_id
}

impl PciRegistry {
    /// An empty registry, as it stands before the scan.
    pub fn new() -> (r: Self)
        ensures
            r.devices@.len() == 0,
    {
        PciRegistry { devices: Vec::new() }
    }
}

/// Records one discovered function, in scan order.
pub fn add_device(registry: &mut PciRegistry, config: DeviceConfig)
    ensures
        final(registry).devices@ == old(registry).devices@.push(config),
{
    registry.devices.push(config);
}

/// Finds the display (or any other) device by vendor and device id: a
/// linear scan returning the first-inserted match, or nothing when no
/// entry matches — in particular against an empty registry.
pub fn find_device(registry: &PciRegistry, vendor_id: u16, device_id: u16) -> (r: Option<
    DeviceConfig,
>)
    ensures
        match r {
            Some(d) => exists|i: int|
                {
                    &&& 0 <= i < registry.devices@.len()
                    &&& #[trigger] id_match(registry.devices@[i], vendor_id, device_id)
                    &&& d == registry.devices@[i]
                    &&& forall|j: int|
                        0 <= j < i ==> !id_match(
                            #[trigger] registry.devices@[j],
                            vendor_id,
                            device_id,
                        )
                },
            None => forall|i: int|
                0 <= i < registry.devices@.len() ==> !id_match(
                    #[trigger] registry.devices@[i],
                    vendor_id,
                    device_id,
                ),
        },
{
    let n = registry.devices.len();
    let mut i: usize = 0;
    while i < n
        invariant
            n == registry.devices@.len(),
            i <= n,
            forall|j: int|
                0 <= j < i ==> !id_match(#[trigger] registry.devices@[j], vendor_id, device_id),
        decreases n - i,
    {
        let d = registry.devices[i];
        if d.vendor_id == vendor_id && d.device_id == device_id {
            proof {
                assert(id_match(registry.devices@[i as int], vendor_id, device_id));
            }
            return Some(d);
        }
        i = i + 1;
    }
    None
}

/// A copy of the registry's contents, in discovery order.
pub fn list(registry: &PciRegistry) -> (r: Vec<DeviceConfig>)
    ensures
        r@ == registry.devices@,
{
    let n = registry.devices.len();
    let mut out: Vec<DeviceConfig> = Vec::new();
    let mut i: usize = 0;
    while i < n
        invariant
            n == registry.devices@.len(),
            i <= n,
            out@ == registry.devices@.subrange(0, i as int),
        decreases n - i,
    {
        out.push(registry.devices[i]);
        proof {
            assert(out@ =~= registry.devices@.subrange(0, i + 1));
        }
        i = i + 1;
    }
    proof {
        assert(out@ =~= registry.devices@);
    }
    out
}

/// Whether a discovered function is an IDE controller, the class the
/// post-scan legacy-mode fixup applies to.
pub fn is_ide_controller(class: u8, subclass: u8) -> (r: bool)
    ensures
        r == (class == 0x01 && subclass == 0x01),
{
    class == 0x01 && subclass == 0x01
}

/// The command words the post-scan fixup writes to an IDE controller's
/// register at offset 0x08, in order, to switch its channels into legacy
/// compatibility mode. A channel is switched only when its programming
/// interface says it is in native PCI mode (bit 0, resp. 2) and the mode is
/// modifiable (bit 1, resp. 3); the second write carries the first write's
/// change, exactly as the cumulative read-modify-write does.
pub fn ide_legacy_fixup(prog: u8, data: u32) -> (writes: Vec<u32>)
    ensures
        ({
            let primary = (prog & 0x1) != 0 && (prog & 0x2) != 0;
            let secondary = (prog & 0x4) != 0 && (prog & 0x8) != 0;
            let after_primary = data & 0xFFFF_FEFF;
            if primary && secondary {
                writes@ =~= seq![after_primary, after_primary & 0xFFFF_FBFF]
            } else if primary {
                writes@ =~= seq![after_primary]
            } else if secondary {
                writes@ =~= seq![data & 0xFFFF_FBFF]
            } else {
                writes@ =~= Seq::<u32>::empty()
            }
        }),
{
    let mut writes: Vec<u32> = Vec::new();
    let mut current: u32 = data;

    // Switching the primary channel to compatibility mode: clear bit 8 of
    // the programming interface.
    if prog & 0x1 != 0 {
        // PCI native mode
        if prog & 0x2 != 0 {
            // Modifiable
            current = current & 0xFFFF_FEFF;
            writes.push(current);
        }
    }

    // Switching the secondary channel to compatibility mode: clear bit 10.
    if prog & 0x4 != 0 {
        // PCI native mode
        if prog & 0x8 != 0 {
            // Modifiable
            current = current & 0xFFFF_FBFF;
            writes.push(current);
        }
    }

    writes
}

} // verus!
