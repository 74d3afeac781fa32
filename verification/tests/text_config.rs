use windows_gaming_driver::config::{PciId, UsbId, UsbPort, UsbBinding, UsbBus, VfioDevice, HotKeyAction, Action,
    default_usbdevice_permanent, default_usbdevice_bus, machineconfig_hotkeys_default, config_load_plan,
    ConfigLoadPlan, SoundConfig, MachineConfig};
use windows_gaming_driver::text::{push_hex4, push_decimal, parse_unsigned_exec, starts_with, contains, str_eq, trim,
    replace, push_str};
use windows_gaming_driver::util::{usable_ports, parse_hex, binding_filters, bus_and_addr, switched_devices};
use windows_gaming_driver::config::UsbDevice;

#[test]
fn hex_and_decimal_rendering() {
    let mut s = String::new();
    push_hex4(&mut s, 0x10de);
    push_str(&mut s, "/");
    push_hex4(&mut s, 0xa);
    push_str(&mut s, "/");
    push_decimal(&mut s, 0);
    push_str(&mut s, "/");
    push_decimal(&mut s, 4096);
    assert_eq!(s, "10de/000a/0/4096");
}

#[test]
fn id_and_port_display() {
    assert_eq!(PciId { vendor: 0x10de, device: 0x1b80 }.display(), "10de:1b80");
    assert_eq!(UsbId { vendor: 0x046d, product: 0xc52b }.display(), "046d:c52b");
    assert_eq!(UsbPort { bus: 3, port: "1.2".to_string() }.display(), "3.1.2");
    assert_eq!(VfioDevice::Permanent("0000:01:00.0".to_string()).display(), "Permanent");
    assert_eq!(VfioDevice::Temporarily("0000:01:00.1".to_string()).display(), "Temporarily");
}

#[test]
fn parse_unsigned_like_from_str_radix() {
    assert_eq!(parse_unsigned_exec("ff", 16, 0xffff), Some(255));
    assert_eq!(parse_unsigned_exec("+12", 10, 255), Some(12));
    assert_eq!(parse_unsigned_exec("256", 10, 255), None);
    assert_eq!(parse_unsigned_exec("", 10, 255), None);
    assert_eq!(parse_unsigned_exec("+", 10, 255), None);
    assert_eq!(parse_unsigned_exec("1g", 16, 0xffff), None);
}

#[test]
fn parse_hex_with_and_without_prefix() {
    assert_eq!(parse_hex("0x10de"), Some(0x10de));
    assert_eq!(parse_hex("10DE"), Some(0x10de));
    assert_eq!(parse_hex("0x10000"), None);
    assert_eq!(parse_hex("0xzz"), None);
}

#[test]
fn string_predicates() {
    assert!(starts_with("MODULES=\"a\"", "MODULES=\""));
    assert!(!starts_with("HOOKS", "HOOKS=\""));
    assert!(contains("base udev modconf block", "modconf"));
    assert!(!contains("mod", "modconf"));
    assert!(str_eq("vfio-pci", "vfio-pci"));
    assert!(!str_eq("vfio-pci", "vfio"));
}

#[test]
fn trim_like_str_trim() {
    assert_eq!(trim("  Logitech, Inc.\t"), "Logitech, Inc.");
    assert_eq!(trim("\u{3000}x\u{a0}"), "x");
    assert_eq!(trim("   "), "");
}

#[test]
fn replace_like_str_replace() {
    assert_eq!(replace("a\n## b\n#c", "\n##", ""), "a b\n#c");
    assert_eq!(replace("aaa", "aa", "b"), "ba");
    assert_eq!(replace("x\ny", "\n", "\n  ///"), "x\n  ///y");
}

#[test]
fn controller_port_counts() {
    assert_eq!(usable_ports(UsbBus::Ohci), 15);
    assert_eq!(usable_ports(UsbBus::Uhci), 2);
    assert_eq!(usable_ports(UsbBus::Ehci), 6);
    assert_eq!(usable_ports(UsbBus::Xhci), 15);
    assert_eq!(UsbBus::Ehci.name(), "ehci");
}

#[test]
fn configuration_defaults() {
    assert!(!default_usbdevice_permanent());
    assert_eq!(default_usbdevice_bus(), UsbBus::Xhci);
    let hk = machineconfig_hotkeys_default();
    assert_eq!(hk.len(), 1);
    assert_eq!(hk[0].key, "Ctrl+Alt+NoRepeat+Insert");
    assert!(matches!(hk[0].action, HotKeyAction::Action(Action::IoExit)));
    let s = SoundConfig::default();
    assert_eq!(s.timer_period, 100);
    assert_eq!(s.output.voices, 1);
    let m = MachineConfig::default();
    assert_eq!(m.cores, 0);
}

#[test]
fn load_plan() {
    assert_eq!(config_load_plan(true, true), ConfigLoadPlan::ReadYaml);
    assert_eq!(config_load_plan(false, true), ConfigLoadPlan::UpgradeToml);
    assert_eq!(config_load_plan(false, false), ConfigLoadPlan::Missing);
}

#[test]
fn usb_binding_equality_helpers() {
    let b = UsbBinding::ById(UsbId { vendor: 1, product: 2 });
    assert!(b.is_id(&UsbId { vendor: 1, product: 2 }));
    assert!(!b.is_port(&UsbPort { bus: 1, port: "2".to_string() }));
    let p = UsbBinding::ByPort(UsbPort { bus: 1, port: "2".to_string() });
    assert!(p.is_port(&UsbPort { bus: 1, port: "2".to_string() }));
}

#[test]
fn udev_filters_for_bindings() {
    let f = binding_filters(&UsbBinding::ById(UsbId { vendor: 0x46d, product: 0xc52b }));
    assert_eq!(f, vec![("idVendor".to_string(), "046d".to_string()), ("idProduct".to_string(), "c52b".to_string())]);
    let f = binding_filters(&UsbBinding::ByPort(UsbPort { bus: 2, port: "1.4".to_string() }));
    assert_eq!(f, vec![("busnum".to_string(), "2".to_string()), ("devpath".to_string(), "1.4".to_string())]);
}

#[test]
fn bus_and_addr_from_attributes() {
    let attrs = vec![
        ("busnum".to_string(), "1".to_string()),
        ("devnum".to_string(), "7".to_string()),
        ("busnum".to_string(), "3".to_string()),
        ("speed".to_string(), "480".to_string()),
    ];
    assert_eq!(bus_and_addr(&attrs), (Some("3".to_string()), Some("7".to_string())));
    assert_eq!(bus_and_addr(&vec![]), (None, None));
}

#[test]
fn switched_devices_skip_permanent() {
    let dev = |p: bool| UsbDevice { binding: UsbBinding::ById(UsbId { vendor: 1, product: 1 }), permanent: p, bus: UsbBus::Xhci };
    assert_eq!(switched_devices(&vec![dev(false), dev(true), dev(false)]), vec![0, 2]);
}
