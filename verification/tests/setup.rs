use windows_gaming_driver::setup::{answer_text, prompt, yesno, numeric, numeric_options, edit_mkinitcpio,
    MkinitcpioEdit, vfio_modconf, udev_rules, HidKind, devtype, device_label, is_blacklisted, offered_devices,
    picked_device, connected_index, default_cores, removal_choice, KERNEL_MODULES};
use windows_gaming_driver::config::{PciId, UsbId, UsbPort, UsbBinding, UsbDevice, UsbBus};

fn lines(v: &[&str]) -> Vec<String> {
    v.iter().map(|s| s.to_string()).collect()
}

#[test]
fn answers_and_prompts() {
    assert_eq!(answer_text("y\n"), "y");
    assert_eq!(prompt("Done?", "y/n"), "Done? [y/n] ");
    assert_eq!(yesno("y"), Some(true));
    assert_eq!(yesno("n"), Some(false));
    assert_eq!(yesno("yes"), None);
    assert_eq!(numeric_options(0, 3), "0..3");
}

#[test]
fn numeric_answers_in_range() {
    assert_eq!(numeric("2", 0, 3), Some(2));
    assert_eq!(numeric("3", 0, 3), None);
    assert_eq!(numeric("+1", 0, 3), Some(1));
    assert_eq!(numeric("-1", 0, 3), None);
    assert_eq!(numeric("two", 0, 3), None);
}

#[test]
fn file_answers() {
    assert_eq!(windows_gaming_driver::setup::file("/dev/sda", true), Some("/dev/sda".to_string()));
    assert_eq!(windows_gaming_driver::setup::file("/nope", false), None);
}

#[test]
fn mkinitcpio_prepends_modules() {
    let conf = lines(&["# comment", "MODULES=\"i915\"", "HOOKS=\"base udev modconf block\""]);
    let (edit, modconf) = edit_mkinitcpio(&conf);
    assert!(modconf);
    match edit {
        MkinitcpioEdit::Rewrite(out) => {
            assert_eq!(out, lines(&["# comment", "MODULES=\"vfio vfio_iommu_type1 vfio_pci vfio_virqfd i915\"",
                "HOOKS=\"base udev modconf block\""]));
            let (again, modconf2) = edit_mkinitcpio(&out);
            assert!(matches!(again, MkinitcpioEdit::AlreadyAdded));
            assert!(modconf2);
        }
        other => panic!("unexpected {:?}", other),
    }
}

#[test]
fn mkinitcpio_bails_on_foreign_vfio_or_second_modules_line() {
    let (edit, _) = edit_mkinitcpio(&lines(&["MODULES=\"vfio_pci\""]));
    assert!(matches!(edit, MkinitcpioEdit::Bail));
    let (edit, modconf) = edit_mkinitcpio(&lines(&["HOOKS=\"modconf\"", "MODULES=\"\"", "MODULES=\"x\""]));
    assert!(matches!(edit, MkinitcpioEdit::Bail));
    assert!(modconf);
}

#[test]
fn mkinitcpio_without_modules_line() {
    let (edit, modconf) = edit_mkinitcpio(&lines(&["HOOKS=\"base\""]));
    assert!(matches!(edit, MkinitcpioEdit::NoModulesLine));
    assert!(!modconf);
    assert_eq!(KERNEL_MODULES, "vfio vfio_iommu_type1 vfio_pci vfio_virqfd");
}

#[test]
fn modprobe_configuration() {
    let ids = vec![PciId { vendor: 0x10de, device: 0x1b80 }, PciId { vendor: 0x10de, device: 0x10f0 }];
    assert_eq!(vfio_modconf(&ids), "options vfio-pci ids=10de:1b80,10de:10f0,\n");
    assert_eq!(vfio_modconf(&vec![]), "options vfio-pci ids=\n");
}

#[test]
fn udev_rule_lines() {
    let devs = vec![
        UsbDevice { binding: UsbBinding::ById(UsbId { vendor: 0x46d, product: 0xc52b }), permanent: false, bus: UsbBus::Xhci },
        UsbDevice { binding: UsbBinding::ByPort(UsbPort { bus: 3, port: "1.2".to_string() }), permanent: true, bus: UsbBus::Xhci },
    ];
    let expected = "SUBSYSTEM==\"usb\", ATTR{idVendor}==\"046d\", ATTR{idProduct}==\"c52b\", ACTION==\"add\", RUN+=\"/usr/bin/setfacl -m g:vfio:rw- $devnode\"\n\
SUBSYSTEM==\"usb\", ATTR{busnum}==\"3\", ATTR{devpath}==\"1.2\", ACTION==\"add\", RUN+=\"/usr/bin/setfacl -m g:vfio:rw- $devnode\"\n";
    assert_eq!(udev_rules(&devs), expected);
}

#[test]
fn hid_kinds() {
    assert_eq!(HidKind::Mouse.protocol(), "02");
    assert_eq!(HidKind::Keyboard.protocol(), "01");
    assert_eq!(devtype(Some(HidKind::Mouse)), "usb_interface");
    assert_eq!(devtype(None), "usb_device");
    assert_eq!(device_label(Some(HidKind::Keyboard)), "keyboard");
    assert_eq!(device_label(None), "usb device");
}

#[test]
fn offered_devices_skip_configured_ones() {
    let infos = vec![
        (UsbId { vendor: 1, product: 1 }, UsbPort { bus: 1, port: "1".to_string() }),
        (UsbId { vendor: 2, product: 2 }, UsbPort { bus: 1, port: "2".to_string() }),
        (UsbId { vendor: 3, product: 3 }, UsbPort { bus: 2, port: "1".to_string() }),
    ];
    let blacklist = vec![
        UsbDevice { binding: UsbBinding::ById(UsbId { vendor: 1, product: 1 }), permanent: false, bus: UsbBus::Xhci },
        UsbDevice { binding: UsbBinding::ByPort(UsbPort { bus: 2, port: "1".to_string() }), permanent: false, bus: UsbBus::Xhci },
    ];
    assert_eq!(offered_devices(&infos, &blacklist), vec![1]);
    assert!(is_blacklisted(&blacklist, UsbId { vendor: 1, product: 1 }, &UsbPort { bus: 9, port: "9".to_string() }));
    assert!(!is_blacklisted(&blacklist, UsbId { vendor: 2, product: 2 }, &UsbPort { bus: 1, port: "2".to_string() }));
    assert_eq!(connected_index(&infos, &UsbBinding::ByPort(UsbPort { bus: 1, port: "2".to_string() })), Some(1));
    assert_eq!(connected_index(&infos, &UsbBinding::ById(UsbId { vendor: 9, product: 9 })), None);
}

#[test]
fn picked_device_binding() {
    let port = UsbPort { bus: 1, port: "3".to_string() };
    let d = picked_device(UsbId { vendor: 5, product: 6 }, &port, true, false);
    assert_eq!(d.binding, UsbBinding::ById(UsbId { vendor: 5, product: 6 }));
    assert!(d.permanent);
    assert_eq!(d.bus, UsbBus::Xhci);
    let d = picked_device(UsbId { vendor: 5, product: 6 }, &port, false, true);
    assert_eq!(d.binding, UsbBinding::ByPort(port));
}

#[test]
fn processor_defaults() {
    assert_eq!(default_cores(0, None, 8, 4), (4, Some(2), false));
    assert_eq!(default_cores(0, None, 6, 4), (4, None, true));
    assert_eq!(default_cores(0, None, 4, 4), (4, None, false));
    assert_eq!(default_cores(2, Some(1), 8, 4), (2, Some(1), false));
}

#[test]
fn removal_menu() {
    assert_eq!(removal_choice(3, 3), None);
    assert_eq!(removal_choice(3, 1), Some(1));
}
