use windows_gaming_driver::pci::{PciDevice, display_controllers, passthrough_devices, classify_iommu_group, sorted_unique_ids};
use windows_gaming_driver::config::PciId;
use windows_gaming_driver::hwid::{hwid_resolve_usb, hwid_readable};

fn s(v: &str) -> String {
    v.to_string()
}

fn dev(slot: &str, vendor: &str, device: &str, class: &str) -> PciDevice {
    let attrs = vec![(s("vendor"), s(vendor)), (s("device"), s(device))];
    let props = vec![
        (s("ID_VENDOR_FROM_DATABASE"), s("NVIDIA Corporation")),
        (s("PCI_SLOT_NAME"), s(slot)),
        (s("PCI_CLASS"), s(class)),
    ];
    PciDevice::new(format!("/sys/devices/{}", slot), &attrs, &props)
}

#[test]
fn device_from_udev_values() {
    let d = dev("0000:01:00.0", "0x10de", "0x1b80", "30000");
    assert_eq!(d.id, PciId { vendor: 0x10de, device: 0x1b80 });
    assert_eq!(d.pci_slot, "0000:01:00.0");
    assert_eq!(d.vendor, Some(s("NVIDIA Corporation")));
    assert_eq!(d.model, None);
    assert_eq!(d.display(), "NVIDIA Corporation Unknown model [10de:1b80]");
    assert_eq!(d.pci_device(), "0000:01:00");
    assert!(d.is_display_controller());
    assert!(!d.is_pci_bridge());
}

#[test]
fn gpu_selection() {
    let devs = vec![
        dev("0000:00:02.0", "0x8086", "0x1912", "38000"),
        dev("0000:01:00.1", "0x10de", "0x10f0", "40300"),
        dev("0000:01:00.0", "0x10de", "0x1b80", "30000"),
        dev("0000:00:1f.0", "0x8086", "0xa145", "60100"),
    ];
    assert_eq!(display_controllers(&devs), vec![0, 2]);
    let (ids, slots) = passthrough_devices(&devs, 2);
    assert_eq!(ids, vec![PciId { vendor: 0x10de, device: 0x1b80 }, PciId { vendor: 0x10de, device: 0x10f0 }]);
    assert_eq!(slots, vec![s("0000:01:00.0"), s("0000:01:00.1")]);
}

#[test]
fn iommu_group_split() {
    let gpu = dev("0000:01:00.0", "0x10de", "0x1b80", "30000");
    let members = vec![
        dev("0000:00:01.0", "0x8086", "0x1901", "60400"),
        dev("0000:01:00.0", "0x10de", "0x1b80", "30000"),
        dev("0000:01:00.1", "0x10de", "0x10f0", "40300"),
        dev("0000:02:00.0", "0x1b21", "0x1242", "c0330"),
    ];
    let (related, unrelated) = classify_iommu_group(&gpu, &members);
    assert_eq!(related, vec![PciId { vendor: 0x10de, device: 0x1b80 }, PciId { vendor: 0x10de, device: 0x10f0 }]);
    assert_eq!(unrelated, vec![3]);
    let sorted = sorted_unique_ids(&vec![related[0], related[1], related[0]]);
    assert_eq!(sorted, vec![PciId { vendor: 0x10de, device: 0x10f0 }, PciId { vendor: 0x10de, device: 0x1b80 }]);
}

fn usb_ids() -> Vec<String> {
    [
        "# comment",
        "03f0  HP, Inc",
        "\t0004  DeskJet 895c",
        "046d  Logitech, Inc.",
        "\t0082  Acer Aspire 5672 Webcam",
        "\tc52b  Unifying Receiver ",
        "0471  Philips (or NXP)",
        "C 00  (Defined at Interface level)",
    ].iter().map(|x| s(x)).collect()
}

#[test]
fn hwid_finds_vendor_and_product() {
    let db = usb_ids();
    assert_eq!(hwid_resolve_usb(&db, 0x046d, 0xc52b), Some((s("Logitech, Inc."), Some(s("Unifying Receiver")))));
    assert_eq!(hwid_resolve_usb(&db, 0x046d, 0x1234), Some((s("Logitech, Inc."), None)));
    assert_eq!(hwid_resolve_usb(&db, 0x03f0, 0x0004), Some((s("HP, Inc"), Some(s("DeskJet 895c")))));
    assert_eq!(hwid_resolve_usb(&db, 0xffff, 0x0004), None);
}

#[test]
fn hwid_readable_only_counts_reached_lines() {
    let mut db = usb_ids();
    db.push(s("aéé  Broken"));
    assert!(hwid_readable(&db, 0x046d, 0xc52b));
    assert!(hwid_readable(&db, 0x03f0, 0x0004));
    assert!(!hwid_readable(&db, 0xffff, 0x0004));
    let vendor_then_bad_product = vec![s("046d  Logitech, Inc."), s("\t000é  Webcam")];
    assert!(!hwid_readable(&vendor_then_bad_product, 0x046d, 0xc52b));
    let odd_but_cut_between = vec![s("046d  Logitech, Inc."), s("\t00é  Webcam")];
    assert!(hwid_readable(&odd_but_cut_between, 0x046d, 0xc52b));
    assert_eq!(hwid_resolve_usb(&odd_but_cut_between, 0x046d, 0xc52b), None);
}
