use windows_gaming_driver::ubind::{check_access, AccessError, ubind_writes};

fn s(v: &str) -> String {
    v.to_string()
}

#[test]
fn access_rules() {
    assert_eq!(check_access(1000, 1000, Some(true)), Err(AccessError::NotRoot));
    assert_eq!(check_access(0, 0, None), Ok(()));
    assert_eq!(check_access(0, 1000, None), Err(AccessError::NoVfioGroup));
    assert_eq!(check_access(0, 1000, Some(false)), Err(AccessError::NotInVfioGroup));
    assert_eq!(check_access(0, 1000, Some(true)), Ok(()));
}

#[test]
fn bind_from_other_driver() {
    let w = ubind_writes("0000:01:00.0", Some("nouveau"), false).unwrap();
    assert_eq!(w, vec![
        (s("/sys/bus/pci/devices/0000:01:00.0/driver_override"), s("vfio-pci")),
        (s("/sys/bus/pci/devices/0000:01:00.0/driver/unbind"), s("0000:01:00.0")),
        (s("/sys/bus/pci/drivers_probe"), s("0000:01:00.0")),
    ]);
}

#[test]
fn already_bound_and_release() {
    assert_eq!(ubind_writes("0000:01:00.0", Some("vfio-pci"), false), None);
    let w = ubind_writes("0000:01:00.0", Some("vfio-pci"), true).unwrap();
    assert_eq!(w[0], (s("/sys/bus/pci/devices/0000:01:00.0/driver_override"), s("\n")));
    assert_eq!(w.len(), 3);
    let w = ubind_writes("0000:01:00.0", None, false).unwrap();
    assert_eq!(w.len(), 2);
    let w = ubind_writes("0000:01:00.0", None, true).unwrap();
    assert_eq!(w, vec![(s("/sys/bus/pci/drivers_probe"), s("0000:01:00.0"))]);
}
