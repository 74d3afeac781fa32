//! Binding a resettable PCI device to the vfio-pci driver, and giving it
//! back to its default driver, through sysfs.
use vstd::prelude::*;
use crate::qemu::{path_join, spec_path_join};
use crate::text::str_eq;

verus! {

/// Why the caller may not rebind devices.
#[derive(Debug, Clone, Copy, PartialEq, Eq, Structural)]
pub enum AccessError {
    /// The program does not run with root's effective user id.
    NotRoot,
    /// The system has no `vfio` group.
    NoVfioGroup,
    /// The calling user is not in the `vfio` group.
    NotInVfioGroup,
}

/// Root may always rebind; another user only as a member of the `vfio`
/// group, and only through a setuid-root program. `vfio_member` is `None`
/// when there is no such group.
pub fn check_access(euid: u32, uid: u32, vfio_member: Option<bool>) -> (r: Result<(), AccessError>)
    ensures
        euid != 0 ==> r == Err::<(), AccessError>(AccessError::NotRoot),
        euid == 0 && uid == 0 ==> r is Ok,
        euid == 0 && uid != 0 ==> r == match vfio_member {
            None => Err(AccessError::NoVfioGroup),
            Some(false) => Err(AccessError::NotInVfioGroup),
            Some(true) => Ok(()),
        },
{
    if euid != 0 {
        return Err(AccessError::NotRoot);
    }
    if uid != 0 {
        match vfio_member {
            None => return Err(AccessError::NoVfioGroup),
            Some(false) => return Err(AccessError::NotInVfioGroup),
            Some(true) => {},
        }
    }
    Ok(())
}

/// The sysfs directory of a PCI device.
pub open spec fn device_dir(device: Seq<char>) -> Seq<char> {
    spec_path_join("/sys/bus/pci/devices/"@, device)
}

/// The writes that bind the device to vfio-pci (or, with `remove`, back to
/// its default driver), given the name of the driver it is bound to now.
/// `None` when it is already bound to vfio-pci and stays so.
pub open spec fn spec_ubind_writes(device: Seq<char>, driver: Option<Seq<char>>, remove: bool)
    -> Option<Seq<(Seq<char>, Seq<char>)>>
{
    let dir = device_dir(device);
    let probe = seq![("/sys/bus/pci/drivers_probe"@, device)];
    match driver {
        Some(d) => if d == "vfio-pci"@ && !remove {
            None
        } else {
            Some(seq![
                (spec_path_join(dir, "driver_override"@), if remove { "\n"@ } else { "vfio-pci"@ }),
                (spec_path_join(dir, "driver/unbind"@), device)
            ] + probe)
        },
        None => if remove {
            Some(probe)
        } else {
            Some(seq![(spec_path_join(dir, "driver_override"@), "vfio-pci"@)] + probe)
        },
    }
}

pub fn ubind_writes(device: &str, driver: Option<&str>, remove: bool) -> (r: Option<Vec<(String, String)>>)
    ensures
        match r {
            Some(v) => spec_ubind_writes(device@, match driver { Some(d) => Some(d@), None => None }, remove)
                == Some(v@.map_values(|w: (String, String)| (w.0@, w.1@))),
            None => spec_ubind_writes(device@, match driver { Some(d) => Some(d@), None => None }, remove) is None,
        },
{
    let dir = path_join("/sys/bus/pci/devices/", device);
    let mut writes: Vec<(String, String)> = Vec::new();
    match driver {
        Some(d) => {
            if str_eq(d, "vfio-pci") && !remove {
                return None;
            }
            let value = if remove { String::from_str("\n") } else { String::from_str("vfio-pci") };
            writes.push((path_join(dir.as_str(), "driver_override"), value));
            writes.push((path_join(dir.as_str(), "driver/unbind"), String::from_str(device)));
        },
        None => {
            if !remove {
                writes.push((path_join(dir.as_str(), "driver_override"), String::from_str("vfio-pci")));
            }
        },
    }
    writes.push((String::from_str("/sys/bus/pci/drivers_probe"), String::from_str(device)));
    assert(writes@.map_values(|w: (String, String)| (w.0@, w.1@))
        =~= spec_ubind_writes(device@, match driver { Some(d) => Some(d@), None => None }, remove)->0);
    Some(writes)
}


/// What rebinding a device writes, by case. A device already on vfio-pci that
/// stays there needs nothing. Otherwise the last write always asks the kernel
/// to probe the device again; a device that has a driver is first unbound
/// from it, just before the probe; and its driver override is set to
/// vfio-pci when binding, cleared (a newline) when a bound device is given
/// back. Giving back a device with no driver only probes it.
pub proof fn law_ubind_writes(device: Seq<char>, driver: Option<Seq<char>>, remove: bool)
    ensures
        ({
            let dir = device_dir(device);
            let probe = ("/sys/bus/pci/drivers_probe"@, device);
            let w = spec_ubind_writes(device, driver, remove);
            &&& (w is None <==> (driver == Some("vfio-pci"@) && !remove))
            &&& (w matches Some(ws) ==> ws.len() > 0 && ws.last() == probe)
            &&& (driver is Some && w is Some ==> w->0.len() == 3
                && w->0[1] == (spec_path_join(dir, "driver/unbind"@), device)
                && w->0[0] == (spec_path_join(dir, "driver_override"@), if remove { "\n"@ } else { "vfio-pci"@ }))
            &&& (driver is None && !remove ==> w == Some(seq![(spec_path_join(dir, "driver_override"@), "vfio-pci"@), probe]))
            &&& (driver is None && remove ==> w == Some(seq![probe]))
        }),
{
    let dir = device_dir(device);
    let probe = ("/sys/bus/pci/drivers_probe"@, device);
    match driver {
        Some(d) => {
            if !(d == "vfio-pci"@ && !remove) {
                let ws = spec_ubind_writes(device, driver, remove)->0;
                assert(ws.last() == probe);
            }
        },
        None => {
            assert(spec_ubind_writes(device, driver, remove)->0 =~= if remove { seq![probe] } else {
                seq![(spec_path_join(dir, "driver_override"@), "vfio-pci"@), probe] });
        },
    }
}

} // verus!
