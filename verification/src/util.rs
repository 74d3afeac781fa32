//! Small helpers shared by the driver and the setup code.
use vstd::prelude::*;
use crate::config::{UsbBus, UsbBinding, UsbDevice};
use crate::text::{hex4, decimal, push_hex4, push_decimal, str_eq};
use crate::text::parse_unsigned;

verus! {

/// Number of ports of one host controller of the given kind.
pub open spec fn spec_usable_ports(bus: UsbBus) -> nat {
    match bus {
        UsbBus::Ohci => 15,
        UsbBus::Uhci => 2,
        UsbBus::Ehci => 6,
        UsbBus::Xhci => 15,
    }
}

/// Returns how many devices one controller of this kind can take.
pub fn usable_ports(bus: UsbBus) -> (n: usize)
    ensures
        n == spec_usable_ports(bus),
{
    match bus {
        UsbBus::Ohci => 15,
        UsbBus::Uhci => 2,
        UsbBus::Ehci => 6,
        UsbBus::Xhci => 15,
    }
}

/// What `parse_hex` gives: the text after an optional `0x` prefix read as a
/// hexadecimal `u16`.
pub open spec fn spec_parse_hex(s: Seq<char>) -> Option<nat> {
    if s.len() >= 2 && s[0] == '0' && s[1] == 'x' {
        parse_unsigned(s.subrange(2, s.len() as int), 16, 0xffff)
    } else {
        parse_unsigned(s, 16, 0xffff)
    }
}

/// Parses a hexadecimal `u16`, with or without a `0x` prefix.
pub fn parse_hex(s: &str) -> (r: Option<u16>)
    ensures
        r is Some <==> spec_parse_hex(s@) is Some,
        r is Some ==> r->0 as nat == spec_parse_hex(s@)->0,
{
    let n = s.unicode_len();
    if n >= 2 && s.get_char(0) == '0' && s.get_char(1) == 'x' {
        let rest = s.substring_char(2, n);
        match crate::text::parse_unsigned_exec(rest, 16, 0xffff) {
            Some(v) => Some(v as u16),
            None => None,
        }
    } else {
        match crate::text::parse_unsigned_exec(s, 16, 0xffff) {
            Some(v) => Some(v as u16),
            None => None,
        }
    }
}

/// The udev attributes that select the USB device of a binding: vendor and
/// product id in four hexadecimal digits, or bus number and device path.
pub open spec fn spec_binding_filters(b: UsbBinding) -> Seq<(Seq<char>, Seq<char>)> {
    match b {
        UsbBinding::ById(id) => seq![("idVendor"@, hex4(id.vendor)), ("idProduct"@, hex4(id.product))],
        UsbBinding::ByPort(p) => seq![("busnum"@, decimal(p.bus as nat)), ("devpath"@, p.port@)],
    }
}

pub fn binding_filters(b: &UsbBinding) -> (r: Vec<(String, String)>)
    ensures
        r@.map_values(|a: (String, String)| (a.0@, a.1@)) == spec_binding_filters(*b),
{
    let mut r: Vec<(String, String)> = Vec::new();
    match b {
        UsbBinding::ById(id) => {
            let mut v = String::new();
            push_hex4(&mut v, id.vendor);
            let mut p = String::new();
            push_hex4(&mut p, id.product);
            r.push((String::from_str("idVendor"), v));
            r.push((String::from_str("idProduct"), p));
        },
        UsbBinding::ByPort(port) => {
            let mut bus = String::new();
            push_decimal(&mut bus, port.bus as u64);
            r.push((String::from_str("busnum"), bus));
            r.push((String::from_str("devpath"), port.port.clone()));
        },
    }
    assert(r@.map_values(|a: (String, String)| (a.0@, a.1@)) =~= spec_binding_filters(*b));
    r
}

/// The value of the last of the first `n` attributes called `name`.
pub open spec fn last_attr(attrs: Seq<(String, String)>, name: Seq<char>, n: int) -> Option<Seq<char>>
    decreases n,
{
    if n <= 0 {
        None
    } else if attrs[n - 1].0@ == name {
        Some(attrs[n - 1].1@)
    } else {
        last_attr(attrs, name, n - 1)
    }
}

/// The bus number and device number among a USB device's attributes (the
/// last value of each counts).
pub fn bus_and_addr(attrs: &Vec<(String, String)>) -> (r: (Option<String>, Option<String>))
    ensures
        crate::pci::opt_view(r.0) == last_attr(attrs@, "busnum"@, attrs@.len() as int),
        crate::pci::opt_view(r.1) == last_attr(attrs@, "devnum"@, attrs@.len() as int),
{
    let mut bus: Option<String> = None;
    let mut addr: Option<String> = None;
    let mut i: usize = 0;
    while i < attrs.len()
        invariant
            i <= attrs@.len(),
            crate::pci::opt_view(bus) == last_attr(attrs@, "busnum"@, i as int),
            crate::pci::opt_view(addr) == last_attr(attrs@, "devnum"@, i as int),
        decreases attrs@.len() - i,
    {
        proof {
            reveal_strlit("busnum");
            reveal_strlit("devnum");
            assert("busnum"@[0] != "devnum"@[0]);
        }
        if str_eq(attrs[i].0.as_str(), "busnum") {
            bus = Some(attrs[i].1.clone());
        } else if str_eq(attrs[i].0.as_str(), "devnum") {
            addr = Some(attrs[i].1.clone());
        }
        i = i + 1;
    }
    (bus, addr)
}

/// The devices that are attached only while the guest has the input
/// devices (not permanently), by position.
pub open spec fn spec_switched_devices(devs: Seq<UsbDevice>, n: int) -> Seq<usize>
    decreases n,
{
    if n <= 0 {
        seq![]
    } else if devs[n - 1].permanent {
        spec_switched_devices(devs, n - 1)
    } else {
        spec_switched_devices(devs, n - 1).push((n - 1) as usize)
    }
}

pub fn switched_devices(devs: &Vec<UsbDevice>) -> (r: Vec<usize>)
    ensures
        r@ == spec_switched_devices(devs@, devs@.len() as int),
{
    let mut r: Vec<usize> = Vec::new();
    let mut i: usize = 0;
    while i < devs.len()
        invariant
            i <= devs@.len(),
            r@ == spec_switched_devices(devs@, i as int),
        decreases devs@.len() - i,
    {
        if !devs[i].permanent {
            r.push(i);
        }
        i = i + 1;
    }
    r
}


/// The devices switched with the input are exactly the ones that are not
/// permanent, each once, in configuration order.
pub proof fn law_switched_devices_exact(devs: Seq<UsbDevice>, n: int)
    requires
        0 <= n <= devs.len(),
        n <= usize::MAX,
    ensures
        forall|j: int| 0 <= j < n ==> (#[trigger] spec_switched_devices(devs, n).contains(j as usize)
            <==> !devs[j].permanent),
        forall|x: usize| #[trigger] spec_switched_devices(devs, n).contains(x) ==> x < n,
        forall|a: int, b: int| 0 <= a < b < spec_switched_devices(devs, n).len()
            ==> spec_switched_devices(devs, n)[a] < spec_switched_devices(devs, n)[b],
    decreases n,
{
    if n > 0 {
        law_switched_devices_exact(devs, n - 1);
        let prev = spec_switched_devices(devs, n - 1);
        let cur = spec_switched_devices(devs, n);
        if !devs[n - 1].permanent {
            assert(cur == prev.push((n - 1) as usize));
            assert forall|j: int| 0 <= j < n implies (#[trigger] cur.contains(j as usize) <==> !devs[j].permanent) by {
                if cur.contains(j as usize) && j < n - 1 {
                    let k = choose|k: int| 0 <= k < cur.len() && cur[k] == j as usize;
                    if k < prev.len() {
                        assert(prev.contains(j as usize));
                    }
                }
                if j < n - 1 && prev.contains(j as usize) {
                    let k = choose|k: int| 0 <= k < prev.len() && prev[k] == j as usize;
                    assert(cur[k] == j as usize);
                }
                if j == n - 1 {
                    assert(cur[cur.len() - 1] == j as usize);
                }
            }
            assert forall|x: usize| #[trigger] cur.contains(x) implies x < n by {
                let k = choose|k: int| 0 <= k < cur.len() && cur[k] == x;
                if k < prev.len() {
                    assert(prev.contains(x));
                }
            }
            assert forall|a: int, b: int| 0 <= a < b < cur.len() implies cur[a] < cur[b] by {
                if b == cur.len() - 1 {
                    assert(prev.contains(prev[a]));
                }
            }
        }
    }
}

} // verus!

