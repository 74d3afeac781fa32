//! PCI devices as the setup sees them: built from udev attributes and
//! properties, displayed, grouped by physical device, and checked for
//! IOMMU isolation.
use vstd::prelude::*;
use vstd::utf8::encode_utf8;
use crate::config::PciId;
use crate::text::{str_eq, hex4, has_prefix, parse_unsigned, parse_unsigned_exec, starts_with, push_str, push_hex4,
    chars_of, string_from_chars, string_push};

verus! {

/// A PCI device of the host.
#[derive(Debug, Clone)]
pub struct PciDevice {
    /// Where the device lives in sysfs.
    pub syspath: String,
    /// Vendor and device id.
    pub id: PciId,
    pub vendor: Option<String>,
    pub model: Option<String>,
    /// E.g. `0000:01:00.0`.
    pub pci_slot: String,
    /// The class code in hexadecimal, without leading zero (e.g. `30000`).
    pub pci_class: String,
}

/// A `0x`-prefixed hexadecimal `u16`, as sysfs writes ids.
pub open spec fn prefixed_hex(v: Seq<char>) -> Option<nat> {
    if has_prefix(v, "0x"@) {
        parse_unsigned(v.subrange(2, v.len() as int), 16, 0xffff)
    } else {
        None
    }
}

/// The value of the last of the first `n` attributes called `name` whose
/// value is a `0x`-prefixed hexadecimal `u16`.
pub open spec fn last_hex_attr(attrs: Seq<(String, String)>, name: Seq<char>, n: int) -> Option<nat>
    decreases n,
{
    if n <= 0 {
        None
    } else if attrs[n - 1].0@ == name && prefixed_hex(attrs[n - 1].1@) is Some {
        prefixed_hex(attrs[n - 1].1@)
    } else {
        last_hex_attr(attrs, name, n - 1)
    }
}

/// The value of the last of the first `n` properties called `name`.
pub open spec fn last_prop(props: Seq<(String, String)>, name: Seq<char>, n: int) -> Option<Seq<char>>
    decreases n,
{
    if n <= 0 {
        None
    } else if props[n - 1].0@ == name {
        Some(props[n - 1].1@)
    } else {
        last_prop(props, name, n - 1)
    }
}

pub open spec fn opt_view(o: Option<String>) -> Option<Seq<char>> {
    match o {
        Some(s) => Some(s@),
        None => None,
    }
}

/// The position of the last `.` in `s`, if any.
pub open spec fn last_dot(s: Seq<char>) -> Option<int>
    decreases s.len(),
{
    if s.len() == 0 {
        None
    } else if s.last() == '.' {
        Some(s.len() - 1)
    } else {
        last_dot(s.drop_last())
    }
}

/// The physical device part of a slot: everything before the last `.`
/// (the function number).
pub open spec fn spec_pci_device(slot: Seq<char>) -> Seq<char> {
    slot.subrange(0, last_dot(slot)->0)
}

/// Whether a slot names its function after a `.`.
pub open spec fn has_function(slot: Seq<char>) -> bool {
    last_dot(slot) is Some
}

proof fn lemma_last_dot_range(s: Seq<char>)
    ensures
        last_dot(s) matches Some(i) ==> 0 <= i < s.len() && s[i] == '.',
    decreases s.len(),
{
    if s.len() > 0 && s.last() != '.' {
        lemma_last_dot_range(s.drop_last());
    }
}

/// `vendor model [vvvv:dddd]`, with placeholders for unknown names.
pub open spec fn spec_pci_display(d: PciDevice) -> Seq<char> {
    (match d.vendor { Some(v) => v@, None => "Unknown vendor"@ }) + seq![' ']
        + (match d.model { Some(m) => m@, None => "Unknown model"@ }) + " ["@
        + hex4(d.id.vendor) + seq![':'] + hex4(d.id.device) + seq![']']
}

/// Whether a device is a display controller (class 0x03xxxx, which udev
/// writes without the leading zero).
pub open spec fn spec_is_display_controller(d: PciDevice) -> bool {
    has_prefix(d.pci_class@, "3"@) && (encode_utf8(d.pci_class@).len() as usize) == 5
}

/// A `0x`-prefixed hexadecimal `u16`.
pub fn parse_prefixed_hex(v: &str) -> (r: Option<u16>)
    ensures
        r is Some <==> prefixed_hex(v@) is Some,
        r is Some ==> r->0 as nat == prefixed_hex(v@)->0,
{
    if starts_with(v, "0x") {
        proof { reveal_strlit("0x"); }
        let n = v.unicode_len();
        let rest = v.substring_char(2, n);
        match parse_unsigned_exec(rest, 16, 0xffff) {
            Some(x) => Some(x as u16),
            None => None,
        }
    } else {
        None
    }
}

fn clone_string(s: &String) -> (r: String)
    ensures
        r@ == s@,
{
    s.clone()
}

impl PciDevice {
    /// Builds a device from its udev attributes (vendor and device ids) and
    /// properties (names from the hardware database, slot and class).
    /// Later entries override earlier ones.
    pub fn new(syspath: String, attributes: &Vec<(String, String)>, properties: &Vec<(String, String)>) -> (r: PciDevice)
        requires
            last_hex_attr(attributes@, "vendor"@, attributes@.len() as int) is Some,
            last_hex_attr(attributes@, "device"@, attributes@.len() as int) is Some,
            last_prop(properties@, "PCI_SLOT_NAME"@, properties@.len() as int) is Some,
            last_prop(properties@, "PCI_CLASS"@, properties@.len() as int) is Some,
        ensures
            r.syspath@ == syspath@,
            r.id.vendor as nat == last_hex_attr(attributes@, "vendor"@, attributes@.len() as int)->0,
            r.id.device as nat == last_hex_attr(attributes@, "device"@, attributes@.len() as int)->0,
            opt_view(r.vendor) == last_prop(properties@, "ID_VENDOR_FROM_DATABASE"@, properties@.len() as int),
            opt_view(r.model) == last_prop(properties@, "ID_MODEL_FROM_DATABASE"@, properties@.len() as int),
            r.pci_slot@ == last_prop(properties@, "PCI_SLOT_NAME"@, properties@.len() as int)->0,
            r.pci_class@ == last_prop(properties@, "PCI_CLASS"@, properties@.len() as int)->0,
    {
        let mut vendor_id: Option<u16> = None;
        let mut model_id: Option<u16> = None;
        let mut i: usize = 0;
        while i < attributes.len()
            invariant
                i <= attributes@.len(),
                vendor_id is Some <==> last_hex_attr(attributes@, "vendor"@, i as int) is Some,
                vendor_id is Some ==> vendor_id->0 as nat == last_hex_attr(attributes@, "vendor"@, i as int)->0,
                model_id is Some <==> last_hex_attr(attributes@, "device"@, i as int) is Some,
                model_id is Some ==> model_id->0 as nat == last_hex_attr(attributes@, "device"@, i as int)->0,
            decreases attributes@.len() - i,
        {
            let (name, value) = &attributes[i];
            proof {
                reveal_strlit("vendor");
                reveal_strlit("device");
                assert("vendor"@[0] != "device"@[0]);
            }
            match parse_prefixed_hex(value.as_str()) {
                Some(val) => {
                    if str_eq(name.as_str(), "vendor") {
                        vendor_id = Some(val);
                    } else if str_eq(name.as_str(), "device") {
                        model_id = Some(val);
                    }
                }
                None => {}
            }
            i = i + 1;
        }
        let mut vendor: Option<String> = None;
        let mut model: Option<String> = None;
        let mut pci_slot: Option<String> = None;
        let mut pci_class: Option<String> = None;
        let mut j: usize = 0;
        while j < properties.len()
            invariant
                j <= properties@.len(),
                opt_view(vendor) == last_prop(properties@, "ID_VENDOR_FROM_DATABASE"@, j as int),
                opt_view(model) == last_prop(properties@, "ID_MODEL_FROM_DATABASE"@, j as int),
                opt_view(pci_slot) == last_prop(properties@, "PCI_SLOT_NAME"@, j as int),
                opt_view(pci_class) == last_prop(properties@, "PCI_CLASS"@, j as int),
            decreases properties@.len() - j,
        {
            let (name, value) = &properties[j];
            let name = name.as_str();
            proof {
                reveal_strlit("ID_VENDOR_FROM_DATABASE");
                reveal_strlit("ID_MODEL_FROM_DATABASE");
                reveal_strlit("PCI_SLOT_NAME");
                reveal_strlit("PCI_CLASS");
                assert("ID_VENDOR_FROM_DATABASE"@.len() != "ID_MODEL_FROM_DATABASE"@.len());
                assert("PCI_SLOT_NAME"@.len() != "PCI_CLASS"@.len());
                assert("ID_VENDOR_FROM_DATABASE"@[0] != "PCI_CLASS"@[0]);
                assert("ID_VENDOR_FROM_DATABASE"@[0] != "PCI_SLOT_NAME"@[0]);
                assert("ID_MODEL_FROM_DATABASE"@[0] != "PCI_CLASS"@[0]);
                assert("ID_MODEL_FROM_DATABASE"@[0] != "PCI_SLOT_NAME"@[0]);
            }
            if str_eq(name, "ID_VENDOR_FROM_DATABASE") {
                vendor = Some(clone_string(value));
            } else if str_eq(name, "ID_MODEL_FROM_DATABASE") {
                model = Some(clone_string(value));
            } else if str_eq(name, "PCI_SLOT_NAME") {
                pci_slot = Some(clone_string(value));
            } else if str_eq(name, "PCI_CLASS") {
                pci_class = Some(clone_string(value));
            }
            j = j + 1;
        }
        PciDevice {
            syspath,
            id: PciId { vendor: vendor_id.unwrap(), device: model_id.unwrap() },
            vendor,
            model,
            pci_slot: pci_slot.unwrap(),
            pci_class: pci_class.unwrap(),
        }
    }

    /// The physical device this function belongs to: the slot without the
    /// function number.
    pub fn pci_device(&self) -> (r: String)
        requires
            has_function(self.pci_slot@),
        ensures
            r@ == spec_pci_device(self.pci_slot@),
    {
        let v = chars_of(self.pci_slot.as_str());
        let mut i = v.len();
        proof { lemma_last_dot_range(v@); }
        assert(v@.subrange(0, i as int) =~= v@);
        while i > 0
            invariant
                i <= v@.len(),
                v@ == self.pci_slot@,
                last_dot(v@) == last_dot(v@.subrange(0, i as int)),
            decreases i,
        {
            if v[i - 1] == '.' {
                assert(v@.subrange(0, i as int).last() == '.');
                return string_from_chars(&v, 0, i - 1);
            }
            assert(v@.subrange(0, i as int).drop_last() =~= v@.subrange(0, i - 1));
            i = i - 1;
        }
        assert(v@.subrange(0, 0) =~= Seq::<char>::empty());
        string_from_chars(&v, 0, 0)
    }

    /// `vendor model [vvvv:dddd]`.
    pub fn display(&self) -> (r: String)
        ensures
            r@ == spec_pci_display(*self),
    {
        let mut s = String::new();
        match &self.vendor {
            Some(v) => push_str(&mut s, v.as_str()),
            None => push_str(&mut s, "Unknown vendor"),
        }
        string_push(&mut s, ' ');
        match &self.model {
            Some(m) => push_str(&mut s, m.as_str()),
            None => push_str(&mut s, "Unknown model"),
        }
        push_str(&mut s, " [");
        push_hex4(&mut s, self.id.vendor);
        string_push(&mut s, ':');
        push_hex4(&mut s, self.id.device);
        string_push(&mut s, ']');
        assert(s@ =~= spec_pci_display(*self));
        s
    }

    /// Devices are compared by their ids.
    pub fn same_id(&self, other: &PciDevice) -> (r: bool)
        ensures
            r == (self.id == other.id),
    {
        self.id.vendor == other.id.vendor && self.id.device == other.id.device
    }

    /// Devices are ordered by their ids (vendor first).
    pub fn id_less(&self, other: &PciDevice) -> (r: bool)
        ensures
            r == (self.id.vendor < other.id.vendor || (self.id.vendor == other.id.vendor && self.id.device < other.id.device)),
    {
        self.id.vendor < other.id.vendor || (self.id.vendor == other.id.vendor && self.id.device < other.id.device)
    }

    /// Whether this is a display controller.
    pub fn is_display_controller(&self) -> (r: bool)
        ensures
            r == spec_is_display_controller(*self),
    {
        proof { reveal_strlit("3"); }
        starts_with(self.pci_class.as_str(), "3") && self.pci_class.as_str().len() == 5
    }

    /// Whether this is a PCI bridge (class 0x060400).
    pub fn is_pci_bridge(&self) -> (r: bool)
        ensures
            r == (self.pci_class@ == "60400"@),
    {
        str_eq(self.pci_class.as_str(), "60400")
    }

}

/// Indices, in order, of the first `n` devices that are display controllers.
pub open spec fn display_indices(devs: Seq<PciDevice>, n: int) -> Seq<usize>
    decreases n,
{
    if n <= 0 {
        Seq::empty()
    } else if spec_is_display_controller(devs[n - 1]) {
        display_indices(devs, n - 1).push((n - 1) as usize)
    } else {
        display_indices(devs, n - 1)
    }
}

/// The positions of the display controllers among the devices (the GPUs that
/// can be chosen for passthrough).
pub fn display_controllers(devs: &Vec<PciDevice>) -> (r: Vec<usize>)
    ensures
        r@ == display_indices(devs@, devs@.len() as int),
{
    let mut out: Vec<usize> = Vec::new();
    let mut i: usize = 0;
    while i < devs.len()
        invariant
            i <= devs@.len(),
            out@ == display_indices(devs@, i as int),
        decreases devs@.len() - i,
    {
        if devs[i].is_display_controller() {
            out.push(i);
        }
        i = i + 1;
    }
    out
}

/// Indices, in order, of the first `n` devices on the physical device `key`.
pub open spec fn related_indices(devs: Seq<PciDevice>, key: Seq<char>, n: int) -> Seq<usize>
    decreases n,
{
    if n <= 0 {
        Seq::empty()
    } else if spec_pci_device(devs[n - 1].pci_slot@) == key {
        related_indices(devs, key, n - 1).push((n - 1) as usize)
    } else {
        related_indices(devs, key, n - 1)
    }
}

/// The first position in `rel` of a device with the given id.
pub open spec fn first_with_id(devs: Seq<PciDevice>, rel: Seq<usize>, id: PciId, k: int) -> int
    decreases rel.len() - k,
{
    if k >= rel.len() || k < 0 {
        k
    } else if devs[rel[k] as int].id == id {
        k
    } else {
        first_with_id(devs, rel, id, k + 1)
    }
}

/// The devices passed through with a chosen GPU: all functions of its
/// physical device, in order, except that the first one with the GPU's ids
/// is swapped to the front.
pub open spec fn spec_passthrough_order(devs: Seq<PciDevice>, selected: int) -> Seq<usize> {
    let rel = related_indices(devs, spec_pci_device(devs[selected].pci_slot@), devs.len() as int);
    let p = first_with_id(devs, rel, devs[selected].id, 0);
    rel.update(0, rel[p]).update(p, rel[0])
}

pub open spec fn all_have_function(devs: Seq<PciDevice>) -> bool {
    forall|i: int| 0 <= i < devs.len() ==> has_function(#[trigger] devs[i].pci_slot@)
}

proof fn lemma_related_contains(devs: Seq<PciDevice>, key: Seq<char>, n: int, j: int)
    requires
        0 <= j < n <= devs.len(),
        spec_pci_device(devs[j].pci_slot@) == key,
    ensures
        related_indices(devs, key, n).contains(j as usize),
    decreases n,
{
    if j < n - 1 {
        lemma_related_contains(devs, key, n - 1, j);
        let prev = related_indices(devs, key, n - 1);
        let k = choose|k: int| 0 <= k < prev.len() && prev[k] == j as usize;
        assert(related_indices(devs, key, n)[k] == j as usize);
    } else {
        let all = related_indices(devs, key, n);
        assert(all[all.len() - 1] == j as usize);
    }
}

proof fn lemma_related_range(devs: Seq<PciDevice>, key: Seq<char>, n: int)
    requires
        0 <= n <= devs.len(),
    ensures
        forall|k: int| 0 <= k < related_indices(devs, key, n).len() ==> #[trigger] related_indices(devs, key, n)[k] < n,
        related_indices(devs, key, n).len() <= n,
    decreases n,
{
    if n > 0 {
        lemma_related_range(devs, key, n - 1);
    }
}

proof fn lemma_first_with_id(devs: Seq<PciDevice>, rel: Seq<usize>, id: PciId, k: int)
    requires
        0 <= k <= rel.len(),
        forall|m: int| 0 <= m < rel.len() ==> #[trigger] rel[m] < devs.len(),
    ensures
        k <= first_with_id(devs, rel, id, k) <= rel.len(),
        first_with_id(devs, rel, id, k) < rel.len() ==> devs[rel[first_with_id(devs, rel, id, k)] as int].id == id,
        forall|m: int| k <= m < first_with_id(devs, rel, id, k) ==> devs[#[trigger] rel[m] as int].id != id,
        (exists|m: int| k <= m < rel.len() && devs[rel[m] as int].id == id) ==> first_with_id(devs, rel, id, k) < rel.len(),
    decreases rel.len() - k,
{
    if k < rel.len() && devs[rel[k] as int].id != id {
        lemma_first_with_id(devs, rel, id, k + 1);
    }
}

/// The ids and slots of the devices to pass through with the chosen GPU,
/// the GPU first.
pub fn passthrough_devices(devs: &Vec<PciDevice>, selected: usize) -> (r: (Vec<PciId>, Vec<String>))
    requires
        selected < devs@.len(),
        all_have_function(devs@),
    ensures
        r.0@.len() == spec_passthrough_order(devs@, selected as int).len(),
        r.1@.len() == spec_passthrough_order(devs@, selected as int).len(),
        forall|k: int| 0 <= k < r.0@.len() ==> #[trigger] r.0@[k] == devs@[spec_passthrough_order(devs@, selected as int)[k] as int].id,
        forall|k: int| 0 <= k < r.1@.len() ==> #[trigger] r.1@[k]@ == devs@[spec_passthrough_order(devs@, selected as int)[k] as int].pci_slot@,
{
    assert(has_function(devs@[selected as int].pci_slot@));
    let key = devs[selected].pci_device();
    let ghost keyv = key@;
    let mut rel: Vec<usize> = Vec::new();
    let mut i: usize = 0;
    while i < devs.len()
        invariant
            i <= devs@.len(),
            all_have_function(devs@),
            key@ == keyv,
            rel@ == related_indices(devs@, keyv, i as int),
        decreases devs@.len() - i,
    {
        assert(has_function(devs@[i as int].pci_slot@));
        let k = devs[i].pci_device();
        if str_eq(k.as_str(), key.as_str()) {
            rel.push(i);
        }
        i = i + 1;
    }
    proof {
        lemma_related_range(devs@, keyv, devs@.len() as int);
        lemma_related_contains(devs@, keyv, devs@.len() as int, selected as int);
        let j = choose|j: int| 0 <= j < rel@.len() && rel@[j] == selected;
        lemma_first_with_id(devs@, rel@, devs@[selected as int].id, 0);
        assert(devs@[rel@[j] as int].id == devs@[selected as int].id);
    }
    let sel_id = devs[selected].id;
    let mut p: usize = 0;
    while p < rel.len() && !(devs[rel[p]].id.vendor == sel_id.vendor && devs[rel[p]].id.device == sel_id.device)
        invariant
            p <= rel@.len(),
            sel_id == devs@[selected as int].id,
            forall|m: int| 0 <= m < rel@.len() ==> #[trigger] rel@[m] < devs@.len(),
            forall|m: int| 0 <= m < p ==> devs@[#[trigger] rel@[m] as int].id != sel_id,
            first_with_id(devs@, rel@, sel_id, 0) < rel@.len(),
            first_with_id(devs@, rel@, sel_id, 0) >= p,
            forall|m: int| 0 <= m < first_with_id(devs@, rel@, sel_id, 0) ==> devs@[#[trigger] rel@[m] as int].id != sel_id,
            devs@[rel@[first_with_id(devs@, rel@, sel_id, 0)] as int].id == sel_id,
        decreases rel@.len() - p,
    {
        p = p + 1;
    }
    assert(p == first_with_id(devs@, rel@, sel_id, 0));
    let ghost order = rel@.update(0, rel@[p as int]).update(p as int, rel@[0]);
    let mut ids: Vec<PciId> = Vec::new();
    let mut slots: Vec<String> = Vec::new();
    let mut k: usize = 0;
    while k < rel.len()
        invariant
            k <= rel@.len(),
            p < rel@.len(),
            order == rel@.update(0, rel@[p as int]).update(p as int, rel@[0]),
            forall|m: int| 0 <= m < rel@.len() ==> #[trigger] rel@[m] < devs@.len(),
            ids@.len() == k,
            slots@.len() == k,
            forall|m: int| 0 <= m < k ==> #[trigger] ids@[m] == devs@[order[m] as int].id,
            forall|m: int| 0 <= m < k ==> #[trigger] slots@[m]@ == devs@[order[m] as int].pci_slot@,
        decreases rel@.len() - k,
    {
        let idx = if k == 0 { rel[p] } else if k == p { rel[0] } else { rel[k] };
        assert(idx == order[k as int]);
        ids.push(devs[idx].id);
        slots.push(clone_string(&devs[idx].pci_slot));
        k = k + 1;
    }
    (ids, slots)
}

/// How the members of the GPU's IOMMU group split: functions of the GPU's
/// physical device (by id, in order), PCI bridges (ignored), and the rest
/// (by position), which break the isolation.
pub open spec fn group_related(selected: Seq<char>, members: Seq<PciDevice>, n: int) -> Seq<PciId>
    decreases n,
{
    if n <= 0 {
        Seq::empty()
    } else if spec_pci_device(members[n - 1].pci_slot@) == selected {
        group_related(selected, members, n - 1).push(members[n - 1].id)
    } else {
        group_related(selected, members, n - 1)
    }
}

pub open spec fn group_unrelated(selected: Seq<char>, members: Seq<PciDevice>, n: int) -> Seq<usize>
    decreases n,
{
    if n <= 0 {
        Seq::empty()
    } else if spec_pci_device(members[n - 1].pci_slot@) != selected && members[n - 1].pci_class@ != "60400"@ {
        group_unrelated(selected, members, n - 1).push((n - 1) as usize)
    } else {
        group_unrelated(selected, members, n - 1)
    }
}

/// Splits the members of the selected GPU's IOMMU group into the ids of the
/// GPU's own functions and the positions of unrelated devices.
pub fn classify_iommu_group(selected: &PciDevice, members: &Vec<PciDevice>) -> (r: (Vec<PciId>, Vec<usize>))
    requires
        has_function(selected.pci_slot@),
        all_have_function(members@),
    ensures
        r.0@ == group_related(spec_pci_device(selected.pci_slot@), members@, members@.len() as int),
        r.1@ == group_unrelated(spec_pci_device(selected.pci_slot@), members@, members@.len() as int),
{
    let key = selected.pci_device();
    let mut related: Vec<PciId> = Vec::new();
    let mut unrelated: Vec<usize> = Vec::new();
    let mut i: usize = 0;
    while i < members.len()
        invariant
            i <= members@.len(),
            all_have_function(members@),
            key@ == spec_pci_device(selected.pci_slot@),
            related@ == group_related(key@, members@, i as int),
            unrelated@ == group_unrelated(key@, members@, i as int),
        decreases members@.len() - i,
    {
        assert(has_function(members@[i as int].pci_slot@));
        let k = members[i].pci_device();
        if str_eq(k.as_str(), key.as_str()) {
            related.push(members[i].id);
        } else if members[i].is_pci_bridge() {
        } else {
            unrelated.push(i);
        }
        i = i + 1;
    }
    (related, unrelated)
}

/// Ids ordered by vendor, then device.
pub open spec fn id_lt(a: PciId, b: PciId) -> bool {
    a.vendor < b.vendor || (a.vendor == b.vendor && a.device < b.device)
}

pub open spec fn strictly_sorted(s: Seq<PciId>) -> bool {
    forall|i: int, j: int| 0 <= i < j < s.len() ==> id_lt(#[trigger] s[i], #[trigger] s[j])
}

/// The ids sorted and without repetitions (`sort` then `dedup`).
pub fn sorted_unique_ids(ids: &Vec<PciId>) -> (r: Vec<PciId>)
    ensures
        strictly_sorted(r@),
        forall|x: PciId| r@.contains(x) <==> ids@.contains(x),
{
    let mut out: Vec<PciId> = Vec::new();
    let mut i: usize = 0;
    while i < ids.len()
        invariant
            i <= ids@.len(),
            strictly_sorted(out@),
            forall|x: PciId| out@.contains(x) <==> ids@.subrange(0, i as int).contains(x),
        decreases ids@.len() - i,
    {
        let x = ids[i];
        // find the insertion point
        let mut p: usize = 0;
        while p < out.len() && id_lt_exec(out[p], x)
            invariant
                p <= out@.len(),
                strictly_sorted(out@),
                forall|m: int| 0 <= m < p ==> id_lt(#[trigger] out@[m], x),
            decreases out@.len() - p,
        {
            p = p + 1;
        }
        let ghost old_out = out@;
        assert(forall|y: PciId| old_out.contains(y) <==> ids@.subrange(0, i as int).contains(y));
        if p < out.len() && out[p].vendor == x.vendor && out[p].device == x.device {
            // already present
            assert(old_out[p as int] == x);
            assert(out@.contains(x));
        } else {
            out.insert(p, x);
            proof {
                assert forall|a: int, b: int| 0 <= a < b < out@.len() implies id_lt(#[trigger] out@[a], #[trigger] out@[b]) by {
                    if a < p && b == p {
                    } else if a == p && b > p {
                        assert(out@[b] == old_out[b - 1]);
                        if b - 1 > p {
                            assert(id_lt(old_out[p as int], old_out[b - 1]));
                        }
                    } else if a < p && b > p {
                        assert(out@[b] == old_out[b - 1]);
                    } else if a > p {
                        assert(out@[a] == old_out[a - 1]);
                        assert(out@[b] == old_out[b - 1]);
                    }
                }
                assert forall|y: PciId| out@.contains(y) <==> (old_out.contains(y) || y == x) by {
                    if out@.contains(y) {
                        let k = choose|k: int| #![trigger out@[k]] 0 <= k < out@.len() && out@[k] == y;
                        if k < p { assert(old_out[k] == y); } else if k > p { assert(old_out[k - 1] == y); }
                    }
                    if old_out.contains(y) {
                        let k = choose|k: int| #![trigger old_out[k]] 0 <= k < old_out.len() && old_out[k] == y;
                        if k < p { assert(out@[k] == y); } else { assert(out@[k + 1] == y); }
                    }
                    if y == x { assert(out@[p as int] == y); }
                }
            }
        }
        proof {
            let s0 = ids@.subrange(0, i as int);
            let s1 = ids@.subrange(0, i + 1);
            assert(s1 =~= s0.push(x));
            assert forall|y: PciId| s1.contains(y) <==> (s0.contains(y) || y == x) by {
                if s1.contains(y) {
                    let k = choose|k: int| #![trigger s1[k]] 0 <= k < s1.len() && s1[k] == y;
                    if k < i { assert(s0[k] == y); }
                }
                if s0.contains(y) {
                    let k = choose|k: int| #![trigger s0[k]] 0 <= k < s0.len() && s0[k] == y;
                    assert(s1[k] == y);
                }
                if y == x { assert(s1[i as int] == y); }
            }
            assert forall|y: PciId| out@.contains(y) <==> s1.contains(y) by {
                assert(out@.contains(y) <==> (old_out.contains(y) || y == x));
                assert(old_out.contains(y) <==> s0.contains(y));
            }
        }
        i = i + 1;
    }
    assert(ids@.subrange(0, ids@.len() as int) =~= ids@);
    out
}

fn id_lt_exec(a: PciId, b: PciId) -> (r: bool)
    ensures
        r == id_lt(a, b),
{
    a.vendor < b.vendor || (a.vendor == b.vendor && a.device < b.device)
}


/// The selectable GPUs are exactly the display controllers, each once, in
/// the order the devices come: position `j` is listed iff device `j` is a
/// display controller, and the list is strictly increasing.
pub proof fn law_display_controllers_exact(devs: Seq<PciDevice>, n: int)
    requires
        0 <= n <= devs.len(),
        n <= usize::MAX,
    ensures
        forall|j: int| 0 <= j < n ==> (#[trigger] display_indices(devs, n).contains(j as usize)
            <==> spec_is_display_controller(devs[j])),
        forall|x: usize| #[trigger] display_indices(devs, n).contains(x) ==> x < n,
        forall|a: int, b: int| 0 <= a < b < display_indices(devs, n).len()
            ==> display_indices(devs, n)[a] < display_indices(devs, n)[b],
    decreases n,
{
    if n > 0 {
        law_display_controllers_exact(devs, n - 1);
        let prev = display_indices(devs, n - 1);
        let cur = display_indices(devs, n);
        if spec_is_display_controller(devs[n - 1]) {
            assert(cur == prev.push((n - 1) as usize));
            assert forall|j: int| 0 <= j < n implies (#[trigger] cur.contains(j as usize)
                <==> spec_is_display_controller(devs[j])) by {
                if cur.contains(j as usize) && j < n - 1 {
                    let k = choose|k: int| 0 <= k < cur.len() && cur[k] == j as usize;
                    if k < prev.len() {
                        assert(prev.contains(j as usize));
                    }
                }
                if j < n - 1 && prev.contains(j as usize) {
                    let k = choose|k: int| 0 <= k < prev.len() && prev[k] == j as usize;
                    assert(cur[k] == j as usize);
                }
                if j == n - 1 {
                    assert(cur[cur.len() - 1] == j as usize);
                }
            }
            assert forall|x: usize| #[trigger] cur.contains(x) implies x < n by {
                let k = choose|k: int| 0 <= k < cur.len() && cur[k] == x;
                if k < prev.len() {
                    assert(prev.contains(x));
                }
            }
            assert forall|a: int, b: int| 0 <= a < b < cur.len() implies cur[a] < cur[b] by {
                if b == cur.len() - 1 {
                    assert(prev.contains(prev[a]));
                }
            }
        }
    }
}

} // verus!
