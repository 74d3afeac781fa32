//! The decisions of the setup wizard: how an answer typed by the user is
//! read, how the mkinitcpio configuration is edited, and what the files
//! that the wizard installs contain.
use vstd::prelude::*;
use crate::config::{PciId, UsbId, UsbPort, UsbBinding, UsbDevice, UsbBus};
use crate::text::{has_prefix, contains_str, decimal, hex4, parse_unsigned, parse_unsigned_exec, push_decimal,
    push_hex4, push_str, starts_with, contains, str_eq};

verus! {

// ---------------------------------------------------------------------------
// Answers

/// The text of an answer: the line read from the terminal without its
/// trailing newline.
pub fn answer_text(raw: &str) -> (r: String)
    requires
        raw@.len() > 0,
    ensures
        r@ == raw@.drop_last(),
{
    let n = raw.unicode_len();
    let s = raw.substring_char(0, n - 1);
    let r = String::from_str(s);
    assert(r@ =~= raw@.drop_last());
    r
}

/// The prompt shown for a question: `question [options] `.
pub fn prompt(question: &str, options: &str) -> (r: String)
    ensures
        r@ == question@ + " ["@ + options@ + "] "@,
{
    let mut s = String::new();
    push_str(&mut s, question);
    push_str(&mut s, " [");
    push_str(&mut s, options);
    push_str(&mut s, "] ");
    s
}

/// A yes/no answer: `y` or `n`; anything else asks again.
pub fn yesno(line: &str) -> (r: Option<bool>)
    ensures
        r == (if line@ == "y"@ { Some(true) } else if line@ == "n"@ { Some(false) } else { None::<bool> }),
{
    if str_eq(line, "y") {
        Some(true)
    } else if str_eq(line, "n") {
        Some(false)
    } else {
        None
    }
}

/// The options shown for a numeric question: `start..end`.
pub fn numeric_options(start: usize, end: usize) -> (r: String)
    ensures
        r@ == decimal(start as nat) + ".."@ + decimal(end as nat),
{
    let mut s = String::new();
    push_decimal(&mut s, start as u64);
    push_str(&mut s, "..");
    push_decimal(&mut s, end as u64);
    s
}

/// A numeric answer: a decimal number in `start..end` (end excluded).
pub open spec fn spec_numeric(line: Seq<char>, start: usize, end: usize) -> Option<usize> {
    match parse_unsigned(line, 10, usize::MAX as nat) {
        Some(v) => if start <= v && v < end { Some(v as usize) } else { None },
        None => None,
    }
}

pub fn numeric(line: &str, start: usize, end: usize) -> (r: Option<usize>)
    ensures
        r == spec_numeric(line@, start, end),
{
    match parse_unsigned_exec(line, 10, usize::MAX as u64) {
        Some(v) => {
            if (start as u64) <= v && v < (end as u64) {
                Some(v as usize)
            } else {
                None
            }
        },
        None => None,
    }
}

/// A path answer: accepted when the path exists.
pub fn file(line: &str, exists: bool) -> (r: Option<String>)
    ensures
        exists ==> r is Some && r->0@ == line@,
        !exists ==> r is None,
{
    if exists {
        Some(String::from_str(line))
    } else {
        None
    }
}

// ---------------------------------------------------------------------------
// mkinitcpio

/// The kernel modules that have to be in the initramfs, in load order.
pub const KERNEL_MODULES: &'static str = "vfio vfio_iommu_type1 vfio_pci vfio_virqfd";

pub const MODULES_PREFIX: &'static str = "MODULES=\"";

pub const HOOKS_PREFIX: &'static str = "HOOKS=\"";

/// Where editing the mkinitcpio configuration stands after some lines.
pub struct MkinitcpioScan {
    pub hooks_added: bool,
    pub already_added: bool,
    pub has_modconf: bool,
    pub bailed: bool,
    pub lines: Seq<Seq<char>>,
}

/// The modules line with the vfio modules put in front of the others.
pub open spec fn spec_prepend_modules(line: Seq<char>) -> Seq<char> {
    MODULES_PREFIX@ + KERNEL_MODULES@ + " "@ + line.subrange(MODULES_PREFIX@.len() as int, line.len() as int)
}

/// One line of the configuration: a `MODULES="` line gets the vfio modules
/// in front (or stops the edit if vfio is mentioned otherwise, or if it is
/// the second such line); any other line is kept, and a `HOOKS="` line that
/// mentions `modconf` is noted.
pub open spec fn mkinitcpio_step(st: MkinitcpioScan, line: Seq<char>) -> MkinitcpioScan {
    if st.bailed {
        st
    } else if has_prefix(line, MODULES_PREFIX@) {
        if contains_str(line, KERNEL_MODULES@) {
            MkinitcpioScan { already_added: true, hooks_added: true, ..st }
        } else if contains_str(line, "vfio"@) || st.hooks_added {
            MkinitcpioScan { bailed: true, ..st }
        } else {
            MkinitcpioScan { hooks_added: true, lines: st.lines.push(spec_prepend_modules(line)), ..st }
        }
    } else {
        MkinitcpioScan {
            has_modconf: st.has_modconf || (has_prefix(line, HOOKS_PREFIX@) && contains_str(line, "modconf"@)),
            lines: st.lines.push(line),
            ..st
        }
    }
}

/// The scan over the first `n` lines.
pub open spec fn mkinitcpio_scan(lines: Seq<String>, n: int) -> MkinitcpioScan
    decreases n,
{
    if n <= 0 {
        MkinitcpioScan { hooks_added: false, already_added: false, has_modconf: false, bailed: false, lines: seq![] }
    } else {
        mkinitcpio_step(mkinitcpio_scan(lines, n - 1), lines[n - 1]@)
    }
}

/// What to do with the mkinitcpio configuration.
#[derive(Debug)]
pub enum MkinitcpioEdit {
    /// vfio is mentioned in a way this tool does not understand: edit by hand.
    Bail,
    /// The modules are already in place: nothing to write.
    AlreadyAdded,
    /// Write these lines back.
    Rewrite(Vec<String>),
    /// There is no modules line: edit by hand.
    NoModulesLine,
}

/// Edits the lines of `/etc/mkinitcpio.conf` so that the vfio modules load
/// first. Also reports whether a `modconf` hook was seen before the scan
/// stopped.
pub fn edit_mkinitcpio(lines: &Vec<String>) -> (r: (MkinitcpioEdit, bool))
    ensures
        ({
            let st = mkinitcpio_scan(lines@, lines@.len() as int);
            &&& r.1 == st.has_modconf
            &&& st.bailed ==> r.0 is Bail
            &&& !st.bailed && st.already_added ==> r.0 is AlreadyAdded
            &&& !st.bailed && !st.already_added && st.hooks_added ==>
                    (r.0 matches MkinitcpioEdit::Rewrite(v) && v@.map_values(|l: String| l@) == st.lines)
            &&& !st.bailed && !st.already_added && !st.hooks_added ==> r.0 is NoModulesLine
        }),
{
    let mut hooks_added = false;
    let mut already_added = false;
    let mut has_modconf = false;
    let mut out: Vec<String> = Vec::new();
    let mut i: usize = 0;
    while i < lines.len()
        invariant
            i <= lines@.len(),
            ({
                let st = mkinitcpio_scan(lines@, i as int);
                &&& !st.bailed
                &&& st.hooks_added == hooks_added
                &&& st.already_added == already_added
                &&& st.has_modconf == has_modconf
                &&& st.lines == out@.map_values(|l: String| l@)
            }),
        decreases lines@.len() - i,
    {
        let line = &lines[i];
        let ghost before = out@.map_values(|l: String| l@);
        proof {
            reveal_strlit("MODULES=\"");
            reveal_strlit("HOOKS=\"");
            reveal_strlit("vfio vfio_iommu_type1 vfio_pci vfio_virqfd");
            reveal_strlit("vfio");
            reveal_strlit("modconf");
        }
        if starts_with(line.as_str(), MODULES_PREFIX) {
            if contains(line.as_str(), KERNEL_MODULES) {
                already_added = true;
                hooks_added = true;
            } else if contains(line.as_str(), "vfio") || hooks_added {
                proof {
                    lemma_scan_stays_bailed(lines@, i as int + 1, lines@.len() as int);
                }
                return (MkinitcpioEdit::Bail, has_modconf);
            } else {
                let n = line.unicode_len();
                let rest = line.as_str().substring_char(9, n);
                let mut s = String::new();
                push_str(&mut s, MODULES_PREFIX);
                push_str(&mut s, KERNEL_MODULES);
                push_str(&mut s, " ");
                push_str(&mut s, rest);
                proof { reveal_strlit(" "); }
                assert(s@ == spec_prepend_modules(line@));
                out.push(s);
                hooks_added = true;
                assert(out@.map_values(|l: String| l@) =~= before.push(spec_prepend_modules(line@)));
            }
        } else {
            if starts_with(line.as_str(), HOOKS_PREFIX) && contains(line.as_str(), "modconf") {
                has_modconf = true;
            }
            out.push(line.clone());
            assert(out@.map_values(|l: String| l@) =~= before.push(line@));
        }
        i = i + 1;
    }
    if already_added {
        (MkinitcpioEdit::AlreadyAdded, has_modconf)
    } else if hooks_added {
        (MkinitcpioEdit::Rewrite(out), has_modconf)
    } else {
        (MkinitcpioEdit::NoModulesLine, has_modconf)
    }
}

proof fn lemma_scan_stays_bailed(lines: Seq<String>, i: int, n: int)
    requires
        0 <= i <= n,
        mkinitcpio_scan(lines, i).bailed,
    ensures
        mkinitcpio_scan(lines, n) == mkinitcpio_scan(lines, i),
    decreases n - i,
{
    if i < n {
        lemma_scan_stays_bailed(lines, i, n - 1);
    }
}

// ---------------------------------------------------------------------------
// Files written by the wizard

/// `vvvv:dddd,` for each of the first `n` ids.
pub open spec fn vfio_ids_param(ids: Seq<PciId>, n: int) -> Seq<char>
    decreases n,
{
    if n <= 0 {
        seq![]
    } else {
        vfio_ids_param(ids, n - 1) + ids[n - 1].spec_display() + ","@
    }
}

/// The content of `/etc/modprobe.d/vfio.conf`, which binds vfio-pci to the
/// given devices.
pub fn vfio_modconf(ids: &Vec<PciId>) -> (r: String)
    ensures
        r@ == "options vfio-pci ids="@ + vfio_ids_param(ids@, ids@.len() as int) + "\n"@,
{
    let mut params = String::new();
    let mut i: usize = 0;
    proof { reveal_strlit(","); reveal_strlit(":"); }
    while i < ids.len()
        invariant
            i <= ids@.len(),
            params@ == vfio_ids_param(ids@, i as int),
        decreases ids@.len() - i,
    {
        let id = ids[i];
        push_hex4(&mut params, id.vendor);
        push_str(&mut params, ":");
        push_hex4(&mut params, id.device);
        push_str(&mut params, ",");
        proof { reveal_strlit(","); reveal_strlit(":"); }
        assert(params@ =~= vfio_ids_param(ids@, i as int + 1));
        i = i + 1;
    }
    let mut s = String::new();
    push_str(&mut s, "options vfio-pci ids=");
    push_str(&mut s, params.as_str());
    push_str(&mut s, "\n");
    s
}

pub open spec fn udev_rule_tail() -> Seq<char> {
    "\", ACTION==\"add\", RUN+=\"/usr/bin/setfacl -m g:vfio:rw- $devnode\"\n"@
}

/// The udev rule that gives the vfio group access to one USB device.
pub open spec fn spec_udev_rule(dev: UsbDevice) -> Seq<char> {
    match dev.binding {
        UsbBinding::ById(id) =>
            "SUBSYSTEM==\"usb\", ATTR{idVendor}==\""@ + hex4(id.vendor) + "\", ATTR{idProduct}==\""@
                + hex4(id.product) + udev_rule_tail(),
        UsbBinding::ByPort(p) =>
            "SUBSYSTEM==\"usb\", ATTR{busnum}==\""@ + decimal(p.bus as nat) + "\", ATTR{devpath}==\""@
                + p.port@ + udev_rule_tail(),
    }
}

pub open spec fn spec_udev_rules(devs: Seq<UsbDevice>, n: int) -> Seq<char>
    decreases n,
{
    if n <= 0 {
        seq![]
    } else {
        spec_udev_rules(devs, n - 1) + spec_udev_rule(devs[n - 1])
    }
}

/// The content of `/etc/udev/rules.d/80-vfio-usb.rules`: one rule per device.
pub fn udev_rules(devs: &Vec<UsbDevice>) -> (r: String)
    ensures
        r@ == spec_udev_rules(devs@, devs@.len() as int),
{
    let mut s = String::new();
    let mut i: usize = 0;
    while i < devs.len()
        invariant
            i <= devs@.len(),
            s@ == spec_udev_rules(devs@, i as int),
        decreases devs@.len() - i,
    {
        let ghost before = s@;
        match &devs[i].binding {
            UsbBinding::ById(id) => {
                push_str(&mut s, "SUBSYSTEM==\"usb\", ATTR{idVendor}==\"");
                push_hex4(&mut s, id.vendor);
                push_str(&mut s, "\", ATTR{idProduct}==\"");
                push_hex4(&mut s, id.product);
            },
            UsbBinding::ByPort(p) => {
                push_str(&mut s, "SUBSYSTEM==\"usb\", ATTR{busnum}==\"");
                push_decimal(&mut s, p.bus as u64);
                push_str(&mut s, "\", ATTR{devpath}==\"");
                push_str(&mut s, p.port.as_str());
            },
        }
        push_str(&mut s, "\", ACTION==\"add\", RUN+=\"/usr/bin/setfacl -m g:vfio:rw- $devnode\"\n");
        assert(s@ =~= before + spec_udev_rule(devs@[i as int]));
        i = i + 1;
    }
    s
}

// ---------------------------------------------------------------------------
// USB device selection

/// The kinds of input devices the wizard looks for first.
#[derive(Debug, Clone, Copy, PartialEq, Eq, Structural)]
pub enum HidKind {
    Mouse,
    Keyboard,
}

impl HidKind {
    /// The HID boot protocol number udev reports for this kind.
    pub fn protocol(&self) -> (r: &'static str)
        ensures
            r@ == (match *self { HidKind::Mouse => "02"@, HidKind::Keyboard => "01"@ }),
    {
        match self {
            HidKind::Mouse => "02",
            HidKind::Keyboard => "01",
        }
    }
}

/// The udev device type to enumerate: interfaces when looking for a HID
/// kind, whole devices otherwise.
pub fn devtype(kind: Option<HidKind>) -> (r: &'static str)
    ensures
        r@ == (if kind is Some { "usb_interface"@ } else { "usb_device"@ }),
{
    match kind {
        Some(_) => "usb_interface",
        None => "usb_device",
    }
}

/// How the device being asked for is called in the question.
pub fn device_label(kind: Option<HidKind>) -> (r: &'static str)
    ensures
        r@ == (match kind {
            None => "usb device"@,
            Some(HidKind::Mouse) => "mouse"@,
            Some(HidKind::Keyboard) => "keyboard"@,
        }),
{
    match kind {
        None => "usb device",
        Some(HidKind::Mouse) => "mouse",
        Some(HidKind::Keyboard) => "keyboard",
    }
}

/// Whether a configured device binds the connected device with this id and port.
pub open spec fn spec_binds(dev: UsbDevice, id: UsbId, port: UsbPort) -> bool {
    match dev.binding {
        UsbBinding::ById(i) => i == id,
        UsbBinding::ByPort(p) => p.bus == port.bus && p.port@ == port.port@,
    }
}

pub open spec fn spec_blacklisted(blacklist: Seq<UsbDevice>, id: UsbId, port: UsbPort) -> bool {
    exists|k: int| 0 <= k < blacklist.len() && spec_binds(#[trigger] blacklist[k], id, port)
}

/// Whether one of the configured devices already binds the connected device.
pub fn is_blacklisted(blacklist: &Vec<UsbDevice>, id: UsbId, port: &UsbPort) -> (r: bool)
    ensures
        r == spec_blacklisted(blacklist@, id, *port),
{
    let mut k: usize = 0;
    while k < blacklist.len()
        invariant
            k <= blacklist@.len(),
            forall|m: int| 0 <= m < k ==> !spec_binds(#[trigger] blacklist@[m], id, *port),
        decreases blacklist@.len() - k,
    {
        let hit = match &blacklist[k].binding {
            UsbBinding::ById(i) => i.vendor == id.vendor && i.product == id.product,
            UsbBinding::ByPort(p) => p.same(port),
        };
        if hit {
            assert(spec_binds(blacklist@[k as int], id, *port));
            return true;
        }
        k = k + 1;
    }
    false
}

pub open spec fn offered_indices(infos: Seq<(UsbId, UsbPort)>, blacklist: Seq<UsbDevice>, n: int) -> Seq<usize>
    decreases n,
{
    if n <= 0 {
        seq![]
    } else if spec_blacklisted(blacklist, infos[n - 1].0, infos[n - 1].1) {
        offered_indices(infos, blacklist, n - 1)
    } else {
        offered_indices(infos, blacklist, n - 1).push((n - 1) as usize)
    }
}

/// The connected devices (by id and port) to offer, in order: those that no
/// configured device already binds.
pub fn offered_devices(infos: &Vec<(UsbId, UsbPort)>, blacklist: &Vec<UsbDevice>) -> (r: Vec<usize>)
    ensures
        r@ == offered_indices(infos@, blacklist@, infos@.len() as int),
{
    let mut r: Vec<usize> = Vec::new();
    let mut i: usize = 0;
    while i < infos.len()
        invariant
            i <= infos@.len(),
            r@ == offered_indices(infos@, blacklist@, i as int),
        decreases infos@.len() - i,
    {
        if !is_blacklisted(blacklist, infos[i].0, &infos[i].1) {
            r.push(i);
        }
        i = i + 1;
    }
    r
}

/// The device configured for a pick: bound by id unless the user chose the
/// port, attached to the default controller.
pub fn picked_device(id: UsbId, port: &UsbPort, permanent: bool, by_port: bool) -> (r: UsbDevice)
    ensures
        r.permanent == permanent,
        r.bus == UsbBus::Xhci,
        by_port ==> (r.binding matches UsbBinding::ByPort(p) && p.bus == port.bus && p.port@ == port.port@),
        !by_port ==> r.binding == UsbBinding::ById(id),
{
    let binding = if by_port {
        UsbBinding::ByPort(UsbPort { bus: port.bus, port: port.port.clone() })
    } else {
        UsbBinding::ById(id)
    };
    UsbDevice { binding, permanent, bus: crate::config::default_usbdevice_bus() }
}

/// The first connected device that a configured binding selects.
pub fn connected_index(infos: &Vec<(UsbId, UsbPort)>, binding: &UsbBinding) -> (r: Option<usize>)
    ensures
        r is Some ==> r->0 < infos@.len()
            && spec_binds(UsbDevice { binding: *binding, permanent: false, bus: UsbBus::Xhci }, infos@[r->0 as int].0, infos@[r->0 as int].1)
            && forall|m: int| 0 <= m < r->0 ==> !spec_binds(UsbDevice { binding: *binding, permanent: false, bus: UsbBus::Xhci }, #[trigger] infos@[m].0, infos@[m].1),
        r is None ==> forall|m: int| 0 <= m < infos@.len() ==>
            !spec_binds(UsbDevice { binding: *binding, permanent: false, bus: UsbBus::Xhci }, #[trigger] infos@[m].0, infos@[m].1),
{
    let ghost d = UsbDevice { binding: *binding, permanent: false, bus: UsbBus::Xhci };
    let mut i: usize = 0;
    while i < infos.len()
        invariant
            i <= infos@.len(),
            d == (UsbDevice { binding: *binding, permanent: false, bus: UsbBus::Xhci }),
            forall|m: int| 0 <= m < i ==> !spec_binds(d, #[trigger] infos@[m].0, infos@[m].1),
        decreases infos@.len() - i,
    {
        let hit = match binding {
            UsbBinding::ById(id) => id.vendor == infos[i].0.vendor && id.product == infos[i].0.product,
            UsbBinding::ByPort(p) => p.same(&infos[i].1),
        };
        if hit {
            return Some(i);
        }
        i = i + 1;
    }
    None
}

// ---------------------------------------------------------------------------
// Virtual machine defaults

/// The processor layout chosen when none is configured: one core per
/// physical core, two threads each when every core runs two logical ones.
/// The flag says that the logical cores do not fit that pattern.
pub fn default_cores(cores: usize, threads: Option<u32>, logical: usize, physical: usize) -> (r: (usize, Option<u32>, bool))
    requires
        physical * 2 <= usize::MAX,
    ensures
        cores != 0 ==> r == (cores, threads, false),
        cores == 0 && logical == physical * 2 ==> r == (physical, Some(2u32), false),
        cores == 0 && logical != physical * 2 ==> r == (physical, threads, logical != physical),
{
    if cores == 0 {
        if logical == physical * 2 {
            (physical, Some(2), false)
        } else {
            (physical, threads, logical != physical)
        }
    } else {
        (cores, threads, false)
    }
}

/// The answer to the removal menu, which lists the `len` configured
/// devices and then "None": the position of the device to remove, or
/// `None` to stop.
pub fn removal_choice(len: usize, index: usize) -> (r: Option<usize>)
    requires
        len > 0,
    ensures
        index == len ==> r is None,
        index != len ==> r == Some(index),
{
    let last = len - 1;
    if index == last + 1 {
        None
    } else {
        Some(index)
    }
}

proof fn lemma_prepended_is_added(line: Seq<char>)
    requires
        has_prefix(line, MODULES_PREFIX@),
    ensures
        has_prefix(spec_prepend_modules(line), MODULES_PREFIX@),
        contains_str(spec_prepend_modules(line), KERNEL_MODULES@),
{
    reveal_strlit("MODULES=\"");
    reveal_strlit("vfio vfio_iommu_type1 vfio_pci vfio_virqfd");
    let r = spec_prepend_modules(line);
    assert(r.subrange(0, MODULES_PREFIX@.len() as int) =~= MODULES_PREFIX@);
    assert(r.subrange(9, 9 + KERNEL_MODULES@.len() as int) =~= KERNEL_MODULES@);
    assert(crate::text::occurs_at(r, KERNEL_MODULES@, 9));
}

/// The line that the edit writes for a line it keeps.
pub open spec fn edited_line(line: Seq<char>) -> Seq<char> {
    if has_prefix(line, MODULES_PREFIX@) { spec_prepend_modules(line) } else { line }
}

proof fn lemma_scan_step(lines: Seq<String>, n: int)
    requires
        0 < n <= lines.len(),
        !mkinitcpio_scan(lines, n).bailed,
        !mkinitcpio_scan(lines, n).already_added,
    ensures
        !mkinitcpio_scan(lines, n - 1).bailed,
        !mkinitcpio_scan(lines, n - 1).already_added,
        mkinitcpio_scan(lines, n).lines == mkinitcpio_scan(lines, n - 1).lines.push(edited_line(lines[n - 1]@)),
{
}

proof fn lemma_scan_lines(lines: Seq<String>, n: int)
    requires
        0 <= n <= lines.len(),
        !mkinitcpio_scan(lines, n).bailed,
        !mkinitcpio_scan(lines, n).already_added,
    ensures
        mkinitcpio_scan(lines, n).lines.len() == n,
        forall|j: int| 0 <= j < n ==> #[trigger] mkinitcpio_scan(lines, n).lines[j] == edited_line(lines[j]@),
    decreases n,
{
    if n > 0 {
        lemma_scan_step(lines, n);
        lemma_scan_lines(lines, n - 1);
    }
}

proof fn lemma_rescan(lines: Seq<String>, out: Seq<String>, k: int)
    requires
        0 <= k <= lines.len(),
        out.len() == lines.len(),
        forall|j: int| 0 <= j < lines.len() ==> #[trigger] out[j]@ == edited_line(lines[j]@),
        !mkinitcpio_scan(lines, k).bailed,
        !mkinitcpio_scan(lines, k).already_added,
    ensures
        !mkinitcpio_scan(out, k).bailed,
        mkinitcpio_scan(out, k).already_added == mkinitcpio_scan(lines, k).hooks_added,
        mkinitcpio_scan(out, k).hooks_added == mkinitcpio_scan(lines, k).hooks_added,
        mkinitcpio_scan(out, k).has_modconf == mkinitcpio_scan(lines, k).has_modconf,
    decreases k,
{
    if k > 0 {
        lemma_scan_step(lines, k);
        lemma_rescan(lines, out, k - 1);
        let line = lines[k - 1]@;
        assert(out[k - 1]@ == edited_line(line));
        if has_prefix(line, MODULES_PREFIX@) {
            lemma_prepended_is_added(line);
        }
    }
}

/// Editing is idempotent: a configuration rewritten by
/// `edit_mkinitcpio` is recognised as already set up, with the same
/// finding about the `modconf` hook.
pub proof fn law_mkinitcpio_edit_idempotent(lines: Seq<String>, out: Seq<String>)
    requires
        !mkinitcpio_scan(lines, lines.len() as int).bailed,
        !mkinitcpio_scan(lines, lines.len() as int).already_added,
        mkinitcpio_scan(lines, lines.len() as int).hooks_added,
        out.map_values(|l: String| l@) == mkinitcpio_scan(lines, lines.len() as int).lines,
    ensures
        !mkinitcpio_scan(out, out.len() as int).bailed,
        mkinitcpio_scan(out, out.len() as int).already_added,
        mkinitcpio_scan(out, out.len() as int).has_modconf == mkinitcpio_scan(lines, lines.len() as int).has_modconf,
{
    let n = lines.len() as int;
    lemma_scan_lines(lines, n);
    let fin = mkinitcpio_scan(lines, n).lines;
    assert(out.len() == fin.len());
    assert forall|j: int| 0 <= j < lines.len() implies #[trigger] out[j]@ == edited_line(lines[j]@) by {
        assert(out.map_values(|l: String| l@)[j] == out[j]@);
        assert(fin[j] == edited_line(lines[j]@));
    }
    lemma_rescan(lines, out, n);
}

/// The offered devices are exactly the connected ones that no configured
/// device binds, each once, in order.
pub proof fn law_offered_devices(infos: Seq<(UsbId, UsbPort)>, blacklist: Seq<UsbDevice>, n: int)
    requires
        0 <= n <= infos.len(),
        infos.len() <= usize::MAX,
    ensures
        forall|i: usize| #![trigger offered_indices(infos, blacklist, n).contains(i)]
            i < n ==> (offered_indices(infos, blacklist, n).contains(i)
                <==> !spec_blacklisted(blacklist, infos[i as int].0, infos[i as int].1)),
        forall|a: int, b: int| 0 <= a < b < offered_indices(infos, blacklist, n).len() ==>
            #[trigger] offered_indices(infos, blacklist, n)[a] < #[trigger] offered_indices(infos, blacklist, n)[b],
        forall|a: int| 0 <= a < offered_indices(infos, blacklist, n).len() ==>
            #[trigger] offered_indices(infos, blacklist, n)[a] < n,
    decreases n,
{
    if n > 0 {
        law_offered_devices(infos, blacklist, n - 1);
        let prev = offered_indices(infos, blacklist, n - 1);
        let cur = offered_indices(infos, blacklist, n);
        assert forall|i: usize| #![trigger cur.contains(i)] i < n implies
            (cur.contains(i) <==> !spec_blacklisted(blacklist, infos[i as int].0, infos[i as int].1)) by {
            if i < n - 1 {
                if cur.contains(i) {
                    let k = choose|k: int| #![trigger cur[k]] 0 <= k < cur.len() && cur[k] == i;
                    if k < prev.len() {
                        assert(prev[k] == cur[k]);
                        assert(prev.contains(i));
                    } else {
                        assert(cur[k] == (n - 1) as usize);
                    }
                }
                if prev.contains(i) {
                    let k = choose|k: int| #![trigger prev[k]] 0 <= k < prev.len() && prev[k] == i;
                    assert(cur[k] == prev[k]);
                }
            } else {
                if !spec_blacklisted(blacklist, infos[i as int].0, infos[i as int].1) {
                    assert(cur[cur.len() - 1] == i);
                } else if cur.contains(i) {
                    let k = choose|k: int| #![trigger cur[k]] 0 <= k < cur.len() && cur[k] == i;
                    assert(prev[k] < n - 1);
                }
            }
        }
    }
}


/// The vfio-pci ids list every device, in order, each as its ten characters
/// `vvvv:dddd,`: id `k` fills positions `10k` to `10k + 9`.
pub proof fn law_vfio_ids_one_per_device(ids: Seq<PciId>, n: int)
    requires
        0 <= n <= ids.len(),
    ensures
        vfio_ids_param(ids, n).len() == 10 * n,
        forall|k: int| 0 <= k < n ==> #[trigger] vfio_ids_param(ids, n).subrange(10 * k, 10 * k + 10)
            == hex4(ids[k].vendor) + seq![':'] + hex4(ids[k].device) + seq![','],
    decreases n,
{
    if n > 0 {
        law_vfio_ids_one_per_device(ids, n - 1);
        let prev = vfio_ids_param(ids, n - 1);
        let cur = vfio_ids_param(ids, n);
        reveal_strlit(",");
        assert(cur == prev + (hex4(ids[n - 1].vendor) + seq![':'] + hex4(ids[n - 1].device)) + seq![',']);
        assert forall|k: int| 0 <= k < n implies #[trigger] cur.subrange(10 * k, 10 * k + 10)
            == hex4(ids[k].vendor) + seq![':'] + hex4(ids[k].device) + seq![','] by {
            if k < n - 1 {
                assert(cur.subrange(10 * k, 10 * k + 10) =~= prev.subrange(10 * k, 10 * k + 10));
            } else {
                assert(cur.subrange(10 * k, 10 * k + 10)
                    =~= hex4(ids[k].vendor) + seq![':'] + hex4(ids[k].device) + seq![',']);
            }
        }
    }
}

} // verus!

