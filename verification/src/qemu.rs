//! The qemu command line and environment for a machine configuration.
use vstd::prelude::*;
use crate::config::{Config, SetupConfig, MachineConfig, SoundConfig, SoundSettings, SoundBackend, AlsaSettings,
    AlsaUnit, NetworkConfig, StorageDevice, UsbDevice, VfioDevice};
use crate::text::{decimal, push_decimal, push_str};
use crate::pci::opt_view;

verus! {

/// The qemu binary that is run.
pub const QEMU: &'static str = "/usr/bin/qemu-system-x86_64";

/// Socket on which qemu offers its monitor (QMP).
pub const MONITOR_SOCKET: &'static str = "monitor.sock";

/// Socket to which the guest agent's channel is forwarded.
pub const CLIENTPIPE_SOCKET: &'static str = "clientpipe.sock";

/// Socket on which clients control the driver.
pub const CONTROL_SOCKET: &'static str = "control.sock";

/// Copy of the UEFI variable store used by the running machine.
pub const EFIVARS_FILE: &'static str = "efivars.fd";

/// The views of a list of strings.
pub open spec fn strs(v: Seq<String>) -> Seq<Seq<char>> {
    v.map_values(|s: String| s@)
}

/// `base` joined with a relative `name`, as `Path::join` does it.
pub open spec fn spec_path_join(base: Seq<char>, name: Seq<char>) -> Seq<char> {
    if base.len() == 0 {
        name
    } else if base.last() == '/' {
        base + name
    } else {
        base + "/"@ + name
    }
}

pub fn path_join(base: &str, name: &str) -> (r: String)
    ensures
        r@ == spec_path_join(base@, name@),
{
    let n = base.unicode_len();
    let mut s = String::new();
    push_str(&mut s, base);
    if n > 0 && base.get_char(n - 1) != '/' {
        push_str(&mut s, "/");
    }
    push_str(&mut s, name);
    proof { reveal_strlit("/"); }
    if n > 0 {
        assert(base@.last() == base@[n - 1]);
    }
    s
}

/// The user-mode network of the guest: restricted, with the guest agent's
/// port forwarded to the client pipe socket.
pub open spec fn spec_usernet(clientpipe: Seq<char>) -> Seq<char> {
    "user,id=unet,restrict=on,guestfwd=tcp:10.0.2.1:31337-unix:"@ + clientpipe
}

pub fn usernet(clientpipe: &str) -> (r: String)
    ensures
        r@ == spec_usernet(clientpipe@),
{
    let mut s = String::new();
    push_str(&mut s, "user,id=unet,restrict=on,guestfwd=tcp:10.0.2.1:31337-unix:");
    push_str(&mut s, clientpipe);
    s
}

fn push_arg(args: &mut Vec<String>, a: String)
    ensures
        strs(final(args)@) == strs(old(args)@).push(a@),
{
    let ghost before = strs(args@);
    args.push(a);
    assert(strs(args@) =~= before.push(a@));
}

fn push_lit(args: &mut Vec<String>, a: &str)
    ensures
        strs(final(args)@) == strs(old(args)@).push(a@),
{
    push_arg(args, String::from_str(a));
}

fn concat2(a: &str, b: &str) -> (r: String)
    ensures
        r@ == a@ + b@,
{
    let mut s = String::new();
    push_str(&mut s, a);
    push_str(&mut s, b);
    s
}

fn concat3(a: &str, b: &str, c: &str) -> (r: String)
    ensures
        r@ == a@ + b@ + c@,
{
    let mut s = String::new();
    push_str(&mut s, a);
    push_str(&mut s, b);
    push_str(&mut s, c);
    s
}

/// The fixed part of the command line: machine, firmware, monitor and
/// controllers.
pub open spec fn base_args(monitor: Seq<char>, ovmf_code: Seq<char>, efivars: Seq<char>) -> Seq<Seq<char>> {
    seq![
        "-enable-kvm"@, "-machine"@, "q35"@, "-cpu"@,
        "host,kvm=off,hv_time,hv_relaxed,hv_vapic,hv_spinlocks=0x1fff,hv_vendor_id=NvidiaFuckU"@,
        "-rtc"@, "base=localtime"@, "-nodefaults"@, "-usb"@, "-net"@, "none"@,
        "-display"@, "none"@, "-vga"@, "none"@,
        "-qmp"@, "unix:"@ + monitor,
        "-drive"@, "if=pflash,format=raw,readonly,file="@ + ovmf_code,
        "-drive"@, "if=pflash,format=raw,file="@ + efivars,
        "-device"@, "qemu-xhci,id=xhci"@, "-device"@, "virtio-scsi-pci,id=scsi"@
    ]
}

fn push_base_args(args: &mut Vec<String>, monitor: &str, ovmf_code: &str, efivars: &str)
    ensures
        strs(final(args)@) == strs(old(args)@) + base_args(monitor@, ovmf_code@, efivars@),
{
    let ghost start = strs(args@);
    push_lit(args, "-enable-kvm");
    push_lit(args, "-machine");
    push_lit(args, "q35");
    push_lit(args, "-cpu");
    push_lit(args, "host,kvm=off,hv_time,hv_relaxed,hv_vapic,hv_spinlocks=0x1fff,hv_vendor_id=NvidiaFuckU");
    push_lit(args, "-rtc");
    push_lit(args, "base=localtime");
    push_lit(args, "-nodefaults");
    push_lit(args, "-usb");
    push_lit(args, "-net");
    push_lit(args, "none");
    push_lit(args, "-display");
    push_lit(args, "none");
    push_lit(args, "-vga");
    push_lit(args, "none");
    push_lit(args, "-qmp");
    push_arg(args, concat2("unix:", monitor));
    push_lit(args, "-drive");
    push_arg(args, concat2("if=pflash,format=raw,readonly,file=", ovmf_code));
    push_lit(args, "-drive");
    push_arg(args, concat2("if=pflash,format=raw,file=", efivars));
    push_lit(args, "-device");
    push_lit(args, "qemu-xhci,id=xhci");
    push_lit(args, "-device");
    push_lit(args, "virtio-scsi-pci,id=scsi");
    assert(strs(args@) =~= start + base_args(monitor@, ovmf_code@, efivars@));
}

/// What the setup run adds: a virtual display, the installation media.
pub open spec fn setup_args(setup: Option<SetupConfig>) -> Seq<Seq<char>> {
    match setup {
        None => seq![],
        Some(s) =>
            (if s.gui { seq!["-display"@, "gtk"@, "-vga"@, "qxl"@] } else { seq![] })
            + (match s.cdrom { Some(c) => seq!["-cdrom"@, c@], None => seq![] })
            + (match s.floppy {
                Some(f) => seq!["-drive"@, "file="@ + f@ + ",index=0,if=floppy,readonly"@],
                None => seq![],
            }),
    }
}

fn push_setup_args(args: &mut Vec<String>, setup: &Option<SetupConfig>)
    ensures
        strs(final(args)@) == strs(old(args)@) + setup_args(*setup),
{
    let ghost start = strs(args@);
    match setup {
        None => {
            assert(strs(args@) =~= start + setup_args(*setup));
        },
        Some(s) => {
            if s.gui {
                push_lit(args, "-display");
                push_lit(args, "gtk");
                push_lit(args, "-vga");
                push_lit(args, "qxl");
            }
            let ghost after_gui = strs(args@);
            match &s.cdrom {
                Some(c) => {
                    push_lit(args, "-cdrom");
                    push_arg(args, c.clone());
                },
                None => {},
            }
            let ghost after_cdrom = strs(args@);
            match &s.floppy {
                Some(f) => {
                    push_lit(args, "-drive");
                    push_arg(args, concat3("file=", f.as_str(), ",index=0,if=floppy,readonly"));
                },
                None => {},
            }
            assert(after_gui =~= start + (if s.gui { seq!["-display"@, "gtk"@, "-vga"@, "qxl"@] } else { seq![] }));
            assert(strs(args@) =~= start + setup_args(*setup));
        },
    }
}

/// `cores=N,threads=M`, one thread per core unless configured.
pub open spec fn smp_arg(m: MachineConfig) -> Seq<char> {
    "cores="@ + decimal(m.cores as nat) + ",threads="@
        + decimal((match m.threads { Some(t) => t, None => 1u32 }) as nat)
}

/// Memory, processor and sound hardware.
pub open spec fn machine_args(m: MachineConfig) -> Seq<Seq<char>> {
    (if m.hugepages == Some(true) {
        seq!["-mem-path"@, "/dev/hugepages_vfio_1G/"@, "-mem-prealloc"@]
    } else {
        seq![]
    })
    + seq!["-m"@, m.memory@, "-smp"@, smp_arg(m), "-soundhw"@, "hda"@]
}

fn push_machine_args(args: &mut Vec<String>, m: &MachineConfig)
    ensures
        strs(final(args)@) == strs(old(args)@) + machine_args(*m),
{
    let ghost start = strs(args@);
    let huge = match m.hugepages { Some(h) => h, None => false };
    if huge {
        push_lit(args, "-mem-path");
        push_lit(args, "/dev/hugepages_vfio_1G/");
        push_lit(args, "-mem-prealloc");
    }
    push_lit(args, "-m");
    push_arg(args, m.memory.clone());
    push_lit(args, "-smp");
    let mut smp = String::new();
    push_str(&mut smp, "cores=");
    push_decimal(&mut smp, m.cores as u64);
    push_str(&mut smp, ",threads=");
    let threads: u32 = match m.threads { Some(t) => t, None => 1 };
    push_decimal(&mut smp, threads as u64);
    push_arg(args, smp);
    push_lit(args, "-soundhw");
    push_lit(args, "hda");
    assert(strs(args@) =~= start + machine_args(*m));
}

/// The bridged networks: one `bridgeN` netdev and e1000 card per bridge.
pub open spec fn bridge_args(bridges: Seq<String>, n: int) -> Seq<Seq<char>>
    decreases n,
{
    if n <= 0 {
        seq![]
    } else {
        bridge_args(bridges, n - 1) + seq![
            "-netdev"@, "bridge,id=bridge"@ + decimal((n - 1) as nat) + ",br="@ + bridges[n - 1]@,
            "-device"@, "e1000,netdev=bridge"@ + decimal((n - 1) as nat)
        ]
    }
}

pub open spec fn network_bridges(net: Option<NetworkConfig>) -> Seq<String> {
    match net {
        Some(n) => n.bridges@,
        None => seq![],
    }
}

fn push_bridge_args(args: &mut Vec<String>, net: &Option<NetworkConfig>)
    ensures
        strs(final(args)@) == strs(old(args)@) + bridge_args(network_bridges(*net), network_bridges(*net).len() as int),
{
    let ghost start = strs(args@);
    match net {
        None => {
            assert(strs(args@) =~= start + bridge_args(network_bridges(*net), 0));
        },
        Some(n) => {
            let mut i: usize = 0;
            while i < n.bridges.len()
                invariant
                    i <= n.bridges@.len(),
                    strs(args@) == start + bridge_args(n.bridges@, i as int),
                decreases n.bridges@.len() - i,
            {
                let ghost before = strs(args@);
                push_lit(args, "-netdev");
                let mut b = String::new();
                push_str(&mut b, "bridge,id=bridge");
                push_decimal(&mut b, i as u64);
                push_str(&mut b, ",br=");
                push_str(&mut b, n.bridges[i].as_str());
                push_arg(args, b);
                push_lit(args, "-device");
                let mut d = String::new();
                push_str(&mut d, "e1000,netdev=bridge");
                push_decimal(&mut d, i as u64);
                push_arg(args, d);
                assert(strs(args@) =~= start + bridge_args(n.bridges@, i as int + 1));
                i = i + 1;
            }
        },
    }
}

/// One vfio-pci device per configured slot; the slot is written as the
/// configuration displays it.
pub open spec fn vfio_args(slots: Seq<VfioDevice>, n: int) -> Seq<Seq<char>>
    decreases n,
{
    if n <= 0 {
        seq![]
    } else {
        vfio_args(slots, n - 1) + seq!["-device"@, "vfio-pci,host="@ + slots[n - 1].spec_display() + ",multifunction=on"@]
    }
}

fn push_vfio_args(args: &mut Vec<String>, slots: &Vec<VfioDevice>)
    ensures
        strs(final(args)@) == strs(old(args)@) + vfio_args(slots@, slots@.len() as int),
{
    let ghost start = strs(args@);
    let mut i: usize = 0;
    while i < slots.len()
        invariant
            i <= slots@.len(),
            strs(args@) == start + vfio_args(slots@, i as int),
        decreases slots@.len() - i,
    {
        push_lit(args, "-device");
        push_arg(args, concat3("vfio-pci,host=", slots[i].display(), ",multifunction=on"));
        assert(strs(args@) =~= start + vfio_args(slots@, i as int + 1));
        i = i + 1;
    }
}

/// The permanently attached USB devices that could be found on the host,
/// each on the xHCI port numbered after its position in the configuration.
pub open spec fn usb_args(devs: Seq<UsbDevice>, found: Seq<Option<(String, String)>>, n: int) -> Seq<Seq<char>>
    decreases n,
{
    if n <= 0 {
        seq![]
    } else if devs[n - 1].permanent && found[n - 1] is Some {
        let (bus, addr) = found[n - 1]->0;
        usb_args(devs, found, n - 1) + seq![
            "-device"@,
            "usb-host,hostbus="@ + bus@ + ",hostaddr="@ + addr@ + ",bus=xhci.0,port="@ + decimal(n as nat)
        ]
    } else {
        usb_args(devs, found, n - 1)
    }
}

fn push_usb_args(args: &mut Vec<String>, devs: &Vec<UsbDevice>, found: &Vec<Option<(String, String)>>)
    requires
        found@.len() == devs@.len(),
    ensures
        strs(final(args)@) == strs(old(args)@) + usb_args(devs@, found@, devs@.len() as int),
{
    let ghost start = strs(args@);
    let mut i: usize = 0;
    while i < devs.len()
        invariant
            i <= devs@.len(),
            found@.len() == devs@.len(),
            strs(args@) == start + usb_args(devs@, found@, i as int),
        decreases devs@.len() - i,
    {
        if devs[i].permanent {
            match &found[i] {
                Some((bus, addr)) => {
                    push_lit(args, "-device");
                    let mut s = String::new();
                    push_str(&mut s, "usb-host,hostbus=");
                    push_str(&mut s, bus.as_str());
                    push_str(&mut s, ",hostaddr=");
                    push_str(&mut s, addr.as_str());
                    push_str(&mut s, ",bus=xhci.0,port=");
                    push_decimal(&mut s, (i + 1) as u64);
                    push_arg(args, s);
                },
                None => {},
            }
        }
        assert(strs(args@) =~= start + usb_args(devs@, found@, i as int + 1));
        i = i + 1;
    }
}

/// One raw SCSI disk per storage device.
pub open spec fn storage_args(drives: Seq<StorageDevice>, n: int) -> Seq<Seq<char>>
    decreases n,
{
    if n <= 0 {
        seq![]
    } else {
        storage_args(drives, n - 1) + seq![
            "-drive"@,
            "file="@ + drives[n - 1].path@ + ",id=disk"@ + decimal((n - 1) as nat) + ",format="@
                + drives[n - 1].format@ + ",if=none,cache="@ + drives[n - 1].cache@ + ",aio=native"@,
            "-device"@,
            "scsi-hd,drive=disk"@ + decimal((n - 1) as nat)
        ]
    }
}

fn push_storage_args(args: &mut Vec<String>, drives: &Vec<StorageDevice>)
    ensures
        strs(final(args)@) == strs(old(args)@) + storage_args(drives@, drives@.len() as int),
{
    let ghost start = strs(args@);
    let mut i: usize = 0;
    while i < drives.len()
        invariant
            i <= drives@.len(),
            strs(args@) == start + storage_args(drives@, i as int),
        decreases drives@.len() - i,
    {
        let d = &drives[i];
        push_lit(args, "-drive");
        let mut s = String::new();
        push_str(&mut s, "file=");
        push_str(&mut s, d.path.as_str());
        push_str(&mut s, ",id=disk");
        push_decimal(&mut s, i as u64);
        push_str(&mut s, ",format=");
        push_str(&mut s, d.format.as_str());
        push_str(&mut s, ",if=none,cache=");
        push_str(&mut s, d.cache.as_str());
        push_str(&mut s, ",aio=native");
        push_arg(args, s);
        push_lit(args, "-device");
        let mut t = String::new();
        push_str(&mut t, "scsi-hd,drive=disk");
        push_decimal(&mut t, i as u64);
        push_arg(args, t);
        assert(strs(args@) =~= start + storage_args(drives@, i as int + 1));
        i = i + 1;
    }
}

/// The whole command line (without the program name) for a machine whose
/// runtime files live in `tmp` and whose firmware images live in `data`.
/// `usernet` is the user network specification and `found` holds, for each
/// configured USB device, its host bus and address if it is connected.
pub open spec fn spec_qemu_args(cfg: Config, tmp: Seq<char>, data: Seq<char>, usernet: Seq<char>,
    found: Seq<Option<(String, String)>>) -> Seq<Seq<char>> {
    base_args(spec_path_join(tmp, "monitor.sock"@), spec_path_join(data, "ovmf-code.fd"@),
        spec_path_join(tmp, "efivars.fd"@))
    + setup_args(cfg.setup)
    + machine_args(cfg.machine)
    + bridge_args(network_bridges(cfg.machine.network), network_bridges(cfg.machine.network).len() as int)
    + seq!["-netdev"@, usernet, "-device"@, "e1000,netdev=unet"@]
    + vfio_args(cfg.machine.vfio_slots@, cfg.machine.vfio_slots@.len() as int)
    + usb_args(cfg.machine.usb_devices@, found, cfg.machine.usb_devices@.len() as int)
    + storage_args(cfg.machine.storage@, cfg.machine.storage@.len() as int)
}

pub fn qemu_args(cfg: &Config, tmp: &str, data: &str, usernet: &str, found: &Vec<Option<(String, String)>>) -> (r: Vec<String>)
    requires
        found@.len() == cfg.machine.usb_devices@.len(),
    ensures
        strs(r@) == spec_qemu_args(*cfg, tmp@, data@, usernet@, found@),
{
    let mut args: Vec<String> = Vec::new();
    let monitor = path_join(tmp, MONITOR_SOCKET);
    let code = path_join(data, "ovmf-code.fd");
    let efivars = path_join(tmp, EFIVARS_FILE);
    push_base_args(&mut args, monitor.as_str(), code.as_str(), efivars.as_str());
    push_setup_args(&mut args, &cfg.setup);
    push_machine_args(&mut args, &cfg.machine);
    push_bridge_args(&mut args, &cfg.machine.network);
    let ghost before_net = strs(args@);
    push_lit(&mut args, "-netdev");
    push_lit(&mut args, usernet);
    push_lit(&mut args, "-device");
    push_lit(&mut args, "e1000,netdev=unet");
    assert(strs(args@) =~= before_net + seq!["-netdev"@, usernet@, "-device"@, "e1000,netdev=unet"@]);
    push_vfio_args(&mut args, &cfg.machine.vfio_slots);
    push_usb_args(&mut args, &cfg.machine.usb_devices, found);
    push_storage_args(&mut args, &cfg.machine.storage);
    assert(strs(args@) =~= spec_qemu_args(*cfg, tmp@, data@, usernet@, found@));
    args
}

// ---------------------------------------------------------------------------
// Environment

/// The views of a list of environment changes; `None` removes the variable.
pub open spec fn env_view(v: Seq<(String, Option<String>)>) -> Seq<(Seq<char>, Option<Seq<char>>)> {
    v.map_values(|e: (String, Option<String>)| (e.0@, opt_view(e.1)))
}

pub open spec fn set(name: Seq<char>, value: Seq<char>) -> (Seq<char>, Option<Seq<char>>) {
    (name, Some(value))
}

pub open spec fn bool_flag(b: bool) -> Seq<char> {
    if b { "1"@ } else { "0"@ }
}

/// Fixed settings of one direction (`DAC` or `ADC`).
pub open spec fn fixed_env(dir: Seq<char>, fixed: Option<crate::config::SoundFixedSettings>) -> Seq<(Seq<char>, Option<Seq<char>>)> {
    match fixed {
        None => seq![set("QEMU_AUDIO_"@ + dir + "_FIXED_SETTINGS"@, "0"@)],
        Some(x) => seq![
            set("QEMU_AUDIO_"@ + dir + "_FIXED_SETTINGS"@, "1"@),
            set("QEMU_AUDIO_"@ + dir + "_FIXED_FREQ"@, decimal(x.frequency as nat)),
            set("QEMU_AUDIO_"@ + dir + "_FIXED_FMT"@, x.format@),
            set("QEMU_AUDIO_"@ + dir + "_FIXED_CHANNELS"@, decimal(x.channels as nat))
        ],
    }
}

pub open spec fn alsa_env(dir: Seq<char>, a: AlsaSettings) -> Seq<(Seq<char>, Option<Seq<char>>)> {
    seq![
        set("QEMU_ALSA_"@ + dir + "_DEV"@, a.name@),
        set("QEMU_ALSA_"@ + dir + "_SIZE_IN_USEC"@, bool_flag(a.unit == AlsaUnit::MicroSeconds)),
        set("QEMU_ALSA_"@ + dir + "_BUFFER_SIZE"@, decimal(a.buffer_size as nat)),
        set("QEMU_ALSA_"@ + dir + "_PERIOD_SIZE"@, decimal(a.period_size as nat))
    ]
}

pub open spec fn opt_env(name: Seq<char>, v: Option<String>) -> (Seq<char>, Option<Seq<char>>) {
    (name, opt_view(v))
}

pub open spec fn backend_env(b: SoundBackend) -> Seq<(Seq<char>, Option<Seq<char>>)> {
    match b {
        SoundBackend::NoBackend => seq![set("QEMU_AUDIO_DRV"@, "none"@)],
        SoundBackend::Alsa { sink, source } =>
            seq![set("QEMU_AUDIO_DRV"@, "alsa"@)] + alsa_env("DAC"@, sink) + alsa_env("ADC"@, source),
        SoundBackend::PulseAudio { buffer_samples, server, sink_name, source_name } => seq![
            set("QEMU_AUDIO_DRV"@, "pa"@),
            set("QEMU_PA_SAMPLES"@, decimal(buffer_samples as nat)),
            opt_env("QEMU_PA_SERVER"@, server),
            opt_env("QEMU_PA_SINK"@, sink_name),
            opt_env("QEMU_PA_SOURCE"@, source_name)
        ],
    }
}

/// The audio environment of qemu, in the order it is applied. The input's
/// polling flag follows the output's setting.
pub open spec fn spec_qemu_env(sound: SoundConfig) -> Seq<(Seq<char>, Option<Seq<char>>)> {
    seq![
        set("QEMU_AUDIO_TIMER_PERIOD"@, decimal(sound.timer_period as nat)),
        set("QEMU_AUDIO_DAC_VOICES"@, decimal(sound.output.voices as nat)),
        set("QEMU_AUDIO_DAC_TRY_POLL"@, bool_flag(sound.output.use_polling))
    ]
    + fixed_env("DAC"@, sound.output.fixed)
    + seq![
        set("QEMU_AUDIO_ADC_VOICES"@, decimal(sound.input.voices as nat)),
        set("QEMU_AUDIO_ADC_TRY_POLL"@, bool_flag(sound.output.use_polling))
    ]
    + fixed_env("ADC"@, sound.input.fixed)
    + backend_env(sound.backend)
}

fn push_env(env: &mut Vec<(String, Option<String>)>, name: String, value: Option<String>)
    ensures
        env_view(final(env)@) == env_view(old(env)@).push((name@, opt_view(value))),
{
    let ghost before = env_view(env@);
    let ghost item = (name@, opt_view(value));
    env.push((name, value));
    assert(env_view(env@) =~= before.push(item));
}

fn env_name(prefix: &str, dir: &str, suffix: &str) -> (r: String)
    ensures
        r@ == prefix@ + dir@ + suffix@,
{
    concat3(prefix, dir, suffix)
}

fn decimal_string(n: u64) -> (r: String)
    ensures
        r@ == decimal(n as nat),
{
    let mut s = String::new();
    push_decimal(&mut s, n);
    s
}

fn flag_string(b: bool) -> (r: String)
    ensures
        r@ == bool_flag(b),
{
    if b { String::from_str("1") } else { String::from_str("0") }
}

fn push_fixed_env(env: &mut Vec<(String, Option<String>)>, dir: &str, fixed: &Option<crate::config::SoundFixedSettings>)
    ensures
        env_view(final(env)@) == env_view(old(env)@) + fixed_env(dir@, *fixed),
{
    let ghost start = env_view(env@);
    match fixed {
        None => {
            push_env(env, env_name("QEMU_AUDIO_", dir, "_FIXED_SETTINGS"), Some(String::from_str("0")));
        },
        Some(x) => {
            push_env(env, env_name("QEMU_AUDIO_", dir, "_FIXED_SETTINGS"), Some(String::from_str("1")));
            push_env(env, env_name("QEMU_AUDIO_", dir, "_FIXED_FREQ"), Some(decimal_string(x.frequency as u64)));
            push_env(env, env_name("QEMU_AUDIO_", dir, "_FIXED_FMT"), Some(x.format.clone()));
            push_env(env, env_name("QEMU_AUDIO_", dir, "_FIXED_CHANNELS"), Some(decimal_string(x.channels as u64)));
        },
    }
    assert(env_view(env@) =~= start + fixed_env(dir@, *fixed));
}

fn push_alsa_env(env: &mut Vec<(String, Option<String>)>, dir: &str, a: &AlsaSettings)
    ensures
        env_view(final(env)@) == env_view(old(env)@) + alsa_env(dir@, *a),
{
    let ghost start = env_view(env@);
    push_env(env, env_name("QEMU_ALSA_", dir, "_DEV"), Some(a.name.clone()));
    let usec = match a.unit { AlsaUnit::MicroSeconds => true, AlsaUnit::Frames => false };
    push_env(env, env_name("QEMU_ALSA_", dir, "_SIZE_IN_USEC"), Some(flag_string(usec)));
    push_env(env, env_name("QEMU_ALSA_", dir, "_BUFFER_SIZE"), Some(decimal_string(a.buffer_size as u64)));
    push_env(env, env_name("QEMU_ALSA_", dir, "_PERIOD_SIZE"), Some(decimal_string(a.period_size as u64)));
    assert(env_view(env@) =~= start + alsa_env(dir@, *a));
}

fn clone_opt(o: &Option<String>) -> (r: Option<String>)
    ensures
        opt_view(r) == opt_view(*o),
{
    match o {
        Some(x) => Some(x.clone()),
        None => None,
    }
}

fn push_backend_env(env: &mut Vec<(String, Option<String>)>, b: &SoundBackend)
    ensures
        env_view(final(env)@) == env_view(old(env)@) + backend_env(*b),
{
    let ghost start = env_view(env@);
    match b {
        SoundBackend::NoBackend => {
            push_env(env, String::from_str("QEMU_AUDIO_DRV"), Some(String::from_str("none")));
        },
        SoundBackend::Alsa { sink, source } => {
            push_env(env, String::from_str("QEMU_AUDIO_DRV"), Some(String::from_str("alsa")));
            push_alsa_env(env, "DAC", sink);
            push_alsa_env(env, "ADC", source);
        },
        SoundBackend::PulseAudio { buffer_samples, server, sink_name, source_name } => {
            push_env(env, String::from_str("QEMU_AUDIO_DRV"), Some(String::from_str("pa")));
            push_env(env, String::from_str("QEMU_PA_SAMPLES"), Some(decimal_string(*buffer_samples as u64)));
            push_env(env, String::from_str("QEMU_PA_SERVER"), clone_opt(server));
            push_env(env, String::from_str("QEMU_PA_SINK"), clone_opt(sink_name));
            push_env(env, String::from_str("QEMU_PA_SOURCE"), clone_opt(source_name));
        },
    }
    assert(env_view(env@) =~= start + backend_env(*b));
}

/// The environment changes to apply to qemu's process, in order: `Some`
/// sets a variable, `None` removes it.
pub fn qemu_env(sound: &SoundConfig) -> (r: Vec<(String, Option<String>)>)
    ensures
        env_view(r@) == spec_qemu_env(*sound),
{
    let mut env: Vec<(String, Option<String>)> = Vec::new();
    push_env(&mut env, String::from_str("QEMU_AUDIO_TIMER_PERIOD"), Some(decimal_string(sound.timer_period as u64)));
    push_env(&mut env, String::from_str("QEMU_AUDIO_DAC_VOICES"), Some(decimal_string(sound.output.voices as u64)));
    push_env(&mut env, String::from_str("QEMU_AUDIO_DAC_TRY_POLL"), Some(flag_string(sound.output.use_polling)));
    let ghost a = env_view(env@);
    push_fixed_env(&mut env, "DAC", &sound.output.fixed);
    let ghost b = env_view(env@);
    push_env(&mut env, String::from_str("QEMU_AUDIO_ADC_VOICES"), Some(decimal_string(sound.input.voices as u64)));
    push_env(&mut env, String::from_str("QEMU_AUDIO_ADC_TRY_POLL"), Some(flag_string(sound.output.use_polling)));
    let ghost c = env_view(env@);
    push_fixed_env(&mut env, "ADC", &sound.input.fixed);
    push_backend_env(&mut env, &sound.backend);
    assert(env_view(env@) =~= spec_qemu_env(*sound));
    env
}


/// The vfio part of the command line: for each configured slot, in order, a
/// `-device` followed by the `vfio-pci` device naming that slot.
pub proof fn law_vfio_args_one_per_slot(slots: Seq<VfioDevice>, n: int)
    requires
        0 <= n <= slots.len(),
    ensures
        vfio_args(slots, n).len() == 2 * n,
        forall|j: int| 0 <= j < 2 * n ==> #[trigger] vfio_args(slots, n)[j] == (if j % 2 == 0 {
            "-device"@
        } else {
            "vfio-pci,host="@ + slots[j / 2].spec_display() + ",multifunction=on"@
        }),
    decreases n,
{
    if n > 0 {
        law_vfio_args_one_per_slot(slots, n - 1);
        let prev = vfio_args(slots, n - 1);
        let cur = vfio_args(slots, n);
        assert(cur == prev + seq!["-device"@, "vfio-pci,host="@ + slots[n - 1].spec_display() + ",multifunction=on"@]);
        assert forall|j: int| 0 <= j < 2 * n implies #[trigger] cur[j] == (if j % 2 == 0 {
            "-device"@
        } else {
            "vfio-pci,host="@ + slots[j / 2].spec_display() + ",multifunction=on"@
        }) by {
            if j < 2 * n - 2 {
                assert(cur[j] == prev[j]);
            } else if j == 2 * n - 2 {
                assert(j % 2 == 0);
            } else {
                assert(j % 2 == 1 && j / 2 == n - 1);
            }
        }
    }
}

/// qemu's command line passes every configured vfio slot through, in order:
/// right after the user network device come, for each slot `k`, the
/// arguments `-device` and `vfio-pci,host=<slot k>,multifunction=on`.
pub proof fn law_qemu_args_pass_every_slot(cfg: Config, tmp: Seq<char>, data: Seq<char>, usernet: Seq<char>,
    found: Seq<Option<(String, String)>>)
    ensures
        ({
            let a = spec_qemu_args(cfg, tmp, data, usernet, found);
            let slots = cfg.machine.vfio_slots@;
            exists|p: int| 4 <= p && p + 2 * slots.len() <= a.len()
                && #[trigger] a[p - 4] == "-netdev"@ && a[p - 3] == usernet
                && a[p - 2] == "-device"@ && a[p - 1] == "e1000,netdev=unet"@
                && forall|k: int| 0 <= k < slots.len() ==> {
                    &&& #[trigger] a[p + 2 * k] == "-device"@
                    &&& a[p + 2 * k + 1] == "vfio-pci,host="@ + slots[k].spec_display() + ",multifunction=on"@
                }
        }),
{
    let a = spec_qemu_args(cfg, tmp, data, usernet, found);
    let slots = cfg.machine.vfio_slots@;
    let pre = base_args(spec_path_join(tmp, "monitor.sock"@), spec_path_join(data, "ovmf-code.fd"@),
        spec_path_join(tmp, "efivars.fd"@))
        + setup_args(cfg.setup)
        + machine_args(cfg.machine)
        + bridge_args(network_bridges(cfg.machine.network), network_bridges(cfg.machine.network).len() as int);
    let net = seq!["-netdev"@, usernet, "-device"@, "e1000,netdev=unet"@];
    let v = vfio_args(slots, slots.len() as int);
    let rest = usb_args(cfg.machine.usb_devices@, found, cfg.machine.usb_devices@.len() as int)
        + storage_args(cfg.machine.storage@, cfg.machine.storage@.len() as int);
    law_vfio_args_one_per_slot(slots, slots.len() as int);
    assert(a =~= pre + net + v + rest);
    let p = pre.len() + 4;
    assert(a[p - 4] == "-netdev"@);
    assert(a[p - 3] == usernet);
    assert(a[p - 2] == "-device"@);
    assert(a[p - 1] == "e1000,netdev=unet"@);
    assert forall|k: int| 0 <= k < slots.len() implies {
        &&& #[trigger] a[p + 2 * k] == "-device"@
        &&& a[p + 2 * k + 1] == "vfio-pci,host="@ + slots[k].spec_display() + ",multifunction=on"@
    } by {
        assert(a[p + 2 * k] == v[2 * k]);
        assert(a[p + 2 * k + 1] == v[2 * k + 1]);
        assert((2 * k) % 2 == 0);
        assert((2 * k + 1) % 2 == 1 && (2 * k + 1) / 2 == k);
    }
}


/// The four arguments that start at position `p + 4k`.
pub open spec fn quad_at(s: Seq<Seq<char>>, p: int, k: int) -> Seq<Seq<char>> {
    s.subrange(p + 4 * k, p + 4 * k + 4)
}

/// The arguments that attach drive `k`: the drive itself, named `disk<k>`,
/// and the SCSI disk in front of it.
pub open spec fn drive_quad(d: StorageDevice, k: nat) -> Seq<Seq<char>> {
    seq![
        "-drive"@,
        "file="@ + d.path@ + ",id=disk"@ + decimal(k) + ",format="@ + d.format@ + ",if=none,cache="@ + d.cache@
            + ",aio=native"@,
        "-device"@,
        "scsi-hd,drive=disk"@ + decimal(k),
    ]
}

/// The arguments that put bridge `k` on the network: the bridge netdev named
/// `bridge<k>` and the e1000 card on it.
pub open spec fn bridge_quad(br: String, k: nat) -> Seq<Seq<char>> {
    seq!["-netdev"@, "bridge,id=bridge"@ + decimal(k) + ",br="@ + br@, "-device"@, "e1000,netdev=bridge"@ + decimal(k)]
}

/// Every drive gets its four arguments, in order, drive `k` at position `4k`.
pub proof fn law_storage_args_one_per_drive(drives: Seq<StorageDevice>, n: int)
    requires
        0 <= n <= drives.len(),
    ensures
        storage_args(drives, n).len() == 4 * n,
        forall|k: int| 0 <= k < n ==> #[trigger] quad_at(storage_args(drives, n), 0, k) == drive_quad(drives[k], k as nat),
    decreases n,
{
    if n > 0 {
        law_storage_args_one_per_drive(drives, n - 1);
        let prev = storage_args(drives, n - 1);
        let cur = storage_args(drives, n);
        assert forall|k: int| 0 <= k < n implies #[trigger] quad_at(cur, 0, k) == drive_quad(drives[k], k as nat) by {
            if k < n - 1 {
                assert(quad_at(cur, 0, k) =~= quad_at(prev, 0, k));
            } else {
                assert(quad_at(cur, 0, k) =~= drive_quad(drives[k], k as nat));
            }
        }
    }
}

/// Every bridge gets its four arguments, in order, bridge `k` at position `4k`.
pub proof fn law_bridge_args_one_per_bridge(bridges: Seq<String>, n: int)
    requires
        0 <= n <= bridges.len(),
    ensures
        bridge_args(bridges, n).len() == 4 * n,
        forall|k: int| 0 <= k < n ==> #[trigger] quad_at(bridge_args(bridges, n), 0, k) == bridge_quad(bridges[k], k as nat),
    decreases n,
{
    if n > 0 {
        law_bridge_args_one_per_bridge(bridges, n - 1);
        let prev = bridge_args(bridges, n - 1);
        let cur = bridge_args(bridges, n);
        assert forall|k: int| 0 <= k < n implies #[trigger] quad_at(cur, 0, k) == bridge_quad(bridges[k], k as nat) by {
            if k < n - 1 {
                assert(quad_at(cur, 0, k) =~= quad_at(prev, 0, k));
            } else {
                assert(quad_at(cur, 0, k) =~= bridge_quad(bridges[k], k as nat));
            }
        }
    }
}

/// qemu's command line ends with the drives: for `d` configured drives, the
/// last `4d` arguments attach drive `k` at position `4k` among them.
pub proof fn law_qemu_args_end_with_drives(cfg: Config, tmp: Seq<char>, data: Seq<char>, usernet: Seq<char>,
    found: Seq<Option<(String, String)>>)
    ensures
        ({
            let a = spec_qemu_args(cfg, tmp, data, usernet, found);
            let d = cfg.machine.storage@;
            &&& 4 * d.len() <= a.len()
            &&& forall|k: int| 0 <= k < d.len() ==>
                #[trigger] quad_at(a, a.len() - 4 * d.len(), k) == drive_quad(d[k], k as nat)
        }),
{
    let a = spec_qemu_args(cfg, tmp, data, usernet, found);
    let d = cfg.machine.storage@;
    let st = storage_args(d, d.len() as int);
    law_storage_args_one_per_drive(d, d.len() as int);
    let pre = base_args(spec_path_join(tmp, "monitor.sock"@), spec_path_join(data, "ovmf-code.fd"@),
        spec_path_join(tmp, "efivars.fd"@))
        + setup_args(cfg.setup)
        + machine_args(cfg.machine)
        + bridge_args(network_bridges(cfg.machine.network), network_bridges(cfg.machine.network).len() as int)
        + seq!["-netdev"@, usernet, "-device"@, "e1000,netdev=unet"@]
        + vfio_args(cfg.machine.vfio_slots@, cfg.machine.vfio_slots@.len() as int)
        + usb_args(cfg.machine.usb_devices@, found, cfg.machine.usb_devices@.len() as int);
    assert(a =~= pre + st);
    assert forall|k: int| 0 <= k < d.len() implies
        #[trigger] quad_at(a, a.len() - 4 * d.len(), k) == drive_quad(d[k], k as nat) by {
        assert(quad_at(a, a.len() - 4 * d.len(), k) =~= quad_at(st, 0, k));
    }
}

/// qemu's command line puts every network bridge on the network, in order:
/// right before the user network come, for each bridge `k`, its four
/// arguments.
pub proof fn law_qemu_args_bridges(cfg: Config, tmp: Seq<char>, data: Seq<char>, usernet: Seq<char>,
    found: Seq<Option<(String, String)>>)
    ensures
        ({
            let a = spec_qemu_args(cfg, tmp, data, usernet, found);
            let b = network_bridges(cfg.machine.network);
            exists|p: int| 0 <= p && p + 4 * b.len() + 4 <= a.len()
                && #[trigger] a[p + 4 * b.len()] == "-netdev"@ && a[p + 4 * b.len() + 1] == usernet
                && forall|k: int| 0 <= k < b.len() ==> #[trigger] quad_at(a, p, k) == bridge_quad(b[k], k as nat)
        }),
{
    let a = spec_qemu_args(cfg, tmp, data, usernet, found);
    let b = network_bridges(cfg.machine.network);
    let br = bridge_args(b, b.len() as int);
    law_bridge_args_one_per_bridge(b, b.len() as int);
    let pre = base_args(spec_path_join(tmp, "monitor.sock"@), spec_path_join(data, "ovmf-code.fd"@),
        spec_path_join(tmp, "efivars.fd"@))
        + setup_args(cfg.setup)
        + machine_args(cfg.machine);
    let rest = seq!["-netdev"@, usernet, "-device"@, "e1000,netdev=unet"@]
        + vfio_args(cfg.machine.vfio_slots@, cfg.machine.vfio_slots@.len() as int)
        + usb_args(cfg.machine.usb_devices@, found, cfg.machine.usb_devices@.len() as int)
        + storage_args(cfg.machine.storage@, cfg.machine.storage@.len() as int);
    assert(a =~= pre + br + rest);
    let p = pre.len() as int;
    assert(a[p + 4 * b.len()] == "-netdev"@);
    assert(a[p + 4 * b.len() + 1] == usernet);
    assert forall|k: int| 0 <= k < b.len() implies #[trigger] quad_at(a, p, k) == bridge_quad(b[k], k as nat) by {
        assert(quad_at(a, p, k) =~= quad_at(br, 0, k));
    }
}


/// How many of the first `n` USB devices are permanent and connected.
pub open spec fn permanent_found_before(devs: Seq<UsbDevice>, found: Seq<Option<(String, String)>>, n: int) -> int
    decreases n,
{
    if n <= 0 {
        0
    } else {
        permanent_found_before(devs, found, n - 1) + if devs[n - 1].permanent && found[n - 1] is Some { 1int } else { 0int }
    }
}

/// The two arguments that pass host device `host` through on xHCI port `port`.
pub open spec fn usb_host_pair(host: (String, String), port: nat) -> Seq<Seq<char>> {
    seq!["-device"@, "usb-host,hostbus="@ + host.0@ + ",hostaddr="@ + host.1@ + ",bus=xhci.0,port="@ + decimal(port)]
}

proof fn lemma_permanent_found_nonneg(devs: Seq<UsbDevice>, found: Seq<Option<(String, String)>>, n: int)
    ensures
        0 <= permanent_found_before(devs, found, n),
    decreases n,
{
    if n > 0 {
        lemma_permanent_found_nonneg(devs, found, n - 1);
    }
}

proof fn lemma_permanent_found_grows(devs: Seq<UsbDevice>, found: Seq<Option<(String, String)>>, i: int, j: int)
    requires
        0 <= i <= j,
    ensures
        0 <= permanent_found_before(devs, found, i) <= permanent_found_before(devs, found, j),
    decreases j - i,
{
    if i < j {
        lemma_permanent_found_grows(devs, found, i, j - 1);
    } else {
        lemma_permanent_found_nonneg(devs, found, i);
    }
}

/// Exactly the permanent USB devices that are connected are passed through,
/// in configuration order, each with its host bus and address and on the
/// xHCI port numbered after its position (from 1); the others add nothing.
pub proof fn law_usb_args_permanent_devices(devs: Seq<UsbDevice>, found: Seq<Option<(String, String)>>, n: int)
    requires
        0 <= n <= devs.len(),
        n <= found.len(),
    ensures
        usb_args(devs, found, n).len() == 2 * permanent_found_before(devs, found, n),
        forall|i: int| #![trigger permanent_found_before(devs, found, i)]
            0 <= i < n && devs[i].permanent && found[i] is Some ==> usb_args(devs, found, n).subrange(
                2 * permanent_found_before(devs, found, i), 2 * permanent_found_before(devs, found, i) + 2)
                == usb_host_pair(found[i]->0, (i + 1) as nat),
    decreases n,
{
    if n > 0 {
        law_usb_args_permanent_devices(devs, found, n - 1);
        let prev = usb_args(devs, found, n - 1);
        let cur = usb_args(devs, found, n);
        assert forall|i: int| #![trigger permanent_found_before(devs, found, i)]
            0 <= i < n && devs[i].permanent && found[i] is Some implies cur.subrange(
                2 * permanent_found_before(devs, found, i), 2 * permanent_found_before(devs, found, i) + 2)
                == usb_host_pair(found[i]->0, (i + 1) as nat) by {
            let c = permanent_found_before(devs, found, i);
            lemma_permanent_found_nonneg(devs, found, i);
            if i < n - 1 {
                lemma_permanent_found_grows(devs, found, i + 1, n - 1);
                assert(permanent_found_before(devs, found, i + 1) == c + 1);
                assert(cur.subrange(2 * c, 2 * c + 2) =~= prev.subrange(2 * c, 2 * c + 2));
            } else {
                assert(cur.subrange(2 * c, 2 * c + 2) =~= usb_host_pair(found[i]->0, (i + 1) as nat));
            }
        }
    }
}

} // verus!
