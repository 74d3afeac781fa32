use windows_gaming_driver::config::{Config, SetupConfig, StorageDevice, NetworkConfig, VfioDevice, UsbDevice, UsbBinding,
    UsbId, UsbBus, SoundConfig, SoundBackend, SoundFixedSettings, AlsaSettings, AlsaUnit};
use windows_gaming_driver::qemu::{qemu_args, qemu_env, path_join, usernet};

fn s(v: &str) -> String {
    v.to_string()
}

#[test]
fn paths_join_like_path_join() {
    assert_eq!(path_join("/tmp/wgd", "monitor.sock"), "/tmp/wgd/monitor.sock");
    assert_eq!(path_join("/tmp/wgd/", "monitor.sock"), "/tmp/wgd/monitor.sock");
    assert_eq!(path_join("", "x"), "x");
    assert_eq!(usernet("/t/clientpipe.sock"), "user,id=unet,restrict=on,guestfwd=tcp:10.0.2.1:31337-unix:/t/clientpipe.sock");
}

#[test]
fn command_line_of_minimal_machine() {
    let mut cfg = Config::default();
    cfg.machine.memory = s("8G");
    cfg.machine.cores = 4;
    let args = qemu_args(&cfg, "/tmp/w", "/usr/share/w", "NET", &vec![]);
    let expected: Vec<String> = [
        "-enable-kvm", "-machine", "q35", "-cpu",
        "host,kvm=off,hv_time,hv_relaxed,hv_vapic,hv_spinlocks=0x1fff,hv_vendor_id=NvidiaFuckU",
        "-rtc", "base=localtime", "-nodefaults", "-usb", "-net", "none", "-display", "none", "-vga", "none",
        "-qmp", "unix:/tmp/w/monitor.sock",
        "-drive", "if=pflash,format=raw,readonly,file=/usr/share/w/ovmf-code.fd",
        "-drive", "if=pflash,format=raw,file=/tmp/w/efivars.fd",
        "-device", "qemu-xhci,id=xhci", "-device", "virtio-scsi-pci,id=scsi",
        "-m", "8G", "-smp", "cores=4,threads=1", "-soundhw", "hda",
        "-netdev", "NET", "-device", "e1000,netdev=unet",
    ].iter().map(|x| s(x)).collect();
    assert_eq!(args, expected);
}

#[test]
fn command_line_of_full_machine() {
    let mut cfg = Config::default();
    cfg.machine.memory = s("4G");
    cfg.machine.cores = 2;
    cfg.machine.threads = Some(2);
    cfg.machine.hugepages = Some(true);
    cfg.machine.network = Some(NetworkConfig { bridges: vec![s("br0"), s("br1")] });
    cfg.machine.vfio_slots = vec![VfioDevice::Permanent(s("0000:01:00.0"))];
    cfg.machine.storage = vec![StorageDevice { path: s("/dev/sdb"), cache: s("none"), format: s("raw") }];
    let dev = |p: bool| UsbDevice { binding: UsbBinding::ById(UsbId { vendor: 1, product: 2 }), permanent: p, bus: UsbBus::Xhci };
    cfg.machine.usb_devices = vec![dev(false), dev(true), dev(true)];
    let mut setup = SetupConfig::default();
    setup.gui = true;
    setup.cdrom = Some(s("/iso/win.iso"));
    setup.floppy = Some(s("/d/virtio-win.vfd"));
    cfg.setup = Some(setup);
    let found = vec![Some((s("1"), s("2"))), None, Some((s("3"), s("4")))];
    let args = qemu_args(&cfg, "/t", "/d", "U", &found);
    let tail: Vec<String> = args[25..].to_vec();
    let expected: Vec<String> = [
        "-display", "gtk", "-vga", "qxl", "-cdrom", "/iso/win.iso",
        "-drive", "file=/d/virtio-win.vfd,index=0,if=floppy,readonly",
        "-mem-path", "/dev/hugepages_vfio_1G/", "-mem-prealloc",
        "-m", "4G", "-smp", "cores=2,threads=2", "-soundhw", "hda",
        "-netdev", "bridge,id=bridge0,br=br0", "-device", "e1000,netdev=bridge0",
        "-netdev", "bridge,id=bridge1,br=br1", "-device", "e1000,netdev=bridge1",
        "-netdev", "U", "-device", "e1000,netdev=unet",
        "-device", "vfio-pci,host=Permanent,multifunction=on",
        "-device", "usb-host,hostbus=3,hostaddr=4,bus=xhci.0,port=3",
        "-drive", "file=/dev/sdb,id=disk0,format=raw,if=none,cache=none,aio=native",
        "-device", "scsi-hd,drive=disk0",
    ].iter().map(|x| s(x)).collect();
    assert_eq!(tail, expected);
}

fn env_of(sound: &SoundConfig) -> Vec<(String, Option<String>)> {
    qemu_env(sound)
}

#[test]
fn default_audio_environment() {
    let env = env_of(&SoundConfig::default());
    let expected: Vec<(String, Option<String>)> = [
        ("QEMU_AUDIO_TIMER_PERIOD", "100"), ("QEMU_AUDIO_DAC_VOICES", "1"), ("QEMU_AUDIO_DAC_TRY_POLL", "1"),
        ("QEMU_AUDIO_DAC_FIXED_SETTINGS", "0"), ("QEMU_AUDIO_ADC_VOICES", "1"), ("QEMU_AUDIO_ADC_TRY_POLL", "1"),
        ("QEMU_AUDIO_ADC_FIXED_SETTINGS", "0"), ("QEMU_AUDIO_DRV", "none"),
    ].iter().map(|(a, b)| (s(a), Some(s(b)))).collect();
    assert_eq!(env, expected);
}

#[test]
fn alsa_and_fixed_environment() {
    let mut sound = SoundConfig::default();
    sound.output.use_polling = false;
    sound.output.fixed = Some(SoundFixedSettings { frequency: 48000, format: s("s16"), channels: 2 });
    sound.backend = SoundBackend::Alsa {
        sink: AlsaSettings { name: s("hw:0"), unit: AlsaUnit::MicroSeconds, buffer_size: 10, period_size: 5 },
        source: AlsaSettings::default(),
    };
    let env = env_of(&sound);
    assert_eq!(env[2], (s("QEMU_AUDIO_DAC_TRY_POLL"), Some(s("0"))));
    assert_eq!(env[4], (s("QEMU_AUDIO_DAC_FIXED_FREQ"), Some(s("48000"))));
    assert_eq!(env[5], (s("QEMU_AUDIO_DAC_FIXED_FMT"), Some(s("s16"))));
    assert_eq!(env[8], (s("QEMU_AUDIO_ADC_TRY_POLL"), Some(s("0"))));
    assert_eq!(env[10], (s("QEMU_AUDIO_DRV"), Some(s("alsa"))));
    assert_eq!(env[12], (s("QEMU_ALSA_DAC_SIZE_IN_USEC"), Some(s("1"))));
    assert_eq!(env[16], (s("QEMU_ALSA_ADC_SIZE_IN_USEC"), Some(s("0"))));
    assert_eq!(env.len(), 19);
}

#[test]
fn pulse_environment_removes_unset_options() {
    let mut sound = SoundConfig::default();
    sound.backend = SoundBackend::PulseAudio { buffer_samples: 512, server: None, sink_name: Some(s("out")), source_name: None };
    let env = env_of(&sound);
    let n = env.len();
    assert_eq!(env[n - 5], (s("QEMU_AUDIO_DRV"), Some(s("pa"))));
    assert_eq!(env[n - 4], (s("QEMU_PA_SAMPLES"), Some(s("512"))));
    assert_eq!(env[n - 3], (s("QEMU_PA_SERVER"), None));
    assert_eq!(env[n - 2], (s("QEMU_PA_SINK"), Some(s("out"))));
    assert_eq!(env[n - 1], (s("QEMU_PA_SOURCE"), None));
}
