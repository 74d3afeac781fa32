//! The machine configuration: PCI and USB devices to pass through, hotkeys,
//! sound, storage and network settings, and the state of the setup wizard.
use vstd::prelude::*;
use crate::text::{hex4, decimal, push_hex4, push_decimal, push_str};

verus! {

/// A PCI vendor/device id pair.
#[derive(Debug, Clone, Copy, PartialEq, Eq, Structural, Hash)]
pub struct PciId {
    pub vendor: u16,
    pub device: u16,
}

/// A USB vendor/product id pair.
#[derive(Debug, Clone, Copy, PartialEq, Eq, Structural, Hash)]
pub struct UsbId {
    pub vendor: u16,
    pub product: u16,
}

/// A physical USB port: bus number and device path on that bus.
#[derive(Debug, Clone, PartialEq, Eq, Hash)]
pub struct UsbPort {
    pub bus: u16,
    pub port: String,
}

/// How a USB device is found on the host.
#[derive(Debug, Clone, PartialEq)]
pub enum UsbBinding {
    ById(UsbId),
    ByPort(UsbPort),
}

/// Host controller kinds a USB device can be attached to.
#[derive(Debug, Clone, Copy, PartialEq, Eq, Structural, Hash)]
pub enum UsbBus {
    Ohci,
    Uhci,
    Ehci,
    Xhci,
}

/// A USB device to be passed through to the guest.
#[derive(Debug, Clone, PartialEq)]
pub struct UsbDevice {
    pub binding: UsbBinding,
    pub permanent: bool,
    pub bus: UsbBus,
}

/// A hotkey: its key combination (as text) and what it triggers.
#[derive(Debug, Clone)]
pub struct HotKey {
    pub key: String,
    pub action: HotKeyAction,
}

/// What a hotkey triggers: a shell command or a built-in action.
#[derive(Debug, Clone)]
pub enum HotKeyAction {
    Exec(String),
    Action(Action),
}

/// Built-in actions.
#[derive(Debug, Clone, Copy, PartialEq, Eq, Structural)]
pub enum Action {
    IoEntry,
    IoEntryForced,
    IoExit,
}

/// The whole configuration file.
#[derive(Debug, Clone)]
pub struct Config {
    pub machine: MachineConfig,
    pub sound: SoundConfig,
    pub samba: Option<SambaConfig>,
    pub setup: Option<SetupConfig>,
}

#[derive(Debug, Clone)]
pub struct SoundConfig {
    pub timer_period: usize,
    pub input: SoundSettings,
    pub output: SoundSettings,
    pub backend: SoundBackend,
}

#[derive(Debug, Clone)]
pub struct SoundSettings {
    pub voices: usize,
    pub use_polling: bool,
    pub fixed: Option<SoundFixedSettings>,
}

#[derive(Debug, Clone)]
pub struct SoundFixedSettings {
    pub frequency: usize,
    pub format: String,
    pub channels: usize,
}

#[derive(Debug, Clone)]
pub enum SoundBackend {
    NoBackend,
    Alsa { sink: AlsaSettings, source: AlsaSettings },
    PulseAudio {
        buffer_samples: usize,
        server: Option<String>,
        sink_name: Option<String>,
        source_name: Option<String>,
    },
}

#[derive(Debug, Clone)]
pub struct AlsaSettings {
    pub name: String,
    pub unit: AlsaUnit,
    pub buffer_size: usize,
    pub period_size: usize,
}

#[derive(Debug, Clone, Copy, PartialEq, Eq, Structural)]
pub enum AlsaUnit {
    Frames,
    MicroSeconds,
}

/// Options for the installation run and the progress of the setup wizard.
#[derive(Debug, Clone)]
pub struct SetupConfig {
    pub cdrom: Option<String>,
    pub floppy: Option<String>,
    pub gui: bool,
    pub iommu_commanded: bool,
    /// By convention the GPU comes first.
    pub vfio_devs: Vec<PciId>,
    pub reboot_commanded: bool,
}

#[derive(Debug, Clone)]
pub struct MachineConfig {
    pub memory: String,
    pub hugepages: Option<bool>,
    pub cores: usize,
    pub threads: Option<u32>,
    /// By convention the GPU comes first.
    pub vfio_slots: Vec<VfioDevice>,
    pub network: Option<NetworkConfig>,
    pub storage: Vec<StorageDevice>,
    pub usb_devices: Vec<UsbDevice>,
    pub hotkeys: Vec<HotKey>,
}

#[derive(Debug, Clone)]
pub struct StorageDevice {
    pub path: String,
    pub cache: String,
    pub format: String,
}

#[derive(Debug, Clone)]
pub enum VfioDevice {
    Permanent(String),
    Temporarily(String),
}

#[derive(Debug, Clone)]
pub struct NetworkConfig {
    pub bridges: Vec<String>,
}

#[derive(Debug, Clone)]
pub struct SambaConfig {
    pub user: String,
    pub path: String,
}

/// Devices are not attached permanently unless configured so.
pub fn default_usbdevice_permanent() -> (r: bool)
    ensures
        r == false,
{
    false
}

/// Devices go to the xHCI controller unless configured otherwise.
pub fn default_usbdevice_bus() -> (r: UsbBus)
    ensures
        r == UsbBus::Xhci,
{
    UsbBus::Xhci
}

impl Default for UsbBus {
    fn default() -> (r: UsbBus)
        ensures
            r == UsbBus::Xhci,
    {
        UsbBus::Xhci
    }
}

/// The hotkey set used when the configuration names none.
pub fn machineconfig_hotkeys_default() -> (r: Vec<HotKey>)
    ensures
        r@.len() == 1,
        r@[0].key@ == "Ctrl+Alt+NoRepeat+Insert"@,
        r@[0].action matches HotKeyAction::Action(Action::IoExit),
{
    vec![HotKey { key: "Ctrl+Alt+NoRepeat+Insert".to_owned(), action: HotKeyAction::Action(Action::IoExit) }]
}

impl Default for SoundSettings {
    fn default() -> (r: SoundSettings)
        ensures
            r.voices == 1,
            r.use_polling == true,
            r.fixed is None,
    {
        SoundSettings { voices: 1, use_polling: true, fixed: None }
    }
}

impl Default for SoundBackend {
    fn default() -> (r: SoundBackend)
        ensures
            r is NoBackend,
    {
        SoundBackend::NoBackend
    }
}

impl Default for SoundConfig {
    fn default() -> (r: SoundConfig)
        ensures
            r.timer_period == 100,
            r.input.voices == 1 && r.input.use_polling && r.input.fixed is None,
            r.output.voices == 1 && r.output.use_polling && r.output.fixed is None,
            r.backend is NoBackend,
    {
        SoundConfig {
            timer_period: 100,
            input: SoundSettings::default(),
            output: SoundSettings::default(),
            backend: SoundBackend::default(),
        }
    }
}

impl Default for AlsaSettings {
    fn default() -> (r: AlsaSettings)
        ensures
            r.name@ == "default"@,
            r.unit == AlsaUnit::Frames,
            r.buffer_size == 0,
            r.period_size == 0,
    {
        AlsaSettings { name: "default".to_owned(), unit: AlsaUnit::Frames, buffer_size: 0, period_size: 0 }
    }
}

impl Default for SetupConfig {
    fn default() -> (r: SetupConfig)
        ensures
            r.cdrom is None && r.floppy is None,
            !r.gui && !r.iommu_commanded && !r.reboot_commanded,
            r.vfio_devs@.len() == 0,
    {
        SetupConfig {
            cdrom: None,
            floppy: None,
            gui: false,
            iommu_commanded: false,
            vfio_devs: Vec::new(),
            reboot_commanded: false,
        }
    }
}

impl Default for MachineConfig {
    fn default() -> (r: MachineConfig)
        ensures
            r.memory@.len() == 0,
            r.hugepages is None && r.cores == 0 && r.threads is None,
            r.vfio_slots@.len() == 0 && r.network is None && r.storage@.len() == 0,
            r.usb_devices@.len() == 0 && r.hotkeys@.len() == 0,
    {
        MachineConfig {
            memory: String::new(),
            hugepages: None,
            cores: 0,
            threads: None,
            vfio_slots: Vec::new(),
            network: None,
            storage: Vec::new(),
            usb_devices: Vec::new(),
            hotkeys: Vec::new(),
        }
    }
}

impl Default for Config {
    fn default() -> (r: Config)
        ensures
            r.machine.memory@.len() == 0 && r.machine.usb_devices@.len() == 0,
            r.machine.hotkeys@.len() == 0 && r.machine.vfio_slots@.len() == 0,
            r.sound.timer_period == 100 && r.sound.backend is NoBackend,
            r.samba is None && r.setup is None,
    {
        Config {
            machine: MachineConfig::default(),
            sound: SoundConfig::default(),
            samba: None,
            setup: None,
        }
    }
}

impl UsbBus {
    /// The controller's name as it appears in qemu bus names.
    pub open spec fn spec_name(self) -> Seq<char> {
        match self {
            UsbBus::Ohci => "ohci"@,
            UsbBus::Uhci => "uhci"@,
            UsbBus::Ehci => "ehci"@,
            UsbBus::Xhci => "xhci"@,
        }
    }

    pub fn name(&self) -> (r: &'static str)
        ensures
            r@ == self.spec_name(),
    {
        match self {
            UsbBus::Ohci => "ohci",
            UsbBus::Uhci => "uhci",
            UsbBus::Ehci => "ehci",
            UsbBus::Xhci => "xhci",
        }
    }

    /// Position of the controller kind in the declared order (used for sorting).
    pub open spec fn spec_rank(self) -> u8 {
        match self {
            UsbBus::Ohci => 0,
            UsbBus::Uhci => 1,
            UsbBus::Ehci => 2,
            UsbBus::Xhci => 3,
        }
    }

    pub fn rank(&self) -> (r: u8)
        ensures
            r == self.spec_rank(),
    {
        match self {
            UsbBus::Ohci => 0,
            UsbBus::Uhci => 1,
            UsbBus::Ehci => 2,
            UsbBus::Xhci => 3,
        }
    }
}

impl PciId {
    /// `vvvv:dddd` in lower-case hexadecimal.
    pub open spec fn spec_display(self) -> Seq<char> {
        hex4(self.vendor) + seq![':'] + hex4(self.device)
    }

    pub fn display(&self) -> (r: String)
        ensures
            r@ == self.spec_display(),
    {
        let mut s = String::new();
        push_hex4(&mut s, self.vendor);
        push_str(&mut s, ":");
        push_hex4(&mut s, self.device);
        proof { reveal_strlit(":"); }
        assert(s@ =~= self.spec_display());
        s
    }
}

impl UsbId {
    /// `vvvv:pppp` in lower-case hexadecimal.
    pub open spec fn spec_display(self) -> Seq<char> {
        hex4(self.vendor) + seq![':'] + hex4(self.product)
    }

    pub fn display(&self) -> (r: String)
        ensures
            r@ == self.spec_display(),
    {
        let mut s = String::new();
        push_hex4(&mut s, self.vendor);
        push_str(&mut s, ":");
        push_hex4(&mut s, self.product);
        proof { reveal_strlit(":"); }
        assert(s@ =~= self.spec_display());
        s
    }
}

impl UsbPort {
    /// `bus.port` with the bus in decimal.
    pub open spec fn spec_display(self) -> Seq<char> {
        decimal(self.bus as nat) + seq!['.'] + self.port@
    }

    pub fn display(&self) -> (r: String)
        ensures
            r@ == self.spec_display(),
    {
        let mut s = String::new();
        push_decimal(&mut s, self.bus as u64);
        push_str(&mut s, ".");
        push_str(&mut s, self.port.as_str());
        proof { reveal_strlit("."); }
        assert(s@ =~= self.spec_display());
        s
    }

    /// Two ports are the same when bus and path agree.
    pub fn same(&self, other: &UsbPort) -> (r: bool)
        ensures
            r == (self.bus == other.bus && self.port@ == other.port@),
    {
        self.bus == other.bus && self.port == other.port
    }
}

impl UsbBinding {
    /// Whether this binding selects the device by exactly this id.
    pub fn is_id(&self, id: &UsbId) -> (r: bool)
        ensures
            r == (self matches UsbBinding::ById(i) && i == *id),
    {
        match self {
            UsbBinding::ById(i) => i.vendor == id.vendor && i.product == id.product,
            UsbBinding::ByPort(_) => false,
        }
    }

    /// Whether this binding selects the device by exactly this port.
    pub fn is_port(&self, port: &UsbPort) -> (r: bool)
        ensures
            r == (self matches UsbBinding::ByPort(p) && p.bus == port.bus && p.port@ == port.port@),
    {
        match self {
            UsbBinding::ById(_) => false,
            UsbBinding::ByPort(p) => p.same(port),
        }
    }
}

impl VfioDevice {
    /// The name under which the device kind is displayed.
    pub open spec fn spec_display(self) -> Seq<char> {
        match self {
            VfioDevice::Permanent(_) => "Permanent"@,
            VfioDevice::Temporarily(_) => "Temporarily"@,
        }
    }

    pub fn display(&self) -> (r: &'static str)
        ensures
            r@ == self.spec_display(),
    {
        match self {
            VfioDevice::Permanent(_) => "Permanent",
            VfioDevice::Temporarily(_) => "Temporarily",
        }
    }
}

/// Which file a configuration is read from.
#[derive(Debug, Clone, Copy, PartialEq, Eq, Structural)]
pub enum ConfigLoadPlan {
    /// Neither file exists: there is no configuration.
    Missing,
    /// Read the YAML file.
    ReadYaml,
    /// Read the old TOML file, then save it as YAML.
    UpgradeToml,
}

/// Decides where the configuration comes from: the YAML file when it exists,
/// otherwise an old TOML file (which is then upgraded), otherwise nothing.
pub fn config_load_plan(yaml_exists: bool, toml_exists: bool) -> (r: ConfigLoadPlan)
    ensures
        yaml_exists ==> r == ConfigLoadPlan::ReadYaml,
        !yaml_exists && toml_exists ==> r == ConfigLoadPlan::UpgradeToml,
        !yaml_exists && !toml_exists ==> r == ConfigLoadPlan::Missing,
{
    if yaml_exists {
        ConfigLoadPlan::ReadYaml
    } else if toml_exists {
        ConfigLoadPlan::UpgradeToml
    } else {
        ConfigLoadPlan::Missing
    }
}

} // verus!
