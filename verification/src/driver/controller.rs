//! The driver's controller: a state machine over the guest agent's state and
//! the state of input passthrough. It decides what to send to qemu's monitor
//! and to the guest agent; the commands it decides on are queued as effects
//! that the event loop carries out in order.
use vstd::prelude::*;
use crate::config::{MachineConfig, UsbDevice, UsbBus, HotKeyAction, Action};
use crate::hotkeys::{KeyBinding, KeyBindingView, spec_to_windows};
use crate::monitor::{QmpCommand, QmpCommandView};
use crate::text::{decimal, push_decimal, push_str};
use crate::util::spec_usable_ports;
use super::clientpipe::{GaCmdOut, GaCmdOutView, ClipboardMessage, ClipboardMessageView, RegisterHotKey};
use super::clipboard::{ClipboardRequestEvent, ClipboardRequestResponse, ClipboardResponse};
use super::attach::attach_effects;

verus! {

/// The guest agent's state as the controller sees it.
#[derive(Debug, Clone, Copy, PartialEq, Eq, Structural)]
pub enum GaState {
    /// The guest agent is down.
    Down,
    /// The guest agent is up.
    Up,
    /// A ping is waiting for its answer.
    Pinging,
    /// Windows is suspending.
    Suspending,
    /// Windows is suspended.
    Suspended,
    /// Windows is waking up from suspend.
    Resuming,
}

/// How far input is passed to the guest.
#[derive(Debug, Clone, Copy, PartialEq, Eq, Structural)]
pub enum IoState {
    Detached,
    /// Keyboard and mouse events are forwarded through qemu.
    LightEntry,
    /// Light entry, to be upgraded to full entry when the guest agent comes up.
    AwaitingUpgrade,
    /// The USB devices are attached to the guest.
    FullEntry,
}

/// Work the controller hands to the event loop.
#[derive(Debug)]
pub enum Effect {
    /// Send a command to qemu's monitor.
    Monitor(QmpCommand),
    /// Send a command to the guest agent.
    Ga(GaCmdOut),
    /// Send raw bytes to a guest agent that speaks the byte protocol.
    GaRaw(Vec<u8>),
    /// Tell systemd that the driver is ready.
    NotifyReady,
    /// Start grabbing the configured input devices.
    InputResume,
    /// Release the configured input devices.
    InputSuspend,
    /// Run a shell command.
    Exec(String),
    /// Answer all pending suspend requests: the guest is suspended.
    SuspendCompleted,
    /// Take ownership of the X11 clipboard.
    X11Grab,
    /// Ask the X11 clipboard owner for its contents.
    X11Read,
    /// Answer a pending X11 selection request.
    X11Respond(ClipboardRequestResponse),
}

/// The mathematical content of an effect.
#[verifier::ext_equal]
pub enum EffectView {
    Monitor(QmpCommandView),
    Ga(GaCmdOutView),
    GaRaw(Seq<u8>),
    NotifyReady,
    InputResume,
    InputSuspend,
    Exec(Seq<char>),
    SuspendCompleted,
    X11Grab,
    X11Read,
    X11RespondData(ClipboardRequestEvent, Seq<u8>),
    X11RespondTypes(ClipboardRequestEvent, Seq<super::clientpipe::ClipboardType>),
}

impl View for Effect {
    type V = EffectView;

    open spec fn view(&self) -> EffectView {
        match self {
            Effect::Monitor(c) => EffectView::Monitor(c@),
            Effect::Ga(c) => EffectView::Ga(c@),
            Effect::GaRaw(b) => EffectView::GaRaw(b@),
            Effect::NotifyReady => EffectView::NotifyReady,
            Effect::InputResume => EffectView::InputResume,
            Effect::InputSuspend => EffectView::InputSuspend,
            Effect::Exec(s) => EffectView::Exec(s@),
            Effect::SuspendCompleted => EffectView::SuspendCompleted,
            Effect::X11Grab => EffectView::X11Grab,
            Effect::X11Read => EffectView::X11Read,
            Effect::X11Respond(r) => match &r.response {
                ClipboardResponse::Data(d) => EffectView::X11RespondData(r.event, d@),
                ClipboardResponse::Types(t) => EffectView::X11RespondTypes(r.event, t@),
            },
        }
    }
}

/// Where each USB device can be found on the host, by device index: bus and
/// address, or nothing when the device is not connected.
pub type UsbResolution = Vec<Option<(String, String)>>;

/// A hotkey as the driver's configuration gives it: the key binding the
/// guest agent registers, and what it triggers.
pub struct BoundHotKey {
    pub key: KeyBinding,
    pub action: HotKeyAction,
}

/// The controller of one virtual machine.
pub struct Controller {
    machine_config: MachineConfig,
    hotkeys: Vec<BoundHotKey>,
    ga: GaState,
    io_state: IoState,
    suspend_waiters: usize,
    win_clipboard_request: Option<ClipboardRequestEvent>,
    effects: Vec<Effect>,
}

/// The mathematical content of a controller.
#[verifier::ext_equal]
pub struct ControllerView {
    pub usb_devices: Seq<UsbDevice>,
    pub hotkeys: Seq<HotKeyAction>,
    pub bindings: Seq<KeyBindingView>,
    pub ga: GaState,
    pub io_state: IoState,
    pub suspend_waiters: nat,
    pub win_clipboard_request: Option<ClipboardRequestEvent>,
    pub effects: Seq<EffectView>,
}

impl View for Controller {
    type V = ControllerView;

    closed spec fn view(&self) -> ControllerView {
        ControllerView {
            usb_devices: self.machine_config.usb_devices@,
            hotkeys: self.hotkeys@.map_values(|h: BoundHotKey| h.action),
            bindings: self.hotkeys@.map_values(|h: BoundHotKey| h.key@),
            ga: self.ga,
            io_state: self.io_state,
            suspend_waiters: self.suspend_waiters as nat,
            win_clipboard_request: self.win_clipboard_request,
            effects: self.effects@.map_values(|e: Effect| e@),
        }
    }
}

/// The id under which the `i`-th USB device is attached: `usb<i>`.
pub open spec fn usb_id(i: nat) -> Seq<char> {
    "usb"@ + decimal(i)
}

/// The qemu bus of the `k`-th controller of a kind: e.g. `xhci0.0`.
pub open spec fn usb_bus_name(bus: UsbBus, k: nat) -> Seq<char> {
    bus.spec_name() + decimal(k) + ".0"@
}

/// Number of devices among the first `n` whose controller kind has rank `r`.
pub open spec fn count_rank(devs: Seq<UsbDevice>, r: u8, n: int) -> nat
    decreases n,
{
    if n <= 0 {
        0
    } else {
        count_rank(devs, r, n - 1) + if devs[n - 1].bus.spec_rank() == r { 1nat } else { 0nat }
    }
}

/// The monitor command that attaches device `i` at the given slot.
pub open spec fn attach_command(dev: UsbDevice, i: nat, slot: nat, host: (String, String)) -> EffectView {
    let n = spec_usable_ports(dev.bus);
    EffectView::Monitor(QmpCommandView::DeviceAdd {
        driver: "usb-host"@,
        id: usb_id(i),
        bus: usb_bus_name(dev.bus, slot / n),
        port: slot % n + 1,
        hostbus: host.0@,
        hostaddr: host.1@,
    })
}

/// Attach commands for the first `n` devices of controller rank `r`, in index
/// order: devices that are not permanent and are connected.
pub open spec fn attach_for_rank(devs: Seq<UsbDevice>, usb: Seq<Option<(String, String)>>, r: u8, n: int) -> Seq<EffectView>
    decreases n,
{
    if n <= 0 {
        Seq::empty()
    } else {
        let i = n - 1;
        let prev = attach_for_rank(devs, usb, r, i);
        if devs[i].bus.spec_rank() == r && !devs[i].permanent && usb[i] is Some {
            prev.push(attach_command(devs[i], i as nat, count_rank(devs, r, i), usb[i]->0))
        } else {
            prev
        }
    }
}

/// The attach commands of a full entry: devices grouped by controller kind
/// (in the kinds' declared order), each group in index order, each device at
/// its slot within the group; permanent and unconnected devices are skipped.
pub open spec fn attach_commands(devs: Seq<UsbDevice>, usb: Seq<Option<(String, String)>>) -> Seq<EffectView> {
    attach_for_rank(devs, usb, 0, devs.len() as int) + attach_for_rank(devs, usb, 1, devs.len() as int)
        + attach_for_rank(devs, usb, 2, devs.len() as int) + attach_for_rank(devs, usb, 3, devs.len() as int)
}

/// The detach commands for the first `n` devices: every non-permanent one.
pub open spec fn detach_commands(devs: Seq<UsbDevice>, n: int) -> Seq<EffectView>
    decreases n,
{
    if n <= 0 {
        Seq::empty()
    } else {
        let prev = detach_commands(devs, n - 1);
        if !devs[n - 1].permanent {
            prev.push(EffectView::Monitor(QmpCommandView::DeviceDel { id: usb_id((n - 1) as nat) }))
        } else {
            prev
        }
    }
}

/// The hotkey registrations sent to a freshly started guest agent, one per
/// binding, numbered by position.
pub open spec fn register_commands(bindings: Seq<KeyBindingView>, n: int) -> Seq<EffectView>
    decreases n,
{
    if n <= 0 {
        Seq::empty()
    } else {
        let (modifiers, key) = spec_to_windows(bindings[n - 1]);
        register_commands(bindings, n - 1).push(EffectView::Ga(GaCmdOutView::RegisterHotKey(
            RegisterHotKey { id: (n - 1) as u32, modifiers, key })))
    }
}

pub open spec fn with_effects(s: ControllerView, es: Seq<EffectView>) -> ControllerView {
    ControllerView { effects: s.effects + es, ..s }
}

pub open spec fn spec_io_detach(s: ControllerView) -> ControllerView {
    let s1 = match s.io_state {
        IoState::Detached => s,
        IoState::AwaitingUpgrade | IoState::LightEntry => with_effects(s, seq![EffectView::InputSuspend]),
        IoState::FullEntry => with_effects(s, detach_commands(s.usb_devices, s.usb_devices.len() as int)),
    };
    ControllerView { io_state: IoState::Detached, ..s1 }
}

pub open spec fn spec_io_force_attach(s: ControllerView, usb: Seq<Option<(String, String)>>) -> ControllerView {
    if s.io_state == IoState::FullEntry {
        s
    } else {
        let s1 = if s.io_state == IoState::Detached { s } else { with_effects(s, seq![EffectView::InputSuspend]) };
        let s2 = with_effects(s1, seq![EffectView::Ga(GaCmdOutView::ReleaseModifiers)] + attach_commands(s.usb_devices, usb));
        ControllerView { io_state: IoState::FullEntry, ..s2 }
    }
}

pub open spec fn spec_light_attach(s: ControllerView) -> ControllerView {
    match s.io_state {
        IoState::Detached => ControllerView {
            io_state: IoState::LightEntry,
            ..with_effects(s, seq![EffectView::Ga(GaCmdOutView::ReleaseModifiers), EffectView::InputResume])
        },
        IoState::AwaitingUpgrade => ControllerView { io_state: IoState::LightEntry, ..s },
        _ => s,
    }
}

pub open spec fn spec_io_attach(s: ControllerView, usb: Seq<Option<(String, String)>>) -> ControllerView {
    match s.ga {
        GaState::Resuming | GaState::Suspending => s,
        GaState::Suspended => ControllerView {
            ga: GaState::Resuming,
            ..with_effects(s, seq![EffectView::Monitor(QmpCommandView::SystemWakeup)])
        },
        GaState::Down => ControllerView { io_state: IoState::AwaitingUpgrade, ..spec_light_attach(s) },
        GaState::Up | GaState::Pinging => spec_io_force_attach(s, usb),
    }
}

pub open spec fn spec_try_attach(s: ControllerView, usb: Seq<Option<(String, String)>>) -> ControllerView {
    match s.ga {
        GaState::Up | GaState::Pinging => spec_io_force_attach(s, usb),
        _ => s,
    }
}

pub open spec fn spec_action(s: ControllerView, a: Action, usb: Seq<Option<(String, String)>>) -> ControllerView {
    match a {
        Action::IoEntry => spec_io_attach(s, usb),
        Action::IoEntryForced => spec_io_force_attach(s, usb),
        Action::IoExit => spec_io_detach(s),
    }
}

pub open spec fn spec_ga_ping(s: ControllerView) -> (ControllerView, bool) {
    match s.ga {
        GaState::Pinging => (spec_io_detach(ControllerView { ga: GaState::Down, ..s }), false),
        GaState::Up => (ControllerView { ga: GaState::Pinging, ..with_effects(s, seq![EffectView::Ga(GaCmdOutView::Ping)]) }, true),
        _ => (s, false),
    }
}

pub open spec fn spec_ga_hello(s: ControllerView, usb: Seq<Option<(String, String)>>) -> (ControllerView, bool) {
    let s1 = with_effects(s, seq![EffectView::NotifyReady] + register_commands(s.bindings, s.bindings.len() as int));
    let s2 = ControllerView { ga: GaState::Up, ..s1 };
    let s3 = if s.io_state == IoState::AwaitingUpgrade { spec_io_attach(s2, usb) } else { s2 };
    match s.ga {
        GaState::Pinging | GaState::Up => (s3, false),
        GaState::Down | GaState::Suspended => (s3, true),
        GaState::Resuming => (spec_io_attach(s3, usb), true),
        GaState::Suspending => (s3, false),
    }
}

pub open spec fn spec_cleared(s: ControllerView) -> ControllerView {
    ControllerView { effects: Seq::empty(), ..s }
}

pub open spec fn spec_ga_pong(s: ControllerView) -> ControllerView {
    if s.ga == GaState::Pinging { ControllerView { ga: GaState::Up, ..s } } else { s }
}

pub open spec fn spec_ga_suspending(s: ControllerView) -> ControllerView {
    ControllerView { ga: GaState::Suspending, ..spec_io_detach(s) }
}

pub open spec fn spec_qemu_suspended(s: ControllerView) -> ControllerView {
    let s1 = if s.suspend_waiters > 0 { with_effects(s, seq![EffectView::SuspendCompleted]) } else { s };
    ControllerView { ga: GaState::Suspended, suspend_waiters: 0, ..s1 }
}

pub open spec fn spec_suspend_wait(s: ControllerView) -> ControllerView {
    let s1 = if s.ga != GaState::Suspending { with_effects(s, seq![EffectView::Ga(GaCmdOutView::Suspend)]) } else { s };
    ControllerView { suspend_waiters: s.suspend_waiters + 1, ..s1 }
}

pub open spec fn spec_respond_x11(s: ControllerView, buf: Seq<u8>) -> ControllerView {
    match s.win_clipboard_request {
        Some(ev) => ControllerView {
            win_clipboard_request: None,
            ..with_effects(s, seq![EffectView::X11RespondData(ev, buf)])
        },
        None => s,
    }
}

pub open spec fn spec_read_win_clipboard(s: ControllerView, event: ClipboardRequestEvent) -> ControllerView {
    ControllerView {
        win_clipboard_request: Some(event),
        ..with_effects(s, seq![EffectView::Ga(GaCmdOutView::Clipboard(ClipboardMessageView::RequestClipboardContents(true)))])
    }
}

/// Whether hotkey `index` exists and detaches input.
pub open spec fn hotkey_detaches(s: ControllerView, index: u32) -> bool {
    index < s.hotkeys.len() && (s.hotkeys[index as int] matches HotKeyAction::Action(Action::IoExit))
}

/// A guest agent state in which the devices may be detached (detaching while
/// Windows suspends is a fault).
pub open spec fn may_detach(ga: GaState) -> bool {
    ga != GaState::Suspending && ga != GaState::Suspended
}

impl Controller {
    /// A controller for a machine whose guest agent is down and whose input is
    /// detached. `hotkeys` are the machine's hotkeys: hotkey `i` is
    /// registered with the guest agent under id `i` and runs its action when
    /// it fires.
    /// Starts by enabling QMP capabilities.
    pub fn new(machine_config: MachineConfig, hotkeys: Vec<BoundHotKey>) -> (r: Controller)
        ensures
            r@.usb_devices == machine_config.usb_devices@,
            r@.hotkeys == hotkeys@.map_values(|h: BoundHotKey| h.action),
            r@.bindings == hotkeys@.map_values(|h: BoundHotKey| h.key@),
            r@.ga == GaState::Down,
            r@.io_state == IoState::Detached,
            r@.suspend_waiters == 0,
            r@.win_clipboard_request is None,
            r@.effects == seq![EffectView::Monitor(QmpCommandView::QmpCapabilities)],
    {
        let mut effects = Vec::new();
        effects.push(Effect::Monitor(QmpCommand::QmpCapabilities));
        let r = Controller {
            machine_config,
            hotkeys,
            ga: GaState::Down,
            io_state: IoState::Detached,
            suspend_waiters: 0,
            win_clipboard_request: None,
            effects,
        };
        assert(r@.effects =~= seq![EffectView::Monitor(QmpCommandView::QmpCapabilities)]);
        r
    }


    /// The state of the guest agent.
    pub fn ga_state(&self) -> (r: GaState)
        ensures
            r == self@.ga,
    {
        self.ga
    }

    /// The number of configured USB devices, one resolution each.
    pub fn usb_device_count(&self) -> (r: usize)
        ensures
            r == self@.usb_devices.len(),
    {
        self.machine_config.usb_devices.len()
    }

    /// Whether the devices may be detached now.
    pub fn detach_allowed(&self) -> (r: bool)
        ensures
            r == may_detach(self@.ga),
    {
        !matches!(self.ga, GaState::Suspending | GaState::Suspended)
    }

    /// Whether hotkey `index` may run now: one that detaches input cannot
    /// while the guest suspends.
    pub fn hotkey_runnable(&self, index: u32) -> (r: bool)
        ensures
            r == (hotkey_detaches(self@, index) ==> may_detach(self@.ga)),
    {
        let idx = index as usize;
        if idx < self.hotkeys.len() {
            assert(self@.hotkeys[idx as int] == self.hotkeys@[idx as int].action);
            match &self.hotkeys[idx].action {
                HotKeyAction::Action(Action::IoExit) => self.detach_allowed(),
                _ => true,
            }
        } else {
            true
        }
    }

    /// Whether another caller may wait for the guest to suspend.
    pub fn can_wait_for_suspend(&self) -> (r: bool)
        ensures
            r == (self@.suspend_waiters < usize::MAX),
    {
        self.suspend_waiters < usize::MAX
    }

    /// Hands the queued effects to the caller, oldest first, and clears the queue.
    pub fn take_effects(&mut self) -> (r: Vec<Effect>)
        ensures
            r@.map_values(|e: Effect| e@) == old(self)@.effects,
            final(self)@ == spec_cleared(old(self)@),
    {
        let mut out = Vec::new();
        std::mem::swap(&mut out, &mut self.effects);
        assert(self@.effects =~= Seq::<EffectView>::empty());
        out
    }

    fn emit(&mut self, e: Effect)
        ensures
            final(self)@ == with_effects(old(self)@, seq![e@]),
    {
        self.effects.push(e);
        assert(self@.effects =~= old(self)@.effects + seq![e@]);
        assert(self@ =~= with_effects(old(self)@, seq![e@]));
    }

    /// Called periodically: pings the guest agent. A ping that was never
    /// answered means the agent died, which detaches input.
    /// Returns whether the pinging should go on.
    pub fn ga_ping(&mut self) -> (r: bool)
        ensures
            (final(self)@, r) == spec_ga_ping(old(self)@),
    {
        match self.ga {
            GaState::Pinging => {
                self.ga = GaState::Down;
                self.io_detach();
                false
            }
            GaState::Up => {
                self.ga = GaState::Pinging;
                self.emit(Effect::Ga(GaCmdOut::Ping));
                true
            }
            _ => false,
        }
    }

    /// The guest agent answered a ping.
    pub fn ga_pong(&mut self)
        ensures
            final(self)@ == spec_ga_pong(old(self)@),
    {
        if self.ga == GaState::Pinging {
            self.ga = GaState::Up;
        }
    }

    /// The guest agent (re)started: registers the hotkeys, marks it up and
    /// finishes a pending entry. Returns whether a new pinger must be started
    /// (false when the previous agent was never noticed going down).
    pub fn ga_hello(&mut self, usb: &UsbResolution) -> (r: bool)
        requires
            usb@.len() == old(self)@.usb_devices.len(),
        ensures
            (final(self)@, r) == spec_ga_hello(old(self)@, usb@),
    {
        self.emit(Effect::NotifyReady);
        let n = self.hotkeys.len();
        let mut i: usize = 0;
        let ghost s0 = self@;
        while i < n
            invariant
                n == self@.bindings.len(),
                i <= n,
                self@ == with_effects(s0, register_commands(s0.bindings, i as int)),
                s0.bindings == self@.bindings,
            decreases n - i,
        {
            let (modifiers, key) = self.hotkeys[i].key.to_windows();
            assert(self@.bindings[i as int] == self.hotkeys@[i as int].key@);
            self.emit(Effect::Ga(GaCmdOut::RegisterHotKey(RegisterHotKey { id: #[verifier::truncate] (i as u32), modifiers, key })));
            i = i + 1;
            assert(self@.effects =~= s0.effects + register_commands(s0.bindings, i as int));
        }
        let old_ga = self.ga;
        self.ga = GaState::Up;
        assert(self@.effects =~= old(self)@.effects + (seq![EffectView::NotifyReady] + register_commands(old(self)@.bindings, old(self)@.bindings.len() as int)));
        if self.io_state == IoState::AwaitingUpgrade {
            self.io_attach(usb);
        }
        match old_ga {
            GaState::Pinging | GaState::Up => false,
            GaState::Down | GaState::Suspended => true,
            GaState::Resuming => {
                self.io_attach(usb);
                true
            }
            GaState::Suspending => false,
        }
    }

    /// The guest agent reports that Windows is suspending: input is detached.
    pub fn ga_suspending(&mut self)
        requires
            may_detach(old(self)@.ga),
        ensures
            final(self)@ == spec_ga_suspending(old(self)@),
    {
        self.io_detach();
        self.ga = GaState::Suspending;
    }

    /// qemu reports that the guest is suspended: pending suspend requests are
    /// answered.
    pub fn qemu_suspended(&mut self)
        ensures
            final(self)@ == spec_qemu_suspended(old(self)@),
    {
        self.ga = GaState::Suspended;
        if self.suspend_waiters > 0 {
            self.emit(Effect::SuspendCompleted);
        }
        self.suspend_waiters = 0;
    }

    /// A hotkey fired in the guest: runs its action or its shell command.
    /// Unknown hotkey ids are ignored.
    pub fn ga_hotkey(&mut self, index: u32, usb: &UsbResolution)
        requires
            usb@.len() == old(self)@.usb_devices.len(),
            hotkey_detaches(old(self)@, index) ==> may_detach(old(self)@.ga),
        ensures
            final(self)@ == (if index < old(self)@.hotkeys.len() {
                match old(self)@.hotkeys[index as int] {
                    HotKeyAction::Action(a) => spec_action(old(self)@, a, usb@),
                    HotKeyAction::Exec(cmd) => with_effects(old(self)@, seq![EffectView::Exec(cmd@)]),
                }
            } else {
                old(self)@
            }),
    {
        let idx = index as usize;
        if idx < self.hotkeys.len() {
            assert(self@.hotkeys[idx as int] == self.hotkeys@[idx as int].action);
            match &self.hotkeys[idx].action {
                HotKeyAction::Action(a) => {
                    let a = *a;
                    self.action(a, usb);
                }
                HotKeyAction::Exec(cmd) => {
                    let cmd = cmd.clone();
                    self.emit(Effect::Exec(cmd));
                }
            }
        }
    }

    /// Executes a built-in action.
    pub fn action(&mut self, action: Action, usb: &UsbResolution)
        requires
            usb@.len() == old(self)@.usb_devices.len(),
            action == Action::IoExit ==> may_detach(old(self)@.ga),
        ensures
            final(self)@ == spec_action(old(self)@, action, usb@),
    {
        match action {
            Action::IoEntry => self.io_attach(usb),
            Action::IoEntryForced => self.io_force_attach(usb),
            Action::IoExit => self.io_detach(),
        }
    }

    /// Enters: attaches the devices when the guest agent is up, light-enters
    /// until it comes up when it is down, and wakes a suspended guest first.
    pub fn io_attach(&mut self, usb: &UsbResolution)
        requires
            usb@.len() == old(self)@.usb_devices.len(),
        ensures
            final(self)@ == spec_io_attach(old(self)@, usb@),
    {
        match self.ga {
            GaState::Resuming | GaState::Suspending => {}
            GaState::Suspended => {
                self.emit(Effect::Monitor(QmpCommand::SystemWakeup));
                self.ga = GaState::Resuming;
            }
            GaState::Down => {
                self.light_attach();
                self.io_state = IoState::AwaitingUpgrade;
            }
            GaState::Up | GaState::Pinging => self.io_force_attach(usb),
        }
    }

    /// Attaches the devices only when the guest agent is up.
    pub fn try_attach(&mut self, usb: &UsbResolution)
        requires
            usb@.len() == old(self)@.usb_devices.len(),
        ensures
            final(self)@ == spec_try_attach(old(self)@, usb@),
    {
        match self.ga {
            GaState::Up | GaState::Pinging => self.io_force_attach(usb),
            _ => {}
        }
    }

    /// Forwards keyboard and mouse through qemu instead of attaching devices.
    pub fn light_attach(&mut self)
        ensures
            final(self)@ == spec_light_attach(old(self)@),
    {
        match self.io_state {
            IoState::Detached => {
                self.prepare_entry();
                self.emit(Effect::InputResume);
                self.io_state = IoState::LightEntry;
                assert(self@.effects =~= old(self)@.effects + seq![EffectView::Ga(GaCmdOutView::ReleaseModifiers), EffectView::InputResume]);
            }
            IoState::AwaitingUpgrade => self.io_state = IoState::LightEntry,
            IoState::LightEntry | IoState::FullEntry => {}
        }
    }

    /// Attaches all non-permanent USB devices that are connected, whatever the
    /// guest agent's state; a light entry is released first.
    pub fn io_force_attach(&mut self, usb: &UsbResolution)
        requires
            usb@.len() == old(self)@.usb_devices.len(),
        ensures
            final(self)@ == spec_io_force_attach(old(self)@, usb@),
    {
        match self.io_state {
            IoState::Detached => {}
            IoState::AwaitingUpgrade | IoState::LightEntry => self.emit(Effect::InputSuspend),
            IoState::FullEntry => return,
        }
        let ghost s1 = self@;
        self.prepare_entry();
        let mut cmds = attach_effects(&self.machine_config.usb_devices, usb);
        self.emit_all(&mut cmds);
        self.io_state = IoState::FullEntry;
        proof {
            let devs = old(self)@.usb_devices;
            assert(self@.effects =~= s1.effects + (seq![EffectView::Ga(GaCmdOutView::ReleaseModifiers)] + attach_commands(devs, usb@)));
        }
    }

    /// Emits the given effects, in order.
    fn emit_all(&mut self, es: &mut Vec<Effect>)
        ensures
            final(self)@ == with_effects(old(self)@, old(es)@.map_values(|e: Effect| e@)),
    {
        let ghost added = es@;
        self.effects.append(es);
        assert(self@.effects =~= old(self)@.effects + added.map_values(|e: Effect| e@));
        assert(self@ =~= with_effects(old(self)@, added.map_values(|e: Effect| e@)));
    }

    /// Releases all modifier keys in the guest before input changes hands.
    pub fn prepare_entry(&mut self)
        ensures
            final(self)@ == with_effects(old(self)@, seq![EffectView::Ga(GaCmdOutView::ReleaseModifiers)]),
    {
        self.emit(Effect::Ga(GaCmdOut::ReleaseModifiers));
    }

    /// Asks the guest to suspend. Returns true when it already is suspended;
    /// otherwise the request waits for `SuspendCompleted`.
    pub fn suspend(&mut self) -> (r: bool)
        requires
            old(self)@.suspend_waiters < usize::MAX,
        ensures
            old(self)@.ga == GaState::Suspended ==> r && final(self)@ == old(self)@,
            old(self)@.ga != GaState::Suspended ==> !r && final(self)@ == spec_suspend_wait(old(self)@),
    {
        if self.ga == GaState::Suspended {
            return true;
        }
        if self.ga != GaState::Suspending {
            self.emit(Effect::Ga(GaCmdOut::Suspend));
        }
        self.suspend_waiters = self.suspend_waiters + 1;
        false
    }

    /// Detaches input: releases a light entry or detaches every non-permanent
    /// USB device.
    pub fn io_detach(&mut self)
        requires
            may_detach(old(self)@.ga),
        ensures
            final(self)@ == spec_io_detach(old(self)@),
    {
        match self.io_state {
            IoState::Detached => {}
            IoState::AwaitingUpgrade | IoState::LightEntry => self.emit(Effect::InputSuspend),
            IoState::FullEntry => {
                let n = self.machine_config.usb_devices.len();
                let mut i: usize = 0;
                let ghost s0 = self@;
                while i < n
                    invariant
                        n == self@.usb_devices.len(),
                        i <= n,
                        s0 == old(self)@,
                        self@ == with_effects(s0, detach_commands(s0.usb_devices, i as int)),
                    decreases n - i,
                {
                    if !self.machine_config.usb_devices[i].permanent {
                        self.emit(Effect::Monitor(QmpCommand::DeviceDel { id: usb_id_string(i) }));
                    }
                    i = i + 1;
                    assert(self@.effects =~= s0.effects + detach_commands(s0.usb_devices, i as int));
                }
            }
        }
        self.io_state = IoState::Detached;
    }

    /// Powers the guest down.
    pub fn shutdown(&mut self)
        ensures
            final(self)@ == with_effects(old(self)@, seq![EffectView::Monitor(QmpCommandView::SystemPowerdown)]),
    {
        self.emit(Effect::Monitor(QmpCommand::SystemPowerdown));
    }

    /// Windows took the clipboard: take the X11 clipboard.
    pub fn grab_x11_clipboard(&mut self)
        ensures
            final(self)@ == with_effects(old(self)@, seq![EffectView::X11Grab]),
    {
        self.emit(Effect::X11Grab);
    }

    /// A paste in Windows: ask X11 for the clipboard contents.
    pub fn read_x11_clipboard(&mut self)
        ensures
            final(self)@ == with_effects(old(self)@, seq![EffectView::X11Read]),
    {
        self.emit(Effect::X11Read);
    }

    /// Windows sent the contents for a paste in X11: answer the pending request.
    pub fn respond_x11_clipboard(&mut self, buf: Vec<u8>)
        ensures
            final(self)@ == spec_respond_x11(old(self)@, buf@),
    {
        match self.win_clipboard_request.take() {
            Some(event) => {
                self.emit(Effect::X11Respond(event.reply_data(buf)));
            }
            None => {}
        }
    }

    /// X11 took the clipboard: Windows should take it from us.
    pub fn grab_win_clipboard(&mut self)
        ensures
            final(self)@ == with_effects(old(self)@, seq![EffectView::Ga(GaCmdOutView::Clipboard(ClipboardMessageView::GrabClipboard))]),
    {
        self.emit(Effect::Ga(GaCmdOut::Clipboard(ClipboardMessage::GrabClipboard)));
    }

    /// A paste in X11: remember the request and ask Windows for the contents.
    pub fn read_win_clipboard(&mut self, event: ClipboardRequestEvent)
        ensures
            final(self)@ == spec_read_win_clipboard(old(self)@, event),
    {
        self.win_clipboard_request = Some(event);
        self.emit(Effect::Ga(GaCmdOut::Clipboard(ClipboardMessage::RequestClipboardContents(true))));
    }

    /// X11 sent the contents for a paste in Windows: pass them on.
    pub fn respond_win_clipboard(&mut self, buf: Vec<u8>)
        ensures
            final(self)@ == with_effects(old(self)@, seq![EffectView::Ga(GaCmdOutView::Clipboard(ClipboardMessageView::ClipboardContents(buf@)))]),
    {
        self.emit(Effect::Ga(GaCmdOut::Clipboard(ClipboardMessage::ClipboardContents(buf))));
    }
}

// ---------------------------------------------------------------------------
// Laws of the controller.

/// A ping that is never answered: the first ping of a live guest agent keeps
/// pinging, the next one declares the agent down, detaches input and stops.
pub proof fn law_unanswered_ping_detaches(s: ControllerView)
    requires
        s.ga == GaState::Up,
    ensures
        spec_ga_ping(s).1,
        !spec_ga_ping(spec_ga_ping(s).0).1,
        spec_ga_ping(spec_ga_ping(s).0).0.ga == GaState::Down,
        spec_ga_ping(spec_ga_ping(s).0).0.io_state == IoState::Detached,
{
}

/// An answered ping leaves a live guest agent up.
pub proof fn law_answered_ping_stays_up(s: ControllerView)
    requires
        s.ga == GaState::Up,
    ensures
        spec_ga_pong(spec_ga_ping(s).0).ga == GaState::Up,
        spec_ga_pong(spec_ga_ping(s).0).io_state == s.io_state,
{
}

/// A suspend request is answered when qemu reports the guest suspended: a
/// request while the guest is not suspended sends `Suspend` (unless the guest
/// is already suspending) and waits; the next `qemu_suspended` marks the guest
/// suspended and answers every waiter at once, with one `SuspendCompleted`.
pub proof fn law_suspend_answered(s: ControllerView)
    requires
        s.ga != GaState::Suspended,
    ensures
        ({
            let w = spec_suspend_wait(s);
            let d = spec_qemu_suspended(w);
            &&& w.suspend_waiters == s.suspend_waiters + 1
            &&& w.ga == s.ga
            &&& d.ga == GaState::Suspended
            &&& d.suspend_waiters == 0
            &&& d.effects == s.effects + (if s.ga != GaState::Suspending {
                seq![EffectView::Ga(GaCmdOutView::Suspend)]
            } else {
                Seq::<EffectView>::empty()
            }) + seq![EffectView::SuspendCompleted]
        }),
{
    let w = spec_suspend_wait(s);
    let d = spec_qemu_suspended(w);
    if s.ga != GaState::Suspending {
        assert(d.effects =~= s.effects + seq![EffectView::Ga(GaCmdOutView::Suspend)] + seq![EffectView::SuspendCompleted]);
    } else {
        assert(d.effects =~= s.effects + Seq::<EffectView>::empty() + seq![EffectView::SuspendCompleted]);
    }
}

/// A hello from the guest agent while an entry waits for it completes that
/// entry: the agent is up, input is in a full entry, and after the ready
/// notice and the hotkey registrations the light entry is released and every
/// connected, non-permanent device is attached.
pub proof fn law_hello_completes_waiting_entry(s: ControllerView, usb: Seq<Option<(String, String)>>)
    requires
        s.io_state == IoState::AwaitingUpgrade,
    ensures
        ({
            let t = spec_ga_hello(s, usb).0;
            &&& t.io_state == IoState::FullEntry
            &&& t.ga == GaState::Up
            &&& t.effects == s.effects + seq![EffectView::NotifyReady]
                + register_commands(s.bindings, s.bindings.len() as int)
                + seq![EffectView::InputSuspend, EffectView::Ga(GaCmdOutView::ReleaseModifiers)]
                + attach_commands(s.usb_devices, usb)
        }),
{
    let t = spec_ga_hello(s, usb).0;
    assert(t.effects =~= s.effects + seq![EffectView::NotifyReady]
        + register_commands(s.bindings, s.bindings.len() as int)
        + seq![EffectView::InputSuspend, EffectView::Ga(GaCmdOutView::ReleaseModifiers)]
        + attach_commands(s.usb_devices, usb));
}

/// A hello never leaves an entry waiting for the guest agent, and it always
/// leaves the agent up.
pub proof fn law_hello_leaves_no_waiting_entry(s: ControllerView, usb: Seq<Option<(String, String)>>)
    ensures
        spec_ga_hello(s, usb).0.io_state != IoState::AwaitingUpgrade,
        spec_ga_hello(s, usb).0.ga == GaState::Up,
{
}

/// The registrations sent at hello: one per hotkey, in order, registration
/// `k` carrying id `k` and the Windows modifiers and key of hotkey `k`.
pub proof fn law_register_one_per_hotkey(bindings: Seq<KeyBindingView>, n: int)
    requires
        0 <= n <= bindings.len(),
        n <= u32::MAX + 1,
    ensures
        register_commands(bindings, n).len() == n,
        forall|k: int| 0 <= k < n ==> #[trigger] register_commands(bindings, n)[k]
            == EffectView::Ga(GaCmdOutView::RegisterHotKey(RegisterHotKey {
                id: k as u32,
                modifiers: spec_to_windows(bindings[k]).0,
                key: spec_to_windows(bindings[k]).1,
            })),
    decreases n,
{
    if n > 0 {
        law_register_one_per_hotkey(bindings, n - 1);
        let prev = register_commands(bindings, n - 1);
        assert forall|k: int| 0 <= k < n implies #[trigger] register_commands(bindings, n)[k]
            == EffectView::Ga(GaCmdOutView::RegisterHotKey(RegisterHotKey {
                id: k as u32,
                modifiers: spec_to_windows(bindings[k]).0,
                key: spec_to_windows(bindings[k]).1,
            })) by {
            if k < n - 1 {
                assert(register_commands(bindings, n)[k] == prev[k]);
            }
        }
    }
}

/// Leaving a full entry detaches exactly the devices that are not permanent:
/// each of them gets a `device_del` naming it, and every `device_del` names
/// one of them.
pub proof fn law_detach_exactly_removable(devs: Seq<UsbDevice>, n: int)
    requires
        0 <= n <= devs.len(),
    ensures
        forall|i: int| 0 <= i < n && !devs[i].permanent ==>
            #[trigger] detach_commands(devs, n).contains(EffectView::Monitor(QmpCommandView::DeviceDel { id: usb_id(i as nat) })),
        forall|k: int| 0 <= k < detach_commands(devs, n).len() ==> exists|i: int| 0 <= i < n && !devs[i].permanent
            && #[trigger] detach_commands(devs, n)[k] == EffectView::Monitor(QmpCommandView::DeviceDel { id: usb_id(i as nat) }),
    decreases n,
{
    assert forall|i: int| 0 <= i < n && !devs[i].permanent implies
        #[trigger] detach_commands(devs, n).contains(EffectView::Monitor(QmpCommandView::DeviceDel { id: usb_id(i as nat) })) by {
        lemma_detach_contains(devs, n, i);
    }
    if n > 0 {
        law_detach_exactly_removable(devs, n - 1);
        let prev = detach_commands(devs, n - 1);
        let cur = detach_commands(devs, n);
        assert forall|k: int| 0 <= k < cur.len() implies exists|i: int| 0 <= i < n && !devs[i].permanent
            && #[trigger] cur[k] == EffectView::Monitor(QmpCommandView::DeviceDel { id: usb_id(i as nat) }) by {
            if k < prev.len() {
                assert(cur[k] == prev[k]);
                let i = choose|i: int| 0 <= i < n - 1 && !devs[i].permanent
                    && prev[k] == EffectView::Monitor(QmpCommandView::DeviceDel { id: usb_id(i as nat) });
                assert(cur[k] == EffectView::Monitor(QmpCommandView::DeviceDel { id: usb_id(i as nat) }));
            } else {
                assert(cur[k] == EffectView::Monitor(QmpCommandView::DeviceDel { id: usb_id((n - 1) as nat) }));
            }
        }
    }
}

proof fn lemma_attach_for_rank_has(devs: Seq<UsbDevice>, usb: Seq<Option<(String, String)>>, r: u8, n: int, i: int)
    requires
        0 <= i < n,
        devs[i].bus.spec_rank() == r,
        !devs[i].permanent,
        usb[i] is Some,
    ensures
        attach_for_rank(devs, usb, r, n).contains(attach_command(devs[i], i as nat, count_rank(devs, r, i), usb[i]->0)),
    decreases n,
{
    let e = attach_command(devs[i], i as nat, count_rank(devs, r, i), usb[i]->0);
    if i < n - 1 {
        lemma_attach_for_rank_has(devs, usb, r, n - 1, i);
        let prev = attach_for_rank(devs, usb, r, n - 1);
        let j = choose|j: int| 0 <= j < prev.len() && prev[j] == e;
        assert(attach_for_rank(devs, usb, r, n)[j] == e);
    } else {
        let all = attach_for_rank(devs, usb, r, n);
        assert(all[all.len() - 1] == e);
    }
}

/// A full entry attaches every connected device that is not permanent: its
/// `device_add` (with its id, host bus and address, on its controller kind at
/// its slot among the devices of that kind) is among the attach commands.
pub proof fn law_attach_every_connected_device(devs: Seq<UsbDevice>, usb: Seq<Option<(String, String)>>, i: int)
    requires
        0 <= i < devs.len(),
        !devs[i].permanent,
        usb[i] is Some,
    ensures
        attach_commands(devs, usb).contains(
            attach_command(devs[i], i as nat, count_rank(devs, devs[i].bus.spec_rank(), i), usb[i]->0)),
{
    let n = devs.len() as int;
    let r = devs[i].bus.spec_rank();
    let e = attach_command(devs[i], i as nat, count_rank(devs, r, i), usb[i]->0);
    lemma_attach_for_rank_has(devs, usb, r, n, i);
    let a0 = attach_for_rank(devs, usb, 0, n);
    let a1 = attach_for_rank(devs, usb, 1, n);
    let a2 = attach_for_rank(devs, usb, 2, n);
    let a3 = attach_for_rank(devs, usb, 3, n);
    let all = attach_commands(devs, usb);
    let seg = attach_for_rank(devs, usb, r, n);
    let j = choose|j: int| 0 <= j < seg.len() && seg[j] == e;
    let off = if r == 0 { 0 } else if r == 1 { a0.len() as int } else if r == 2 { (a0.len() + a1.len()) as int }
        else { (a0.len() + a1.len() + a2.len()) as int };
    assert(all == a0 + a1 + a2 + a3);
    assert(all[off + j] == e);
}

/// Whatever state input is in, detaching leaves it detached.
pub proof fn law_detach_detaches(s: ControllerView)
    ensures
        spec_io_detach(s).io_state == IoState::Detached,
        spec_io_detach(spec_io_detach(s)) == with_effects(spec_io_detach(s), Seq::empty()),
{
    assert(spec_io_detach(s).effects + Seq::<EffectView>::empty() =~= spec_io_detach(s).effects);
}

proof fn lemma_attach_for_rank_origin(devs: Seq<UsbDevice>, usb: Seq<Option<(String, String)>>, r: u8, n: int, k: int)
    requires
        0 <= k < attach_for_rank(devs, usb, r, n).len(),
    ensures
        exists|i: int| #![trigger devs[i]]
            0 <= i < n && !devs[i].permanent && usb[i] is Some
            && attach_for_rank(devs, usb, r, n)[k] == attach_command(devs[i], i as nat, count_rank(devs, r, i), usb[i]->0),
    decreases n,
{
    if n > 0 {
        let prev = attach_for_rank(devs, usb, r, n - 1);
        if k < prev.len() {
            lemma_attach_for_rank_origin(devs, usb, r, n - 1, k);
            let i = choose|i: int| #![trigger devs[i]]
                0 <= i < n - 1 && !devs[i].permanent && usb[i] is Some
                && prev[k] == attach_command(devs[i], i as nat, count_rank(devs, r, i), usb[i]->0);
            assert(devs[i] == devs[i]);
        } else {
            assert(devs[n - 1] == devs[n - 1]);
        }
    }
}

proof fn lemma_detach_contains(devs: Seq<UsbDevice>, n: int, i: int)
    requires
        0 <= i < n,
        !devs[i].permanent,
    ensures
        detach_commands(devs, n).contains(EffectView::Monitor(QmpCommandView::DeviceDel { id: usb_id(i as nat) })),
    decreases n,
{
    let e = EffectView::Monitor(QmpCommandView::DeviceDel { id: usb_id(i as nat) });
    if i < n - 1 {
        lemma_detach_contains(devs, n - 1, i);
        let prev = detach_commands(devs, n - 1);
        let j = choose|j: int| 0 <= j < prev.len() && prev[j] == e;
        assert(detach_commands(devs, n)[j] == e);
    } else {
        let all = detach_commands(devs, n);
        assert(all[all.len() - 1] == e);
    }
}

/// Every device a full entry attaches is detached again on exit: for each
/// `device_add` of an attach there is a `device_del` with the same id among
/// the detach commands.
pub proof fn law_detach_removes_attached(devs: Seq<UsbDevice>, usb: Seq<Option<(String, String)>>, k: int)
    requires
        0 <= k < attach_commands(devs, usb).len(),
    ensures
        attach_commands(devs, usb)[k] matches EffectView::Monitor(QmpCommandView::DeviceAdd { id, .. })
            && detach_commands(devs, devs.len() as int).contains(EffectView::Monitor(QmpCommandView::DeviceDel { id })),
{
    let n = devs.len() as int;
    let a0 = attach_for_rank(devs, usb, 0, n);
    let a1 = attach_for_rank(devs, usb, 1, n);
    let a2 = attach_for_rank(devs, usb, 2, n);
    let a3 = attach_for_rank(devs, usb, 3, n);
    let all = attach_commands(devs, usb);
    let (r, kk): (u8, int) = if k < a0.len() {
        (0u8, k)
    } else if k < a0.len() + a1.len() {
        (1u8, k - a0.len())
    } else if k < a0.len() + a1.len() + a2.len() {
        (2u8, k - a0.len() - a1.len())
    } else {
        (3u8, k - a0.len() - a1.len() - a2.len())
    };
    assert(all[k] == attach_for_rank(devs, usb, r, n)[kk]);
    lemma_attach_for_rank_origin(devs, usb, r, n, kk);
    let i = choose|i: int| #![trigger devs[i]]
        0 <= i < n && !devs[i].permanent && usb[i] is Some
        && attach_for_rank(devs, usb, r, n)[kk] == attach_command(devs[i], i as nat, count_rank(devs, r, i), usb[i]->0);
    lemma_detach_contains(devs, n, i);
}

proof fn lemma_count_rank_grows(devs: Seq<UsbDevice>, r: u8, i: int, j: int)
    requires
        0 <= i < j <= devs.len(),
        devs[i].bus.spec_rank() == r,
    ensures
        count_rank(devs, r, i) < count_rank(devs, r, j),
    decreases j - i,
{
    if j > i + 1 {
        lemma_count_rank_grows(devs, r, i, j - 1);
    }
}

/// Two devices attached on the same kind of controller never share a port:
/// their slots differ, so their controller numbers or port numbers differ,
/// and ports are numbered from 1 to the controller's port count.
pub proof fn law_distinct_ports(devs: Seq<UsbDevice>, i: int, j: int)
    requires
        0 <= i < j < devs.len(),
        devs[i].bus == devs[j].bus,
    ensures
        ({
            let r = devs[i].bus.spec_rank();
            let n = spec_usable_ports(devs[i].bus);
            let si = count_rank(devs, r, i);
            let sj = count_rank(devs, r, j);
            &&& si != sj
            &&& (si / n != sj / n || si % n != sj % n)
            &&& 1 <= si % n + 1 <= n
        }),
{
    let r = devs[i].bus.spec_rank();
    let n = spec_usable_ports(devs[i].bus);
    let si = count_rank(devs, r, i);
    let sj = count_rank(devs, r, j);
    lemma_count_rank_grows(devs, r, i, j);
    assert(n > 0);
    vstd::arithmetic::div_mod::lemma_fundamental_div_mod(si as int, n as int);
    vstd::arithmetic::div_mod::lemma_fundamental_div_mod(sj as int, n as int);
}

/// `usb<i>`.
pub fn usb_id_string(i: usize) -> (r: String)
    ensures
        r@ == usb_id(i as nat),
{
    let mut s = String::new();
    push_str(&mut s, "usb");
    push_decimal(&mut s, i as u64);
    s
}

/// The qemu bus name of the `k`-th controller of a kind.
pub fn usb_bus_string(bus: UsbBus, k: usize) -> (r: String)
    ensures
        r@ == usb_bus_name(bus, k as nat),
{
    let mut s = String::new();
    push_str(&mut s, bus.name());
    push_decimal(&mut s, k as u64);
    push_str(&mut s, ".0");
    s
}

} // verus!
