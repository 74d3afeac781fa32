//! The controller of the byte-protocol driver: the guest agent speaks single
//! command bytes, and input is either attached (all USB devices) or not.
//! Like the driver's controller it queues the commands it decides on as
//! effects for the event loop.
use vstd::prelude::*;
use vstd::utf8::encode_utf8;
use crate::config::{MachineConfig, UsbDevice, HotKeyAction, Action, HotKey};
use crate::monitor::{QmpCommand, QmpCommandView};
use crate::wire::{le_bytes_u32, push_u32_le};
use crate::driver::controller::{Effect, EffectView, UsbResolution, attach_commands,
    detach_commands, usb_id_string};
use crate::driver::attach::attach_effects;

verus! {

/// The guest agent's state as this controller sees it.
#[derive(Debug, Clone, Copy, PartialEq, Eq, Structural)]
pub enum LegacyGaState {
    Down,
    Up,
    Pinging,
    Suspending,
    Resuming,
}

/// Command bytes of the byte protocol.
pub const GA_PING: u8 = 0x01;
pub const GA_REGISTER_HOTKEY: u8 = 0x02;

/// The bytes that register hotkey `id`: the command byte, the id, the length
/// of the key text and the key text, numbers as little-endian `u32`.
pub open spec fn register_hotkey_bytes(id: u32, key: Seq<char>) -> Seq<u8> {
    seq![GA_REGISTER_HOTKEY] + le_bytes_u32(id) + le_bytes_u32(encode_utf8(key).len() as u32) + encode_utf8(key)
}

pub open spec fn legacy_register_commands(hotkeys: Seq<HotKey>, n: int) -> Seq<EffectView>
    decreases n,
{
    if n <= 0 {
        Seq::empty()
    } else {
        legacy_register_commands(hotkeys, n - 1).push(
            EffectView::GaRaw(register_hotkey_bytes((n - 1) as u32, hotkeys[n - 1].key@)))
    }
}

/// The controller of the byte-protocol driver.
pub struct Controller {
    machine_config: MachineConfig,
    ga: LegacyGaState,
    io_attached: bool,
    effects: Vec<Effect>,
}

/// The mathematical content of the controller.
#[verifier::ext_equal]
pub struct LegacyView {
    pub usb_devices: Seq<UsbDevice>,
    pub hotkeys: Seq<HotKey>,
    pub ga: LegacyGaState,
    pub io_attached: bool,
    pub effects: Seq<EffectView>,
}

impl View for Controller {
    type V = LegacyView;

    closed spec fn view(&self) -> LegacyView {
        LegacyView {
            usb_devices: self.machine_config.usb_devices@,
            hotkeys: self.machine_config.hotkeys@,
            ga: self.ga,
            io_attached: self.io_attached,
            effects: self.effects@.map_values(|e: Effect| e@),
        }
    }
}

pub open spec fn legacy_with(s: LegacyView, es: Seq<EffectView>) -> LegacyView {
    LegacyView { effects: s.effects + es, ..s }
}

pub open spec fn legacy_detach(s: LegacyView) -> LegacyView {
    if !s.io_attached {
        s
    } else {
        LegacyView { io_attached: false, ..legacy_with(s, detach_commands(s.usb_devices, s.usb_devices.len() as int)) }
    }
}

pub open spec fn legacy_force_attach(s: LegacyView, usb: Seq<Option<(String, String)>>) -> LegacyView {
    if s.io_attached {
        s
    } else {
        LegacyView { io_attached: true, ..legacy_with(s, attach_commands(s.usb_devices, usb)) }
    }
}

pub open spec fn legacy_attach(s: LegacyView, usb: Seq<Option<(String, String)>>) -> LegacyView {
    match s.ga {
        LegacyGaState::Down | LegacyGaState::Resuming => s,
        LegacyGaState::Suspending => LegacyView {
            ga: LegacyGaState::Resuming,
            ..legacy_with(s, seq![EffectView::Monitor(QmpCommandView::SystemWakeup)])
        },
        LegacyGaState::Up | LegacyGaState::Pinging => legacy_force_attach(s, usb),
    }
}

pub open spec fn legacy_action(s: LegacyView, a: Action, usb: Seq<Option<(String, String)>>) -> LegacyView {
    match a {
        Action::IoEntry => legacy_attach(s, usb),
        Action::IoEntryForced => legacy_force_attach(s, usb),
        Action::IoExit => legacy_detach(s),
    }
}

pub open spec fn legacy_ping(s: LegacyView) -> (LegacyView, bool) {
    match s.ga {
        LegacyGaState::Pinging => (legacy_detach(LegacyView { ga: LegacyGaState::Down, ..s }), false),
        LegacyGaState::Up => (LegacyView { ga: LegacyGaState::Pinging, ..legacy_with(s, seq![EffectView::GaRaw(seq![GA_PING])]) }, true),
        _ => (s, false),
    }
}

pub open spec fn legacy_pong(s: LegacyView) -> LegacyView {
    if s.ga == LegacyGaState::Pinging { LegacyView { ga: LegacyGaState::Up, ..s } } else { s }
}

pub open spec fn legacy_hello(s: LegacyView, usb: Seq<Option<(String, String)>>) -> (LegacyView, bool) {
    let s1 = legacy_with(s, seq![EffectView::NotifyReady] + legacy_register_commands(s.hotkeys, s.hotkeys.len() as int));
    let s2 = LegacyView { ga: LegacyGaState::Up, ..s1 };
    match s.ga {
        LegacyGaState::Pinging | LegacyGaState::Up => (s2, false),
        LegacyGaState::Down => (s2, true),
        LegacyGaState::Resuming => (legacy_attach(s2, usb), true),
        LegacyGaState::Suspending => (s2, false),
    }
}

pub open spec fn legacy_suspending(s: LegacyView) -> LegacyView {
    LegacyView { ga: LegacyGaState::Suspending, ..legacy_detach(s) }
}

pub open spec fn legacy_hotkey(s: LegacyView, index: u32, usb: Seq<Option<(String, String)>>) -> LegacyView {
    if index < s.hotkeys.len() {
        match s.hotkeys[index as int].action {
            HotKeyAction::Action(a) => legacy_action(s, a, usb),
            HotKeyAction::Exec(cmd) => legacy_with(s, seq![EffectView::Exec(cmd@)]),
        }
    } else {
        s
    }
}

/// Whether hotkey `index` exists and detaches input.
pub open spec fn legacy_hotkey_detaches(s: LegacyView, index: u32) -> bool {
    index < s.hotkeys.len() && (s.hotkeys[index as int].action matches HotKeyAction::Action(Action::IoExit))
}

impl Controller {
    /// A controller whose guest agent is down and whose devices are detached.
    /// Starts by enabling QMP capabilities.
    pub fn new(machine_config: MachineConfig) -> (r: Controller)
        ensures
            r@.usb_devices == machine_config.usb_devices@,
            r@.hotkeys == machine_config.hotkeys@,
            r@.ga == LegacyGaState::Down,
            !r@.io_attached,
            r@.effects == seq![EffectView::Monitor(QmpCommandView::QmpCapabilities)],
    {
        let mut effects = Vec::new();
        effects.push(Effect::Monitor(QmpCommand::QmpCapabilities));
        let r = Controller { machine_config, ga: LegacyGaState::Down, io_attached: false, effects };
        assert(r@.effects =~= seq![EffectView::Monitor(QmpCommandView::QmpCapabilities)]);
        r
    }

    /// The state of the guest agent.
    pub fn ga_state(&self) -> (r: LegacyGaState)
        ensures
            r == self@.ga,
    {
        self.ga
    }

    /// The number of configured USB devices, one resolution each.
    pub fn usb_device_count(&self) -> (r: usize)
        ensures
            r == self@.usb_devices.len(),
    {
        self.machine_config.usb_devices.len()
    }

    /// Whether hotkey `index` may run now: one that detaches input cannot
    /// while the guest suspends.
    pub fn hotkey_runnable(&self, index: u32) -> (r: bool)
        ensures
            r == (legacy_hotkey_detaches(self@, index) ==> self@.ga != LegacyGaState::Suspending),
    {
        let idx = index as usize;
        if idx < self.machine_config.hotkeys.len() {
            match &self.machine_config.hotkeys[idx].action {
                HotKeyAction::Action(Action::IoExit) => !matches!(self.ga, LegacyGaState::Suspending),
                _ => true,
            }
        } else {
            true
        }
    }

    /// Hands the queued effects to the caller, oldest first, and clears the queue.
    pub fn take_effects(&mut self) -> (r: Vec<Effect>)
        ensures
            r@.map_values(|e: Effect| e@) == old(self)@.effects,
            final(self)@ == legacy_cleared(old(self)@),
    {
        let mut out = Vec::new();
        std::mem::swap(&mut out, &mut self.effects);
        assert(self@.effects =~= Seq::<EffectView>::empty());
        out
    }

    fn emit(&mut self, e: Effect)
        ensures
            final(self)@ == legacy_with(old(self)@, seq![e@]),
    {
        self.effects.push(e);
        assert(self@.effects =~= old(self)@.effects + seq![e@]);
    }

    /// Called periodically: pings the guest agent; a ping that was never
    /// answered means it died, which detaches the devices. Returns whether
    /// the pinging should go on.
    pub fn ga_ping(&mut self) -> (r: bool)
        ensures
            (final(self)@, r) == legacy_ping(old(self)@),
    {
        match self.ga {
            LegacyGaState::Pinging => {
                self.ga = LegacyGaState::Down;
                self.io_detach();
                false
            }
            LegacyGaState::Up => {
                self.ga = LegacyGaState::Pinging;
                let mut b = Vec::new();
                b.push(GA_PING);
                assert(b@ =~= seq![GA_PING]);
                self.emit(Effect::GaRaw(b));
                true
            }
            _ => false,
        }
    }

    /// The guest agent answered a ping.
    pub fn ga_pong(&mut self)
        ensures
            final(self)@ == legacy_pong(old(self)@),
    {
        if self.ga == LegacyGaState::Pinging {
            self.ga = LegacyGaState::Up;
        }
    }

    /// The guest agent (re)started: registers the hotkeys and marks it up.
    /// Returns whether a new pinger must be started.
    pub fn ga_hello(&mut self, usb: &UsbResolution) -> (r: bool)
        requires
            usb@.len() == old(self)@.usb_devices.len(),
        ensures
            (final(self)@, r) == legacy_hello(old(self)@, usb@),
    {
        self.emit(Effect::NotifyReady);
        let n = self.machine_config.hotkeys.len();
        let mut i: usize = 0;
        let ghost s0 = self@;
        while i < n
            invariant
                n == self@.hotkeys.len(),
                i <= n,
                s0.hotkeys == self@.hotkeys,
                self@ == legacy_with(s0, legacy_register_commands(s0.hotkeys, i as int)),
            decreases n - i,
        {
            let mut buf: Vec<u8> = Vec::new();
            buf.push(GA_REGISTER_HOTKEY);
            push_u32_le(&mut buf, #[verifier::truncate] (i as u32));
            let key = self.machine_config.hotkeys[i].key.as_str();
            let bytes = key.as_bytes();
            push_u32_le(&mut buf, #[verifier::truncate] (bytes.len() as u32));
            let mut j: usize = 0;
            let ghost prefix = buf@;
            while j < bytes.len()
                invariant
                    j <= bytes@.len(),
                    buf@ == prefix + bytes@.subrange(0, j as int),
                decreases bytes@.len() - j,
            {
                buf.push(bytes[j]);
                j = j + 1;
                assert(buf@ =~= prefix + bytes@.subrange(0, j as int));
            }
            proof {
                assert(bytes@.subrange(0, bytes@.len() as int) =~= bytes@);
                assert(buf@ =~= register_hotkey_bytes(i as u32, s0.hotkeys[i as int].key@));
            }
            self.emit(Effect::GaRaw(buf));
            i = i + 1;
            assert(self@.effects =~= s0.effects + legacy_register_commands(s0.hotkeys, i as int));
        }
        let old_ga = self.ga;
        self.ga = LegacyGaState::Up;
        assert(self@.effects =~= old(self)@.effects + (seq![EffectView::NotifyReady] + legacy_register_commands(old(self)@.hotkeys, old(self)@.hotkeys.len() as int)));
        match old_ga {
            LegacyGaState::Pinging | LegacyGaState::Up => false,
            LegacyGaState::Down => true,
            LegacyGaState::Resuming => {
                self.io_attach(usb);
                true
            }
            LegacyGaState::Suspending => false,
        }
    }

    /// The guest agent reports that Windows is suspending: devices are detached.
    pub fn ga_suspending(&mut self)
        requires
            old(self)@.ga != LegacyGaState::Suspending,
        ensures
            final(self)@ == legacy_suspending(old(self)@),
    {
        self.io_detach();
        self.ga = LegacyGaState::Suspending;
    }

    /// A hotkey fired in the guest: runs its action or its shell command.
    /// Unknown hotkey ids are ignored.
    pub fn ga_hotkey(&mut self, index: u32, usb: &UsbResolution)
        requires
            usb@.len() == old(self)@.usb_devices.len(),
            legacy_hotkey_detaches(old(self)@, index) ==> old(self)@.ga != LegacyGaState::Suspending,
        ensures
            final(self)@ == legacy_hotkey(old(self)@, index, usb@),
    {
        let idx = index as usize;
        if idx < self.machine_config.hotkeys.len() {
            match &self.machine_config.hotkeys[idx].action {
                HotKeyAction::Action(a) => {
                    let a = *a;
                    self.action(a, usb);
                }
                HotKeyAction::Exec(cmd) => {
                    let cmd = cmd.clone();
                    self.emit(Effect::Exec(cmd));
                }
            }
        }
    }

    /// Executes a built-in action.
    pub fn action(&mut self, action: Action, usb: &UsbResolution)
        requires
            usb@.len() == old(self)@.usb_devices.len(),
            action == Action::IoExit ==> old(self)@.ga != LegacyGaState::Suspending,
        ensures
            final(self)@ == legacy_action(old(self)@, action, usb@),
    {
        match action {
            Action::IoEntry => self.io_attach(usb),
            Action::IoEntryForced => self.io_force_attach(usb),
            Action::IoExit => self.io_detach(),
        }
    }

    /// Attaches the devices when the guest agent is up; wakes a suspending
    /// guest first.
    pub fn io_attach(&mut self, usb: &UsbResolution)
        requires
            usb@.len() == old(self)@.usb_devices.len(),
        ensures
            final(self)@ == legacy_attach(old(self)@, usb@),
    {
        match self.ga {
            LegacyGaState::Down | LegacyGaState::Resuming => {}
            LegacyGaState::Suspending => {
                self.emit(Effect::Monitor(QmpCommand::SystemWakeup));
                self.ga = LegacyGaState::Resuming;
            }
            LegacyGaState::Up | LegacyGaState::Pinging => self.io_force_attach(usb),
        }
    }

    /// Attaches all non-permanent, connected USB devices regardless of the
    /// guest agent's state.
    pub fn io_force_attach(&mut self, usb: &UsbResolution)
        requires
            usb@.len() == old(self)@.usb_devices.len(),
        ensures
            final(self)@ == legacy_force_attach(old(self)@, usb@),
    {
        if self.io_attached {
            return;
        }
        let ghost s0 = self@;
        let mut cmds = attach_effects(&self.machine_config.usb_devices, usb);
        let ghost added = cmds@;
        self.effects.append(&mut cmds);
        assert(self@.effects =~= s0.effects + added.map_values(|e: Effect| e@));
        self.io_attached = true;
    }

    /// Detaches every non-permanent USB device, if attached.
    pub fn io_detach(&mut self)
        requires
            old(self)@.ga != LegacyGaState::Suspending,
        ensures
            final(self)@ == legacy_detach(old(self)@),
    {
        if !self.io_attached {
            return;
        }
        let n = self.machine_config.usb_devices.len();
        let mut i: usize = 0;
        let ghost s0 = self@;
        while i < n
            invariant
                n == self@.usb_devices.len(),
                i <= n,
                s0 == old(self)@,
                self@ == legacy_with(s0, detach_commands(s0.usb_devices, i as int)),
            decreases n - i,
        {
            if !self.machine_config.usb_devices[i].permanent {
                self.emit(Effect::Monitor(QmpCommand::DeviceDel { id: usb_id_string(i) }));
            }
            i = i + 1;
            assert(self@.effects =~= s0.effects + detach_commands(s0.usb_devices, i as int));
        }
        self.io_attached = false;
    }

    /// Powers the guest down.
    pub fn shutdown(&mut self)
        ensures
            final(self)@ == legacy_with(old(self)@, seq![EffectView::Monitor(QmpCommandView::SystemPowerdown)]),
    {
        self.emit(Effect::Monitor(QmpCommand::SystemPowerdown));
    }
}

pub open spec fn legacy_cleared(s: LegacyView) -> LegacyView {
    LegacyView { effects: Seq::empty(), ..s }
}

/// A ping that is never answered: the first ping of a live guest agent keeps
/// pinging, the next one declares the agent down and detaches the devices.
pub proof fn law_legacy_unanswered_ping_detaches(s: LegacyView)
    requires
        s.ga == LegacyGaState::Up,
    ensures
        legacy_ping(s).1,
        !legacy_ping(legacy_ping(s).0).1,
        legacy_ping(legacy_ping(s).0).0.ga == LegacyGaState::Down,
        !legacy_ping(legacy_ping(s).0).0.io_attached,
{
}

/// Attaching is idempotent: a second attach does nothing.
pub proof fn law_legacy_attach_idempotent(s: LegacyView, usb: Seq<Option<(String, String)>>)
    ensures
        legacy_force_attach(s, usb).io_attached,
        legacy_force_attach(legacy_force_attach(s, usb), usb) == legacy_force_attach(s, usb),
{
}

} // verus!
