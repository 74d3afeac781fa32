//! The event loop of the byte-protocol driver: decoding the guest agent's
//! byte stream, dispatching control client bytes, the pinger, and the
//! human monitor used to attach keyboard and mouse.
use vstd::prelude::*;
use vstd::utf8::{valid_utf8, decode_utf8};
use crate::wire::{le_u32, read_u32_le, copy_range};
use crate::driver::clientpipe::GaCmdIn;
use crate::driver::controller::UsbResolution;
use crate::controller::{Controller, LegacyView, legacy_hello, legacy_suspending, legacy_pong, legacy_hotkey,
    legacy_ping, legacy_attach, legacy_with, legacy_force_attach, legacy_hotkey_detaches, LegacyGaState};
use crate::driver::controller::EffectView;
use crate::monitor::QmpCommandView;
use crate::text::push_str;

verus! {

/// What the lossy UTF-8 decoding of `String::from_utf8_lossy` gives for some
/// bytes (invalid sequences become U+FFFD).
pub uninterp spec fn utf8_lossy(bytes: Seq<u8>) -> Seq<char>;

/// Decodes bytes as UTF-8, replacing invalid sequences
/// (`String::from_utf8_lossy`). Valid UTF-8 comes out unchanged.
#[verifier::external_body]
pub(crate) fn lossy_string(bytes: &Vec<u8>) -> (r: String)
    ensures
        r@ == utf8_lossy(bytes@),
        valid_utf8(bytes@) ==> r@ == decode_utf8(bytes@),
{
    String::from_utf8_lossy(bytes.as_slice()).into_owned()
}

/// What the front of the guest agent's byte stream holds.
#[derive(Debug)]
pub enum GaFrame {
    /// Not enough bytes yet.
    Incomplete,
    /// A message and the number of bytes it took.
    Message(GaCmdIn, usize),
    /// An unknown command byte (one byte is consumed).
    Invalid(u8),
}

/// The bytes of the guest agent's messages, as a specification of the decoder:
/// `None` while incomplete, `Some(Err(b))` for an unknown byte, otherwise the
/// message's kind, its number (hotkey id) or text, and its length.
pub open spec fn spec_ga_frame(buf: Seq<u8>) -> Option<Result<(u8, u32, Seq<u8>, nat), u8>> {
    if buf.len() == 0 {
        None
    } else if buf[0] == 1 || buf[0] == 3 || buf[0] == 4 {
        Some(Ok((buf[0], 0u32, Seq::empty(), 1nat)))
    } else if buf[0] == 5 {
        if buf.len() >= 5 { Some(Ok((5u8, le_u32(buf.subrange(1, 5)), Seq::empty(), 5nat))) } else { None }
    } else if buf[0] == 6 {
        if buf.len() >= 5 && buf.len() >= 5 + le_u32(buf.subrange(1, 5)) {
            let len = le_u32(buf.subrange(1, 5));
            Some(Ok((6u8, len, buf.subrange(5, 5 + len), (5 + len) as nat)))
        } else {
            None
        }
    } else {
        Some(Err(buf[0]))
    }
}

/// Decodes the next message of the guest agent's byte stream: 1 reports the
/// boot, 3 suspending, 4 a pong, 5 a fired hotkey (with a `u32` id), 6 a
/// failed hotkey binding (with a `u32` length and that many bytes of text).
pub fn decode_ga_frame(buf: &Vec<u8>) -> (r: GaFrame)
    ensures
        match spec_ga_frame(buf@) {
            None => r is Incomplete,
            Some(Err(b)) => r == GaFrame::Invalid(b),
            Some(Ok((kind, num, text, len))) => r matches GaFrame::Message(m, n) && n == len && match m {
                GaCmdIn::ReportBoot => kind == 1,
                GaCmdIn::Suspending => kind == 3,
                GaCmdIn::Pong => kind == 4,
                GaCmdIn::HotKey(id) => kind == 5 && id == num,
                GaCmdIn::HotKeyBindingFailed(s) => kind == 6 && s@ == utf8_lossy(text),
            },
        },
{
    let n = buf.len();
    if n == 0 {
        return GaFrame::Incomplete;
    }
    let b = buf[0];
    if b == 1 {
        GaFrame::Message(GaCmdIn::ReportBoot, 1)
    } else if b == 3 {
        GaFrame::Message(GaCmdIn::Suspending, 1)
    } else if b == 4 {
        GaFrame::Message(GaCmdIn::Pong, 1)
    } else if b == 5 {
        if n >= 5 {
            GaFrame::Message(GaCmdIn::HotKey(read_u32_le(buf, 1)), 5)
        } else {
            GaFrame::Incomplete
        }
    } else if b == 6 {
        if n < 5 {
            return GaFrame::Incomplete;
        }
        let len = read_u32_le(buf, 1) as usize;
        if n - 5 < len {
            return GaFrame::Incomplete;
        }
        let text = copy_range(buf, 5, 5 + len);
        let s = lossy_string(&text);
        GaFrame::Message(GaCmdIn::HotKeyBindingFailed(s), 5 + len)
    } else {
        GaFrame::Invalid(b)
    }
}

/// What an event source asks of the event loop after it ran.
#[derive(Debug, Clone, Copy, PartialEq, Eq, Structural)]
pub enum PollableResult {
    /// Keep the source.
    Continue,
    /// The source is finished and is removed.
    Death,
    /// Start a pinger for the guest agent.
    StartPinger,
}

/// Handles one message of the guest agent (`None` when its stream ended).
pub fn clientpipe_step(ctrl: &mut Controller, msg: Option<GaCmdIn>, usb: &UsbResolution) -> (r: PollableResult)
    requires
        usb@.len() == old(ctrl)@.usb_devices.len(),
        msg matches Some(GaCmdIn::Suspending) ==> old(ctrl)@.ga != LegacyGaState::Suspending,
        msg matches Some(GaCmdIn::HotKey(id)) ==> (legacy_hotkey_detaches(old(ctrl)@, id) ==> old(ctrl)@.ga != LegacyGaState::Suspending),
    ensures
        match msg {
            None => r == PollableResult::Death && final(ctrl)@ == old(ctrl)@,
            Some(GaCmdIn::ReportBoot) => final(ctrl)@ == legacy_hello(old(ctrl)@, usb@).0
                && r == (if legacy_hello(old(ctrl)@, usb@).1 { PollableResult::StartPinger } else { PollableResult::Continue }),
            Some(GaCmdIn::Suspending) => final(ctrl)@ == legacy_suspending(old(ctrl)@) && r == PollableResult::Continue,
            Some(GaCmdIn::Pong) => final(ctrl)@ == legacy_pong(old(ctrl)@) && r == PollableResult::Continue,
            Some(GaCmdIn::HotKey(id)) => final(ctrl)@ == legacy_hotkey(old(ctrl)@, id, usb@) && r == PollableResult::Continue,
            Some(GaCmdIn::HotKeyBindingFailed(_)) => final(ctrl)@ == old(ctrl)@ && r == PollableResult::Continue,
        },
{
    match msg {
        None => PollableResult::Death,
        Some(GaCmdIn::ReportBoot) => {
            if ctrl.ga_hello(usb) {
                PollableResult::StartPinger
            } else {
                PollableResult::Continue
            }
        }
        Some(GaCmdIn::Suspending) => {
            ctrl.ga_suspending();
            PollableResult::Continue
        }
        Some(GaCmdIn::Pong) => {
            ctrl.ga_pong();
            PollableResult::Continue
        }
        Some(GaCmdIn::HotKey(id)) => {
            ctrl.ga_hotkey(id, usb);
            PollableResult::Continue
        }
        Some(GaCmdIn::HotKeyBindingFailed(_)) => PollableResult::Continue,
    }
}

/// Handles one byte of a control client (`None` when it disconnected):
/// 1 enters, 2 shuts the guest down, 3 forces entry; other bytes are ignored.
pub fn control_client_step(ctrl: &mut Controller, byte: Option<u8>, usb: &UsbResolution) -> (r: PollableResult)
    requires
        usb@.len() == old(ctrl)@.usb_devices.len(),
    ensures
        match byte {
            None => r == PollableResult::Death && final(ctrl)@ == old(ctrl)@,
            Some(1u8) => final(ctrl)@ == legacy_attach(old(ctrl)@, usb@) && r == PollableResult::Continue,
            Some(2u8) => final(ctrl)@ == legacy_with(old(ctrl)@, seq![EffectView::Monitor(QmpCommandView::SystemPowerdown)])
                && r == PollableResult::Continue,
            Some(3u8) => final(ctrl)@ == legacy_force_attach(old(ctrl)@, usb@) && r == PollableResult::Continue,
            Some(_) => final(ctrl)@ == old(ctrl)@ && r == PollableResult::Continue,
        },
{
    match byte {
        None => PollableResult::Death,
        Some(1u8) => {
            ctrl.io_attach(usb);
            PollableResult::Continue
        }
        Some(2u8) => {
            ctrl.shutdown();
            PollableResult::Continue
        }
        Some(3u8) => {
            ctrl.io_force_attach(usb);
            PollableResult::Continue
        }
        Some(_) => PollableResult::Continue,
    }
}

/// One tick of the pinger: pings, and ends the pinger when the agent is
/// declared down.
pub fn pinger_step(ctrl: &mut Controller) -> (r: PollableResult)
    ensures
        final(ctrl)@ == legacy_ping(old(ctrl)@).0,
        r == (if legacy_ping(old(ctrl)@).1 { PollableResult::Continue } else { PollableResult::Death }),
{
    if ctrl.ga_ping() {
        PollableResult::Continue
    } else {
        PollableResult::Death
    }
}

/// After draining `count` bytes of output: an empty read means the source
/// closed.
pub fn drain_result(count: usize) -> (r: PollableResult)
    ensures
        r == (if count == 0 { PollableResult::Death } else { PollableResult::Continue }),
{
    if count == 0 {
        PollableResult::Death
    } else {
        PollableResult::Continue
    }
}

/// Attaches keyboard and mouse through qemu's human monitor.
pub struct MonitorManager {
    io_attached: bool,
    lines: Vec<String>,
}

pub open spec fn attach_lines() -> Seq<Seq<char>> {
    seq!["device_add usb-host,vendorid=0x1532,productid=0x0024,id=mouse"@,
         "device_add usb-host,vendorid=0x1532,productid=0x011a,id=kbd"@]
}

pub open spec fn detach_lines() -> Seq<Seq<char>> {
    seq!["device_del kbd"@, "device_del mouse"@]
}

impl MonitorManager {
    pub fn new() -> (r: MonitorManager)
        ensures
            !r.io_attached(),
            r.lines().len() == 0,
    {
        MonitorManager { io_attached: false, lines: Vec::new() }
    }

    pub closed spec fn io_attached(&self) -> bool {
        self.io_attached
    }

    /// The monitor lines written so far and not yet taken.
    pub closed spec fn lines(&self) -> Seq<Seq<char>> {
        self.lines@.map_values(|l: String| l@)
    }

    fn writemon(&mut self, command: &str)
        ensures
            final(self).lines() == old(self).lines().push(command@),
            final(self).io_attached() == old(self).io_attached(),
    {
        let mut s = String::new();
        push_str(&mut s, command);
        self.lines.push(s);
        assert(final(self).lines() =~= old(self).lines().push(command@));
    }

    /// Attaches or detaches keyboard and mouse; nothing happens when they
    /// already are in that state.
    pub fn set_io_attached(&mut self, state: bool)
        ensures
            final(self).io_attached() == state,
            final(self).lines() == old(self).lines() + (if state == old(self).io_attached() {
                Seq::empty()
            } else if state {
                attach_lines()
            } else {
                detach_lines()
            }),
    {
        if state != self.io_attached {
            if state {
                self.writemon("device_add usb-host,vendorid=0x1532,productid=0x0024,id=mouse");
                self.writemon("device_add usb-host,vendorid=0x1532,productid=0x011a,id=kbd");
            } else {
                self.writemon("device_del kbd");
                self.writemon("device_del mouse");
            }
            self.io_attached = state;
        }
        assert(final(self).lines() =~= old(self).lines() + (if state == old(self).io_attached() {
                Seq::empty()
            } else if state {
                attach_lines()
            } else {
                detach_lines()
            }));
    }

    /// Powers the guest down.
    pub fn shutdown(&mut self)
        ensures
            final(self).lines() == old(self).lines().push("system_powerdown"@),
            final(self).io_attached() == old(self).io_attached(),
    {
        self.writemon("system_powerdown");
    }

    /// Hands the written lines to the caller and clears them.
    pub fn take_lines(&mut self) -> (r: Vec<String>)
        ensures
            r@.map_values(|l: String| l@) == old(self).lines(),
            final(self).lines().len() == 0,
            final(self).io_attached() == old(self).io_attached(),
    {
        let mut out = Vec::new();
        std::mem::swap(&mut out, &mut self.lines);
        out
    }
}


/// What the guest agent sends is read back whole, whatever follows it: a
/// one-byte report, a fired hotkey with its id, and a failed binding with its
/// text each come out with exactly the bytes they took.
pub proof fn law_ga_frame_roundtrip(kind: u8, id: u32, text: Seq<u8>, rest: Seq<u8>)
    requires
        text.len() <= u32::MAX,
    ensures
        (kind == 1 || kind == 3 || kind == 4) ==> spec_ga_frame(seq![kind] + rest) == Some(Ok::<_, u8>((kind, 0u32, Seq::<u8>::empty(), 1nat))),
        spec_ga_frame(seq![5u8] + crate::wire::le_bytes_u32(id) + rest) == Some(Ok::<_, u8>((5u8, id, Seq::<u8>::empty(), 5nat))),
        spec_ga_frame(seq![6u8] + crate::wire::le_bytes_u32(text.len() as u32) + text + rest)
            == Some(Ok::<_, u8>((6u8, text.len() as u32, text, (5 + text.len()) as nat))),
        !(kind == 1 || kind == 3 || kind == 4 || kind == 5 || kind == 6) ==> spec_ga_frame(seq![kind] + rest) == Some(Err::<(u8, u32, Seq<u8>, nat), u8>(kind)),
{
    crate::wire::lemma_le_u32_roundtrip(id);
    crate::wire::lemma_le_u32_roundtrip(text.len() as u32);
    let a = seq![5u8] + crate::wire::le_bytes_u32(id) + rest;
    assert(a.subrange(1, 5) =~= crate::wire::le_bytes_u32(id));
    let b = seq![6u8] + crate::wire::le_bytes_u32(text.len() as u32) + text + rest;
    assert(b.subrange(1, 5) =~= crate::wire::le_bytes_u32(text.len() as u32));
    assert(b.subrange(5, 5 + text.len() as int) =~= text);
}

} // verus!
