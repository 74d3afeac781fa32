//! Input forwarding during a light entry: host input events become QMP
//! `input-send-event` commands, and key presses may fire hotkeys.
use vstd::prelude::*;
use crate::hotkeys::{KeyboardState, spec_input_linux};
use crate::monitor::{QmpCommand, QmpCommandView, InputEvent, InputEventView, InputButton, KeyValue};

verus! {

/// An input event of the host, with the values forwarding needs.
#[derive(Debug, Clone, Copy)]
pub enum HostInputEvent {
    /// Relative pointer motion.
    PointerMotion { dx: u32, dy: u32 },
    /// A pointer button (Linux button code) changed state.
    PointerButton { button: u32, pressed: bool },
    /// Vertical scrolling by a number of wheel steps (positive is down).
    PointerScroll { steps: i32 },
    /// A key (Linux key code) changed state.
    Key { code: u32, pressed: bool },
    /// Any other event.
    Other,
}

pub const BTN_LEFT: u32 = 0x110;
pub const BTN_RIGHT: u32 = 0x111;
pub const BTN_MIDDLE: u32 = 0x112;
pub const BTN_SIDE: u32 = 0x113;
pub const BTN_EXTRA: u32 = 0x114;

/// The QMP button for a Linux button code.
pub open spec fn spec_button(code: u32) -> Option<InputButton> {
    if code == BTN_LEFT {
        Some(InputButton::Left)
    } else if code == BTN_RIGHT {
        Some(InputButton::Right)
    } else if code == BTN_MIDDLE {
        Some(InputButton::Middle)
    } else if code == BTN_SIDE {
        Some(InputButton::Side)
    } else if code == BTN_EXTRA {
        Some(InputButton::Extra)
    } else {
        None
    }
}

pub fn button(code: u32) -> (r: Option<InputButton>)
    ensures
        r == spec_button(code),
{
    if code == BTN_LEFT {
        Some(InputButton::Left)
    } else if code == BTN_RIGHT {
        Some(InputButton::Right)
    } else if code == BTN_MIDDLE {
        Some(InputButton::Middle)
    } else if code == BTN_SIDE {
        Some(InputButton::Side)
    } else if code == BTN_EXTRA {
        Some(InputButton::Extra)
    } else {
        None
    }
}

/// `n` clicks (press, release) of a wheel button.
pub open spec fn wheel_clicks(b: InputButton, n: nat) -> Seq<InputEventView>
    decreases n,
{
    if n == 0 {
        Seq::empty()
    } else {
        wheel_clicks(b, (n - 1) as nat) + seq![InputEventView::Btn { down: true, button: b }, InputEventView::Btn { down: false, button: b }]
    }
}

/// The magnitude of a step count.
pub open spec fn steps_abs(steps: i32) -> nat {
    if steps < 0 { (-steps) as nat } else { steps as nat }
}

/// The command forwarding a non-key event, if it is forwarded.
pub open spec fn spec_pointer_command(e: HostInputEvent) -> Option<QmpCommandView> {
    match e {
        HostInputEvent::PointerMotion { dx, dy } => Some(QmpCommandView::InputSendEvent { events: seq![
            InputEventView::Rel { axis: "x"@, value: dx },
            InputEventView::Rel { axis: "y"@, value: dy },
        ] }),
        HostInputEvent::PointerButton { button, pressed } => match spec_button(button) {
            Some(b) => Some(QmpCommandView::InputSendEvent { events: seq![InputEventView::Btn { down: pressed, button: b }] }),
            None => None,
        },
        HostInputEvent::PointerScroll { steps } => if steps == 0 {
            None
        } else {
            let dir = if steps > 0 { InputButton::WheelDown } else { InputButton::WheelUp };
            Some(QmpCommandView::InputSendEvent { events: wheel_clicks(dir, steps_abs(steps)) })
        },
        _ => None,
    }
}

/// The command forwarding a key event.
pub open spec fn key_command(down: bool, q: Seq<char>) -> QmpCommandView {
    QmpCommandView::InputSendEvent { events: seq![InputEventView::Key { down, qcode: q }] }
}

/// Turns a host input event into the QMP command that forwards it (if any),
/// and reports the hotkeys a key press fires, by binding index.
pub fn handle_input_event(kb: &mut KeyboardState, event: HostInputEvent) -> (r: (Vec<usize>, Option<QmpCommand>))
    requires
        event matches HostInputEvent::PointerScroll { steps } ==> steps != i32::MIN,
    ensures
        match event {
            HostInputEvent::Key { code, pressed } => match spec_input_linux(old(kb)@, code, pressed) {
                None => r.0@.len() == 0 && r.1 is None && final(kb)@ == old(kb)@,
                Some((s, fired, q)) => final(kb)@ == s && r.0@ == fired
                    && (r.1 matches Some(c) && c@ == key_command(pressed, q)),
            },
            _ => r.0@.len() == 0 && final(kb)@ == old(kb)@ && (match spec_pointer_command(event) {
                None => r.1 is None,
                Some(v) => (r.1 matches Some(c) && c@ == v),
            }),
        },
{
    match event {
        HostInputEvent::PointerMotion { dx, dy } => {
            let mut events = Vec::new();
            events.push(InputEvent::Rel { axis: "x", value: dx });
            events.push(InputEvent::Rel { axis: "y", value: dy });
            let c = QmpCommand::InputSendEvent { events };
            assert(c@ =~= spec_pointer_command(event)->0);
            (Vec::new(), Some(c))
        }
        HostInputEvent::PointerButton { button: code, pressed } => {
            match button(code) {
                Some(b) => {
                    let mut events = Vec::new();
                    events.push(InputEvent::Btn { down: pressed, button: b });
                    let c = QmpCommand::InputSendEvent { events };
                    assert(c@ =~= spec_pointer_command(event)->0);
                    (Vec::new(), Some(c))
                }
                None => (Vec::new(), None),
            }
        }
        HostInputEvent::PointerScroll { steps } => {
            if steps == 0 {
                return (Vec::new(), None);
            }
            let dir = if steps > 0 { InputButton::WheelDown } else { InputButton::WheelUp };
            let n: u32 = if steps < 0 { (-steps) as u32 } else { steps as u32 };
            let mut events: Vec<InputEvent> = Vec::new();
            let mut i: u32 = 0;
            while i < n
                invariant
                    i <= n,
                    events@.map_values(|e: InputEvent| e@) == wheel_clicks(dir, i as nat),
                decreases n - i,
            {
                events.push(InputEvent::Btn { down: true, button: dir });
                events.push(InputEvent::Btn { down: false, button: dir });
                i = i + 1;
                assert(events@.map_values(|e: InputEvent| e@) =~= wheel_clicks(dir, i as nat));
            }
            let c = QmpCommand::InputSendEvent { events };
            assert(n as nat == steps_abs(steps));
            assert(c@ =~= spec_pointer_command(event)->0);
            (Vec::new(), Some(c))
        }
        HostInputEvent::Key { code, pressed } => {
            match kb.input_linux(code, pressed) {
                None => (Vec::new(), None),
                Some((fired, qcode)) => {
                    let mut events = Vec::new();
                    events.push(InputEvent::Key { down: pressed, key: KeyValue::Qcode(qcode) });
                    let c = QmpCommand::InputSendEvent { events };
                    assert(c@ =~= key_command(pressed, qcode@));
                    (fired, Some(c))
                }
            }
        }
        HostInputEvent::Other => (Vec::new(), None),
    }
}

} // verus!
