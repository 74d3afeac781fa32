use windows_gaming_driver::mainloop::{decode_ga_frame, GaFrame, PollableResult, clientpipe_step, control_client_step,
    pinger_step, drain_result, MonitorManager};
use windows_gaming_driver::driver::clientpipe::{GaCmdIn, ClipboardType};
use windows_gaming_driver::driver::clipboard::{Atoms, ClipboardRequestEvent, ClipboardResponse};
use windows_gaming_driver::driver::input::{handle_input_event, HostInputEvent, button, BTN_LEFT};
use windows_gaming_driver::monitor::{MonitorCodec, QmpCommand, InputEvent, InputButton, KeyValue};
use windows_gaming_driver::control::CodecError;
use windows_gaming_driver::controller::{Controller, LegacyGaState};
use windows_gaming_driver::config::MachineConfig;
use windows_gaming_driver::hotkeys::{KeyboardState, KeyBinding, Key};

#[test]
fn guest_agent_frames() {
    assert!(matches!(decode_ga_frame(&vec![]), GaFrame::Incomplete));
    assert!(matches!(decode_ga_frame(&vec![1, 9]), GaFrame::Message(GaCmdIn::ReportBoot, 1)));
    assert!(matches!(decode_ga_frame(&vec![5, 7, 0, 0]), GaFrame::Incomplete));
    assert!(matches!(decode_ga_frame(&vec![5, 7, 0, 0, 0]), GaFrame::Message(GaCmdIn::HotKey(7), 5)));
    assert!(matches!(decode_ga_frame(&vec![9]), GaFrame::Invalid(9)));
    match decode_ga_frame(&vec![6, 2, 0, 0, 0, b'h', b'i', 1]) {
        GaFrame::Message(GaCmdIn::HotKeyBindingFailed(s), 7) => assert_eq!(s, "hi"),
        _ => panic!("expected a failed binding"),
    }
    assert!(matches!(decode_ga_frame(&vec![6, 3, 0, 0, 0, b'h']), GaFrame::Incomplete));
}

#[test]
fn failed_binding_text_is_decoded_lossily() {
    match decode_ga_frame(&vec![6, 2, 0, 0, 0, 0xff, b'a']) {
        GaFrame::Message(GaCmdIn::HotKeyBindingFailed(s), 7) => assert_eq!(s, "\u{fffd}a"),
        _ => panic!("expected a failed binding"),
    }
}

#[test]
fn monitor_lines() {
    let mut buf = b"{\"QMP\": {}}\r\npartial".to_vec();
    let line = MonitorCodec.decode(&mut buf).unwrap();
    assert_eq!(line, Some("{\"QMP\": {}}\r".to_string()));
    assert_eq!(buf, b"partial".to_vec());
    assert_eq!(MonitorCodec.decode(&mut buf).unwrap(), None);
    assert_eq!(buf, b"partial".to_vec());
    let mut bad = vec![0xc3, 0x28, b'\n', b'x'];
    assert_eq!(MonitorCodec.decode(&mut bad), Err(CodecError::InvalidUtf8));
    assert_eq!(bad, vec![b'x']);
}

#[test]
fn event_sources_end_and_continue() {
    assert_eq!(drain_result(0), PollableResult::Death);
    assert_eq!(drain_result(12), PollableResult::Continue);
    let mut c = Controller::new(MachineConfig::default());
    let usb = vec![];
    assert_eq!(clientpipe_step(&mut c, None, &usb), PollableResult::Death);
    assert_eq!(clientpipe_step(&mut c, Some(GaCmdIn::ReportBoot), &usb), PollableResult::StartPinger);
    assert_eq!(c.ga_state(), LegacyGaState::Up);
    assert_eq!(pinger_step(&mut c), PollableResult::Continue);
    assert_eq!(clientpipe_step(&mut c, Some(GaCmdIn::Pong), &usb), PollableResult::Continue);
    assert_eq!(pinger_step(&mut c), PollableResult::Continue);
    assert_eq!(pinger_step(&mut c), PollableResult::Death);
    assert_eq!(control_client_step(&mut c, Some(2), &usb), PollableResult::Continue);
    assert_eq!(control_client_step(&mut c, None, &usb), PollableResult::Death);
}

#[test]
fn human_monitor_attach_lines() {
    let mut m = MonitorManager::new();
    m.set_io_attached(true);
    m.set_io_attached(true);
    m.set_io_attached(false);
    m.shutdown();
    assert_eq!(m.take_lines(), vec![
        "device_add usb-host,vendorid=0x1532,productid=0x0024,id=mouse".to_string(),
        "device_add usb-host,vendorid=0x1532,productid=0x011a,id=kbd".to_string(),
        "device_del kbd".to_string(),
        "device_del mouse".to_string(),
        "system_powerdown".to_string(),
    ]);
    assert!(m.take_lines().is_empty());
}

#[test]
fn clipboard_atoms() {
    let a = Atoms { clipboard: 1, targets: 2, utf8_string: 3, property: 4, png: 5 };
    assert_eq!(a.atom_to_cliptype(3), Some(ClipboardType::Text));
    assert_eq!(a.atom_to_cliptype(2), Some(ClipboardType::NoType));
    assert_eq!(a.atom_to_cliptype(99), None);
    assert_eq!(a.cliptype_to_atom(ClipboardType::Image), Some(5));
    assert_eq!(a.read_target(ClipboardType::NoType), 2);
    assert_eq!(a.formats_of_targets(&vec![5, 7, 3]), vec![ClipboardType::Image, ClipboardType::Text]);
    assert_eq!(a.atoms_of_types(&vec![ClipboardType::Text, ClipboardType::NoType]), vec![3, 2]);
    let ev = ClipboardRequestEvent { time: 0, requestor: 9, selection: 1, target: 3, property: 4, desired_type: ClipboardType::Text };
    let r = ev.reply_data(vec![1, 2]);
    assert_eq!(r.event, ev);
    assert!(matches!(r.response, ClipboardResponse::Data(ref d) if d == &vec![1, 2]));
    assert_eq!(ev.desired_type(), ClipboardType::Text);
}

#[test]
fn input_forwarding() {
    let bindings = vec![KeyBinding::new(vec![], Key::A, false)];
    let mut kb = KeyboardState::new(&bindings);
    assert_eq!(button(BTN_LEFT), Some(InputButton::Left));
    assert_eq!(button(0), None);
    let (fired, cmd) = handle_input_event(&mut kb, HostInputEvent::Key { code: 30, pressed: true });
    assert_eq!(fired, vec![0]);
    match cmd {
        Some(QmpCommand::InputSendEvent { events }) => {
            assert_eq!(events.len(), 1);
            assert!(matches!(events[0], InputEvent::Key { down: true, key: KeyValue::Qcode("a") }));
        }
        _ => panic!("expected a key event"),
    }
    let (_, cmd) = handle_input_event(&mut kb, HostInputEvent::PointerScroll { steps: -2 });
    match cmd {
        Some(QmpCommand::InputSendEvent { events }) => {
            assert_eq!(events.len(), 4);
            assert!(matches!(events[0], InputEvent::Btn { down: true, button: InputButton::WheelUp }));
        }
        _ => panic!("expected wheel clicks"),
    }
    let (_, cmd) = handle_input_event(&mut kb, HostInputEvent::Other);
    assert!(cmd.is_none());
}

#[test]
fn monitor_line_framing_keeps_rest() {
    let mut buf = b"{\"return\": {}}".to_vec();
    buf.push(b'\n');
    buf.extend_from_slice(b"{\"ev");
    assert_eq!(MonitorCodec.decode(&mut buf), Ok(Some("{\"return\": {}}".to_string())));
    assert_eq!(buf, b"{\"ev".to_vec());
}

#[test]
fn selection_requests_default_to_text() {
    let a = Atoms { clipboard: 1, targets: 2, utf8_string: 3, property: 4, png: 5 };
    let ev = a.selection_request(10, 11, 1, 5, 12);
    assert_eq!(ev.desired_type, ClipboardType::Image);
    assert_eq!(ev.requestor, 11);
    let ev = a.selection_request(10, 11, 1, 77, 12);
    assert_eq!(ev.desired_type, ClipboardType::Text);
}
