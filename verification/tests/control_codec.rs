use windows_gaming_driver::control::{Codec, ControlCmdIn, ControlCmdOut, ControlSession, ControlAction,
    encode_control_in, decode_control_out};

fn verify(data: &[u8], expected: Option<ControlCmdIn>, remaining: usize) {
    let mut bytes: Vec<u8> = Vec::new();
    bytes.extend(data);
    assert_eq!(Codec.decode(&mut bytes).unwrap(), expected);
    assert_eq!(bytes.len(), remaining);
}

#[test] fn none() { verify(&[], None, 0); }
#[test] fn invalid() { verify(&[0], None, 1); }
#[test] fn io_entry() { verify(&[1], Some(ControlCmdIn::IoEntry), 0); }
#[test] fn shutdown() { verify(&[2], Some(ControlCmdIn::Shutdown), 0); }
#[test] fn force_io_entry() { verify(&[3], Some(ControlCmdIn::ForceIoEntry), 0); }
#[test] fn io_exit() { verify(&[4], Some(ControlCmdIn::IoExit), 0); }
#[test] fn suspend() { verify(&[5], Some(ControlCmdIn::Suspend), 0); }

#[test]
fn multiple() {
    let mut bytes: Vec<u8> = Vec::new();
    bytes.extend(&[1, 2]);
    assert_eq!(Codec.decode(&mut bytes).unwrap(), Some(ControlCmdIn::IoEntry));
    assert_eq!(bytes.len(), 1);
    assert_eq!(Codec.decode(&mut bytes).unwrap(), Some(ControlCmdIn::Shutdown));
    assert_eq!(bytes.len(), 0);
}

#[test]
fn try_and_light_entry_decode() {
    verify(&[6], Some(ControlCmdIn::TryIoEntry), 0);
    verify(&[7, 1], Some(ControlCmdIn::LightEntry), 1);
}

#[test]
fn temporary_light_entry_decodes_coordinates() {
    verify(&[8, 0x10, 0, 0, 0, 0xff, 0xff, 0xff, 0xff, 4], Some(ControlCmdIn::TemporaryLightEntry { x: 16, y: -1 }), 1);
}

#[test]
fn unknown_byte_is_not_consumed() {
    verify(&[200, 1], None, 2);
}

#[test]
fn driver_encodes_mouse_edge() {
    let mut buf = Vec::new();
    Codec.encode(ControlCmdOut::MouseEdged { x: 1, y: -2 }, &mut buf).unwrap();
    assert_eq!(buf, vec![1, 1, 0, 0, 0, 0xfe, 0xff, 0xff, 0xff]);
    Codec.encode(ControlCmdOut::TemporaryLightAttach, &mut buf).unwrap();
    Codec.encode(ControlCmdOut::TemporaryLightDetach, &mut buf).unwrap();
    assert_eq!(&buf[9..], &[2, 3]);
}

#[test]
fn client_roundtrip_in() {
    let cmds = [
        ControlCmdIn::IoEntry, ControlCmdIn::TryIoEntry, ControlCmdIn::LightEntry, ControlCmdIn::Shutdown,
        ControlCmdIn::ForceIoEntry, ControlCmdIn::IoExit, ControlCmdIn::Suspend,
        ControlCmdIn::TemporaryLightEntry { x: -300, y: 70000 },
    ];
    for c in cmds.iter() {
        let mut buf = Vec::new();
        encode_control_in(*c, &mut buf);
        buf.push(4);
        assert_eq!(Codec.decode(&mut buf).unwrap(), Some(*c));
        assert_eq!(buf, vec![4]);
    }
}

#[test]
fn client_roundtrip_out() {
    let mut buf = Vec::new();
    Codec.encode(ControlCmdOut::MouseEdged { x: 1920, y: -5 }, &mut buf).unwrap();
    buf.push(2);
    assert_eq!(decode_control_out(&buf), Ok(Some((ControlCmdOut::MouseEdged { x: 1920, y: -5 }, 9))));
    assert_eq!(decode_control_out(&vec![1, 0, 0]), Ok(None));
    assert_eq!(decode_control_out(&vec![9]), Err(9));
}

#[test]
fn session_temporary_entry() {
    let mut s = ControlSession::new();
    assert_eq!(s.on_request(ControlCmdIn::TemporaryLightEntry { x: 3, y: 4 }), ControlAction::TemporaryEntry { x: 3, y: 4 });
    assert_eq!(s.on_temporary_entry(true), Some(ControlCmdOut::TemporaryLightAttach));
    assert_eq!(s.on_request(ControlCmdIn::IoExit), ControlAction::TemporaryExit);
    assert!(!s.temp_entry);
    assert_eq!(s.on_request(ControlCmdIn::IoExit), ControlAction::IoDetach);
    assert_eq!(s.on_temporary_entry(false), None);
    s.temp_entry = true;
    assert_eq!(s.on_request(ControlCmdIn::Shutdown), ControlAction::TemporaryExitAndClose);
}
