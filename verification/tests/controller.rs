use windows_gaming_driver::config::{MachineConfig, UsbDevice, UsbBinding, UsbId, UsbBus, HotKey, HotKeyAction, Action};
use windows_gaming_driver::driver::controller::{BoundHotKey, Controller, Effect, GaState, usb_id_string, usb_bus_string};
use windows_gaming_driver::driver::attach::attach_effects;
use windows_gaming_driver::driver::clientpipe::GaCmdOut;
use windows_gaming_driver::monitor::QmpCommand;
use windows_gaming_driver::hotkeys::{KeyBinding, Key, Modifier};
use windows_gaming_driver::controller::{Controller as LegacyController, LegacyGaState};

fn device(vendor: u16, permanent: bool, bus: UsbBus) -> UsbDevice {
    UsbDevice { binding: UsbBinding::ById(UsbId { vendor, product: 1 }), permanent, bus }
}

fn machine() -> MachineConfig {
    let mut m = MachineConfig::default();
    m.usb_devices = vec![device(1, false, UsbBus::Xhci), device(2, true, UsbBus::Xhci), device(3, false, UsbBus::Ehci)];
    m.hotkeys = vec![
        HotKey { key: "Ctrl+Alt+Insert".to_string(), action: HotKeyAction::Action(Action::IoExit) },
        HotKey { key: "Ctrl+Alt+F1".to_string(), action: HotKeyAction::Exec("notify-send hi".to_string()) },
    ];
    m
}

fn hotkeys() -> Vec<BoundHotKey> {
    vec![
        BoundHotKey {
            key: KeyBinding::new(vec![Modifier::Ctrl, Modifier::Alt], Key::Insert, true),
            action: HotKeyAction::Action(Action::IoExit),
        },
        BoundHotKey {
            key: KeyBinding::new(vec![Modifier::Ctrl, Modifier::Alt], Key::F1, false),
            action: HotKeyAction::Exec("notify-send hi".to_string()),
        },
    ]
}

fn usb() -> Vec<Option<(String, String)>> {
    vec![Some(("1".to_string(), "4".to_string())), Some(("1".to_string(), "5".to_string())), Some(("2".to_string(), "9".to_string()))]
}

fn up_controller() -> Controller {
    let mut c = Controller::new(machine(), hotkeys());
    let started = c.ga_hello(&usb());
    assert!(started);
    c.take_effects();
    c
}

#[test]
fn new_controller_enables_qmp() {
    let mut c = Controller::new(machine(), hotkeys());
    let e = c.take_effects();
    assert_eq!(e.len(), 1);
    assert!(matches!(e[0], Effect::Monitor(QmpCommand::QmpCapabilities)));
    assert_eq!(c.ga_state(), GaState::Down);
    assert!(c.take_effects().is_empty());
}

#[test]
fn hello_registers_hotkeys() {
    let mut c = Controller::new(machine(), hotkeys());
    c.take_effects();
    assert!(c.ga_hello(&usb()));
    let e = c.take_effects();
    assert_eq!(e.len(), 3);
    assert!(matches!(e[0], Effect::NotifyReady));
    match &e[1] {
        Effect::Ga(GaCmdOut::RegisterHotKey(r)) => {
            assert_eq!(r.id, 0);
            assert_eq!(r.modifiers, 0x4003);
            assert_eq!(r.key, 0x2D);
        }
        _ => panic!("expected a hotkey registration"),
    }
    assert!(matches!(&e[2], Effect::Ga(GaCmdOut::RegisterHotKey(r)) if r.id == 1));
    assert_eq!(c.ga_state(), GaState::Up);
}

#[test]
fn unanswered_ping_detaches() {
    let mut c = up_controller();
    c.io_attach(&usb());
    c.take_effects();
    assert!(c.ga_ping());
    let e = c.take_effects();
    assert!(matches!(e[0], Effect::Ga(GaCmdOut::Ping)));
    assert!(!c.ga_ping());
    assert_eq!(c.ga_state(), GaState::Down);
    let e = c.take_effects();
    assert_eq!(e.len(), 2);
    assert!(matches!(&e[0], Effect::Monitor(QmpCommand::DeviceDel { id }) if id == "usb0"));
    assert!(matches!(&e[1], Effect::Monitor(QmpCommand::DeviceDel { id }) if id == "usb2"));
}

#[test]
fn answered_ping_stays_up() {
    let mut c = up_controller();
    assert!(c.ga_ping());
    c.ga_pong();
    assert_eq!(c.ga_state(), GaState::Up);
    assert!(c.ga_ping());
}

#[test]
fn full_entry_attaches_by_controller_kind() {
    let mut c = up_controller();
    c.io_attach(&usb());
    let e = c.take_effects();
    assert_eq!(e.len(), 3);
    assert!(matches!(e[0], Effect::Ga(GaCmdOut::ReleaseModifiers)));
    match &e[1] {
        Effect::Monitor(QmpCommand::DeviceAdd { driver, id, bus, port, hostbus, hostaddr }) => {
            assert_eq!(*driver, "usb-host");
            assert_eq!(id, "usb2");
            assert_eq!(bus, "ehci0.0");
            assert_eq!(*port, 1);
            assert_eq!(hostbus, "2");
            assert_eq!(hostaddr, "9");
        }
        _ => panic!("expected a device_add"),
    }
    assert!(matches!(&e[2], Effect::Monitor(QmpCommand::DeviceAdd { id, bus, .. }) if id == "usb0" && bus == "xhci0.0"));
}

#[test]
fn detach_hotkey_detaches_and_exec_hotkey_runs() {
    let mut c = up_controller();
    c.io_attach(&usb());
    c.take_effects();
    assert!(c.hotkey_runnable(0));
    c.ga_hotkey(0, &usb());
    let e = c.take_effects();
    assert_eq!(e.len(), 2);
    c.ga_hotkey(1, &usb());
    let e = c.take_effects();
    assert!(matches!(&e[0], Effect::Exec(cmd) if cmd == "notify-send hi"));
    c.ga_hotkey(7, &usb());
    assert!(c.take_effects().is_empty());
}

#[test]
fn entry_while_agent_down_is_light() {
    let mut c = Controller::new(machine(), hotkeys());
    c.take_effects();
    c.io_attach(&usb());
    let e = c.take_effects();
    assert_eq!(e.len(), 2);
    assert!(matches!(e[0], Effect::Ga(GaCmdOut::ReleaseModifiers)));
    assert!(matches!(e[1], Effect::InputResume));
    c.io_detach();
    let e = c.take_effects();
    assert!(matches!(e[0], Effect::InputSuspend));
}

#[test]
fn suspend_waits_for_guest() {
    let mut c = up_controller();
    assert!(!c.suspend());
    let e = c.take_effects();
    assert!(matches!(e[0], Effect::Ga(GaCmdOut::Suspend)));
    c.ga_suspending();
    assert!(!c.detach_allowed());
    c.qemu_suspended();
    let e = c.take_effects();
    assert!(matches!(e[0], Effect::SuspendCompleted));
    assert!(c.suspend());
    c.io_attach(&usb());
    let e = c.take_effects();
    assert!(matches!(e[0], Effect::Monitor(QmpCommand::SystemWakeup)));
}

#[test]
fn qmp_names() {
    assert_eq!(usb_id_string(12), "usb12");
    assert_eq!(usb_bus_string(UsbBus::Ohci, 3), "ohci3.0");
}

#[test]
fn legacy_unanswered_ping_detaches() {
    let mut c = LegacyController::new(machine());
    c.take_effects();
    c.ga_hello(&usb());
    let e = c.take_effects();
    assert!(matches!(e[0], Effect::NotifyReady));
    match &e[1] {
        Effect::GaRaw(b) => {
            let mut expected = vec![2, 0, 0, 0, 0, 15, 0, 0, 0];
            expected.extend_from_slice(b"Ctrl+Alt+Insert");
            assert_eq!(b, &expected);
        }
        _ => panic!("expected raw hotkey registration"),
    }
    c.io_attach(&usb());
    c.take_effects();
    assert!(c.ga_ping());
    assert!(!c.ga_ping());
    assert_eq!(c.ga_state(), LegacyGaState::Down);
    let e = c.take_effects();
    assert!(e.iter().any(|x| matches!(x, Effect::Monitor(QmpCommand::DeviceDel { .. }))));
}

#[test]
fn legacy_attach_twice_is_idempotent() {
    let mut c = LegacyController::new(machine());
    c.ga_hello(&usb());
    c.io_attach(&usb());
    c.take_effects();
    c.io_attach(&usb());
    assert!(c.take_effects().is_empty());
}

fn attached(e: &Effect) -> (String, String, usize) {
    match e {
        Effect::Monitor(QmpCommand::DeviceAdd { id, bus, port, .. }) => (id.clone(), bus.clone(), *port),
        _ => panic!("expected a device_add"),
    }
}

#[test]
fn attach_order_sorts_stably_and_numbers_within_kind() {
    let devs = vec![
        device(1, false, UsbBus::Xhci),
        device(2, false, UsbBus::Uhci),
        device(3, true, UsbBus::Xhci),
        device(4, false, UsbBus::Uhci),
        device(5, false, UsbBus::Xhci),
        device(6, false, UsbBus::Uhci),
        device(7, false, UsbBus::Ohci),
    ];
    let host = Some(("1".to_string(), "2".to_string()));
    let mut usb = vec![host.clone(); 7];
    usb[5] = None;
    let e = attach_effects(&devs, &usb);
    let got: Vec<(String, String, usize)> = e.iter().map(attached).collect();
    let want = vec![
        ("usb6".to_string(), "ohci0.0".to_string(), 1),
        ("usb1".to_string(), "uhci0.0".to_string(), 1),
        ("usb3".to_string(), "uhci0.0".to_string(), 2),
        ("usb0".to_string(), "xhci0.0".to_string(), 1),
        ("usb4".to_string(), "xhci0.0".to_string(), 3),
    ];
    assert_eq!(got, want);
}

#[test]
fn attach_order_moves_to_next_controller_when_full() {
    let devs = vec![device(1, false, UsbBus::Uhci), device(2, false, UsbBus::Uhci), device(3, false, UsbBus::Uhci)];
    let usb = vec![Some(("1".to_string(), "2".to_string())); 3];
    let e = attach_effects(&devs, &usb);
    let got: Vec<(String, String, usize)> = e.iter().map(attached).collect();
    assert_eq!(got[2], ("usb2".to_string(), "uhci1.0".to_string(), 1));
    assert_eq!(got.len(), 3);
}
