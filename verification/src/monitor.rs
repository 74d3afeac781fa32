//! QMP commands sent to qemu's monitor, and the line framing of its replies.
use vstd::prelude::*;
use vstd::utf8::{valid_utf8, decode_utf8};
use crate::control::CodecError;
use crate::wire::{copy_range, drop_front};

verus! {

/// Mouse buttons (and wheel directions) as QMP names them.
#[derive(Debug, Clone, Copy, PartialEq, Eq, Structural)]
pub enum InputButton {
    Left,
    Right,
    Middle,
    Side,
    Extra,
    WheelUp,
    WheelDown,
}

/// A key as QMP names it.
#[derive(Debug, Clone, Copy)]
pub enum KeyValue {
    Qcode(&'static str),
}

/// One event of an `input-send-event` command.
#[derive(Debug, Clone, Copy)]
pub enum InputEvent {
    Rel { axis: &'static str, value: u32 },
    Btn { down: bool, button: InputButton },
    Key { down: bool, key: KeyValue },
}

/// Commands sent to qemu's monitor.
#[derive(Debug, Clone)]
pub enum QmpCommand {
    QmpCapabilities,
    DeviceAdd {
        driver: &'static str,
        id: String,
        bus: String,
        port: usize,
        hostbus: String,
        hostaddr: String,
    },
    DeviceDel { id: String },
    SystemPowerdown,
    SystemWakeup,
    InputSendEvent { events: Vec<InputEvent> },
}

/// The mathematical content of an input event.
#[verifier::ext_equal]
pub enum InputEventView {
    Rel { axis: Seq<char>, value: u32 },
    Btn { down: bool, button: InputButton },
    Key { down: bool, qcode: Seq<char> },
}

impl View for InputEvent {
    type V = InputEventView;

    open spec fn view(&self) -> InputEventView {
        match *self {
            InputEvent::Rel { axis, value } => InputEventView::Rel { axis: axis@, value },
            InputEvent::Btn { down, button } => InputEventView::Btn { down, button },
            InputEvent::Key { down, key: KeyValue::Qcode(q) } => InputEventView::Key { down, qcode: q@ },
        }
    }
}

/// The mathematical content of a QMP command.
#[verifier::ext_equal]
pub enum QmpCommandView {
    QmpCapabilities,
    DeviceAdd {
        driver: Seq<char>,
        id: Seq<char>,
        bus: Seq<char>,
        port: nat,
        hostbus: Seq<char>,
        hostaddr: Seq<char>,
    },
    DeviceDel { id: Seq<char> },
    SystemPowerdown,
    SystemWakeup,
    InputSendEvent { events: Seq<InputEventView> },
}

impl View for QmpCommand {
    type V = QmpCommandView;

    open spec fn view(&self) -> QmpCommandView {
        match self {
            QmpCommand::QmpCapabilities => QmpCommandView::QmpCapabilities,
            QmpCommand::DeviceAdd { driver, id, bus, port, hostbus, hostaddr } => QmpCommandView::DeviceAdd {
                driver: driver@,
                id: id@,
                bus: bus@,
                port: *port as nat,
                hostbus: hostbus@,
                hostaddr: hostaddr@,
            },
            QmpCommand::DeviceDel { id } => QmpCommandView::DeviceDel { id: id@ },
            QmpCommand::SystemPowerdown => QmpCommandView::SystemPowerdown,
            QmpCommand::SystemWakeup => QmpCommandView::SystemWakeup,
            QmpCommand::InputSendEvent { events } => QmpCommandView::InputSendEvent {
                events: events@.map_values(|e: InputEvent| e@),
            },
        }
    }
}

/// Decodes bytes as UTF-8 (`String::from_utf8`): succeeds exactly on valid
/// UTF-8, and then holds the characters the bytes encode.
#[verifier::external_body]
pub(crate) fn utf8_string(bytes: Vec<u8>) -> (r: Option<String>)
    ensures
        r is Some <==> valid_utf8(bytes@),
        r is Some ==> r->0@ == decode_utf8(bytes@),
{
    String::from_utf8(bytes).ok()
}

/// The position of the first newline byte, if any.
pub open spec fn first_newline(buf: Seq<u8>) -> Option<int>
    decreases buf.len(),
{
    if buf.len() == 0 {
        None
    } else if buf[0] == 10u8 {
        Some(0)
    } else {
        match first_newline(buf.drop_first()) {
            Some(i) => Some(i + 1),
            None => None,
        }
    }
}

pub proof fn lemma_first_newline_at(buf: Seq<u8>, i: int)
    requires
        0 <= i < buf.len(),
        buf[i] == 10u8,
        forall|j: int| 0 <= j < i ==> buf[j] != 10u8,
    ensures
        first_newline(buf) == Some(i),
    decreases i,
{
    if i > 0 {
        lemma_first_newline_at(buf.drop_first(), i - 1);
    }
}

pub proof fn lemma_first_newline_none(buf: Seq<u8>)
    requires
        forall|j: int| 0 <= j < buf.len() ==> buf[j] != 10u8,
    ensures
        first_newline(buf) is None,
    decreases buf.len(),
{
    if buf.len() > 0 {
        lemma_first_newline_none(buf.drop_first());
    }
}

/// Splits qemu's monitor output into lines.
pub struct MonitorCodec;

impl MonitorCodec {
    /// Takes the first complete line (without its newline) from `buf`.
    /// Returns `Ok(None)` and leaves the buffer alone when there is no newline;
    /// a line that is not UTF-8 is consumed and reported as an error.
    pub fn decode(&mut self, buf: &mut Vec<u8>) -> (r: Result<Option<String>, CodecError>)
        ensures
            match first_newline(old(buf)@) {
                None => r == Ok::<Option<String>, CodecError>(None) && final(buf)@ == old(buf)@,
                Some(i) => {
                    &&& final(buf)@ == old(buf)@.subrange(i + 1, old(buf)@.len() as int)
                    &&& (valid_utf8(old(buf)@.subrange(0, i)) ==> (r matches Ok(Some(s)) && s@ == decode_utf8(old(buf)@.subrange(0, i))))
                    &&& (!valid_utf8(old(buf)@.subrange(0, i)) ==> r == Err::<Option<String>, CodecError>(CodecError::InvalidUtf8))
                },
            },
    {
        let n = buf.len();
        let mut i: usize = 0;
        while i < n
            invariant
                n == buf@.len(),
                buf@ == old(buf)@,
                i <= n,
                forall|j: int| 0 <= j < i ==> buf@[j] != 10u8,
            decreases n - i,
        {
            if buf[i] == 10u8 {
                proof { lemma_first_newline_at(buf@, i as int); }
                let line = copy_range(buf, 0, i);
                drop_front(buf, i + 1);
                return match utf8_string(line) {
                    Some(s) => Ok(Some(s)),
                    None => Err(CodecError::InvalidUtf8),
                };
            }
            i = i + 1;
        }
        proof { lemma_first_newline_none(buf@); }
        Ok(None)
    }
}

/// A line written with its newline is read back as that line, whatever
/// follows it: the first newline of `line + "\n" + rest` ends `line`, so
/// `MonitorCodec::decode` takes exactly `line` and its newline and leaves
/// `rest`.
pub proof fn law_line_framing(line: Seq<u8>, rest: Seq<u8>)
    requires
        forall|j: int| 0 <= j < line.len() ==> line[j] != 10u8,
    ensures
        first_newline(line + seq![10u8] + rest) == Some(line.len() as int),
        (line + seq![10u8] + rest).subrange(0, line.len() as int) == line,
        (line + seq![10u8] + rest).subrange(line.len() as int + 1, (line + seq![10u8] + rest).len() as int) == rest,
{
    let b = line + seq![10u8] + rest;
    assert forall|j: int| 0 <= j < line.len() implies b[j] != 10u8 by {
        assert(b[j] == line[j]);
    }
    lemma_first_newline_at(b, line.len() as int);
    assert(b.subrange(0, line.len() as int) =~= line);
    assert(b.subrange(line.len() as int + 1, b.len() as int) =~= rest);
}

} // verus!

