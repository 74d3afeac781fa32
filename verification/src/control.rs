//! The control socket protocol: one command byte, sometimes followed by two
//! little-endian `i32` coordinates. Holds the driver's decoder and encoder,
//! the client's counterparts (as used by the edge-grab tool), and the
//! per-connection decision logic of the control server.
use vstd::prelude::*;
use crate::wire::{le_i32, le_bytes_i32, lemma_le_i32_roundtrip, push_i32_le, read_i32_le, drop_front};

verus! {

/// Commands the driver sends to control clients.
#[derive(Debug, Clone, Copy, PartialEq, Eq, Structural)]
pub enum ControlCmdOut {
    MouseEdged { x: i32, y: i32 },
    TemporaryLightAttach,
    TemporaryLightDetach,
}

/// Commands control clients send to the driver.
#[derive(Debug, Clone, Copy, PartialEq, Eq, Structural)]
pub enum ControlCmdIn {
    IoEntry,
    TryIoEntry,
    LightEntry,
    Shutdown,
    ForceIoEntry,
    IoExit,
    Suspend,
    TemporaryLightEntry { x: i32, y: i32 },
}

/// Errors of the byte-stream codecs.
#[derive(Debug, Clone, Copy, PartialEq, Eq, Structural)]
pub enum CodecError {
    /// A frame was not valid UTF-8.
    InvalidUtf8,
}

/// The control command codec of the driver side.
pub struct Codec;

/// What decoding the front of a buffer yields: the command, if a whole known
/// command is there, and how many bytes it takes. Unknown command bytes are
/// never consumed.
pub open spec fn spec_decode_in(buf: Seq<u8>) -> (Option<ControlCmdIn>, nat) {
    if buf.len() == 0 {
        (None, 0)
    } else if buf[0] == 1 {
        (Some(ControlCmdIn::IoEntry), 1)
    } else if buf[0] == 2 {
        (Some(ControlCmdIn::Shutdown), 1)
    } else if buf[0] == 3 {
        (Some(ControlCmdIn::ForceIoEntry), 1)
    } else if buf[0] == 4 {
        (Some(ControlCmdIn::IoExit), 1)
    } else if buf[0] == 5 {
        (Some(ControlCmdIn::Suspend), 1)
    } else if buf[0] == 6 {
        (Some(ControlCmdIn::TryIoEntry), 1)
    } else if buf[0] == 7 {
        (Some(ControlCmdIn::LightEntry), 1)
    } else if buf[0] == 8 {
        (Some(ControlCmdIn::TemporaryLightEntry {
            x: le_i32(buf.subrange(1, 5)),
            y: le_i32(buf.subrange(5, 9)),
        }), 9)
    } else {
        (None, 0)
    }
}

/// The bytes of a command sent to the driver.
pub open spec fn spec_encode_in(cmd: ControlCmdIn) -> Seq<u8> {
    match cmd {
        ControlCmdIn::IoEntry => seq![1u8],
        ControlCmdIn::Shutdown => seq![2u8],
        ControlCmdIn::ForceIoEntry => seq![3u8],
        ControlCmdIn::IoExit => seq![4u8],
        ControlCmdIn::Suspend => seq![5u8],
        ControlCmdIn::TryIoEntry => seq![6u8],
        ControlCmdIn::LightEntry => seq![7u8],
        ControlCmdIn::TemporaryLightEntry { x, y } => seq![8u8] + le_bytes_i32(x) + le_bytes_i32(y),
    }
}

/// The bytes of a command sent to a control client.
pub open spec fn spec_encode_out(cmd: ControlCmdOut) -> Seq<u8> {
    match cmd {
        ControlCmdOut::MouseEdged { x, y } => seq![1u8] + le_bytes_i32(x) + le_bytes_i32(y),
        ControlCmdOut::TemporaryLightAttach => seq![2u8],
        ControlCmdOut::TemporaryLightDetach => seq![3u8],
    }
}

impl Codec {
    /// Takes one command from the front of `buf`. Returns `None` (consuming
    /// nothing) when the buffer is empty or starts with an unknown command byte.
    pub fn decode(&mut self, buf: &mut Vec<u8>) -> (r: Result<Option<ControlCmdIn>, CodecError>)
        requires
            old(buf)@.len() > 0 && old(buf)@[0] == 8 ==> old(buf)@.len() >= 9,
        ensures
            r == Ok::<Option<ControlCmdIn>, CodecError>(spec_decode_in(old(buf)@).0),
            final(buf)@ == old(buf)@.subrange(spec_decode_in(old(buf)@).1 as int, old(buf)@.len() as int),
    {
        if buf.len() == 0 {
            return Ok(None);
        }
        let b = buf[0];
        let (cmd, size): (ControlCmdIn, usize) = if b == 1 {
            (ControlCmdIn::IoEntry, 1)
        } else if b == 2 {
            (ControlCmdIn::Shutdown, 1)
        } else if b == 3 {
            (ControlCmdIn::ForceIoEntry, 1)
        } else if b == 4 {
            (ControlCmdIn::IoExit, 1)
        } else if b == 5 {
            (ControlCmdIn::Suspend, 1)
        } else if b == 6 {
            (ControlCmdIn::TryIoEntry, 1)
        } else if b == 7 {
            (ControlCmdIn::LightEntry, 1)
        } else if b == 8 {
            let x = read_i32_le(buf, 1);
            let y = read_i32_le(buf, 5);
            (ControlCmdIn::TemporaryLightEntry { x, y }, 9)
        } else {
            // unknown request: it might carry a payload, so nothing can be skipped
            assert(buf@.subrange(0, buf@.len() as int) =~= buf@);
            return Ok(None);
        };
        drop_front(buf, size);
        Ok(Some(cmd))
    }

    /// Appends the bytes of `cmd` to `buf`.
    pub fn encode(&mut self, cmd: ControlCmdOut, buf: &mut Vec<u8>) -> (r: Result<(), CodecError>)
        ensures
            r is Ok,
            final(buf)@ == old(buf)@ + spec_encode_out(cmd),
    {
        match cmd {
            ControlCmdOut::MouseEdged { x, y } => {
                buf.push(1);
                push_i32_le(buf, x);
                push_i32_le(buf, y);
            }
            ControlCmdOut::TemporaryLightAttach => buf.push(2),
            ControlCmdOut::TemporaryLightDetach => buf.push(3),
        }
        assert(final(buf)@ =~= old(buf)@ + spec_encode_out(cmd));
        Ok(())
    }
}

/// Appends the bytes a control client sends for `cmd`.
pub fn encode_control_in(cmd: ControlCmdIn, buf: &mut Vec<u8>)
    ensures
        final(buf)@ == old(buf)@ + spec_encode_in(cmd),
{
    match cmd {
        ControlCmdIn::IoEntry => buf.push(1),
        ControlCmdIn::Shutdown => buf.push(2),
        ControlCmdIn::ForceIoEntry => buf.push(3),
        ControlCmdIn::IoExit => buf.push(4),
        ControlCmdIn::Suspend => buf.push(5),
        ControlCmdIn::TryIoEntry => buf.push(6),
        ControlCmdIn::LightEntry => buf.push(7),
        ControlCmdIn::TemporaryLightEntry { x, y } => {
            buf.push(8);
            push_i32_le(buf, x);
            push_i32_le(buf, y);
        }
    }
    assert(final(buf)@ =~= old(buf)@ + spec_encode_in(cmd));
}

/// What a control client reads from the front of a buffer: `Ok(None)` while
/// the command is incomplete, `Err(byte)` for an unknown command byte.
pub open spec fn spec_decode_out(buf: Seq<u8>) -> Result<Option<(ControlCmdOut, nat)>, u8> {
    if buf.len() == 0 {
        Ok(None)
    } else if buf[0] == 1 {
        if buf.len() >= 9 {
            Ok(Some((ControlCmdOut::MouseEdged { x: le_i32(buf.subrange(1, 5)), y: le_i32(buf.subrange(5, 9)) }, 9)))
        } else {
            Ok(None)
        }
    } else if buf[0] == 2 {
        Ok(Some((ControlCmdOut::TemporaryLightAttach, 1)))
    } else if buf[0] == 3 {
        Ok(Some((ControlCmdOut::TemporaryLightDetach, 1)))
    } else {
        Err(buf[0])
    }
}

/// Reads one driver command from the front of `buf` (client side).
pub fn decode_control_out(buf: &Vec<u8>) -> (r: Result<Option<(ControlCmdOut, usize)>, u8>)
    ensures
        match spec_decode_out(buf@) {
            Ok(None) => r == Ok::<Option<(ControlCmdOut, usize)>, u8>(None),
            Ok(Some((c, n))) => r == Ok::<Option<(ControlCmdOut, usize)>, u8>(Some((c, n as usize))),
            Err(b) => r == Err::<Option<(ControlCmdOut, usize)>, u8>(b),
        },
{
    if buf.len() == 0 {
        Ok(None)
    } else if buf[0] == 1 {
        if buf.len() >= 9 {
            let x = read_i32_le(buf, 1);
            let y = read_i32_le(buf, 5);
            Ok(Some((ControlCmdOut::MouseEdged { x, y }, 9)))
        } else {
            Ok(None)
        }
    } else if buf[0] == 2 {
        Ok(Some((ControlCmdOut::TemporaryLightAttach, 1)))
    } else if buf[0] == 3 {
        Ok(Some((ControlCmdOut::TemporaryLightDetach, 1)))
    } else {
        Err(buf[0])
    }
}

/// Decoding what a client encoded gives back the command, and consumes exactly
/// its bytes, whatever follows them in the buffer.
pub proof fn law_control_in_roundtrip(cmd: ControlCmdIn, rest: Seq<u8>)
    ensures
        spec_decode_in(spec_encode_in(cmd) + rest).0 == Some(cmd),
        spec_decode_in(spec_encode_in(cmd) + rest).1 == spec_encode_in(cmd).len(),
{
    let b = spec_encode_in(cmd) + rest;
    if let ControlCmdIn::TemporaryLightEntry { x, y } = cmd {
        lemma_le_i32_roundtrip(x);
        lemma_le_i32_roundtrip(y);
        assert(b.subrange(1, 5) =~= le_bytes_i32(x));
        assert(b.subrange(5, 9) =~= le_bytes_i32(y));
    }
}

/// A client decoding what the driver encoded gets back the command, and
/// consumes exactly its bytes, whatever follows them in the buffer.
pub proof fn law_control_out_roundtrip(cmd: ControlCmdOut, rest: Seq<u8>)
    ensures
        spec_decode_out(spec_encode_out(cmd) + rest) == Ok::<Option<(ControlCmdOut, nat)>, u8>(
            Some((cmd, spec_encode_out(cmd).len()))),
{
    let b = spec_encode_out(cmd) + rest;
    if let ControlCmdOut::MouseEdged { x, y } = cmd {
        lemma_le_i32_roundtrip(x);
        lemma_le_i32_roundtrip(y);
        assert(b.subrange(1, 5) =~= le_bytes_i32(x));
        assert(b.subrange(5, 9) =~= le_bytes_i32(y));
    }
}

/// What the control server does for one request of a connection.
#[derive(Debug, Clone, Copy, PartialEq, Eq, Structural)]
pub enum ControlAction {
    IoAttach,
    Shutdown,
    IoForceAttach,
    IoDetach,
    /// Suspend the guest; the connection waits until that is done.
    Suspend,
    TryAttach,
    LightAttach,
    /// Ask the controller for a temporary light entry at the given position.
    TemporaryEntry { x: i32, y: i32 },
    /// End the temporary entry and keep serving the connection.
    TemporaryExit,
    /// End the temporary entry and close the connection.
    TemporaryExitAndClose,
}

/// The state of one control connection.
pub struct ControlSession {
    pub temp_entry: bool,
}

/// The action a request asks for and whether the connection is then inside
/// a temporary entry.
pub open spec fn spec_session_request(temp_entry: bool, req: ControlCmdIn) -> (ControlAction, bool) {
    if temp_entry {
        match req {
            ControlCmdIn::IoExit => (ControlAction::TemporaryExit, false),
            _ => (ControlAction::TemporaryExitAndClose, true),
        }
    } else {
        match req {
            ControlCmdIn::IoEntry => (ControlAction::IoAttach, false),
            ControlCmdIn::Shutdown => (ControlAction::Shutdown, false),
            ControlCmdIn::ForceIoEntry => (ControlAction::IoForceAttach, false),
            ControlCmdIn::IoExit => (ControlAction::IoDetach, false),
            ControlCmdIn::Suspend => (ControlAction::Suspend, false),
            ControlCmdIn::TryIoEntry => (ControlAction::TryAttach, false),
            ControlCmdIn::LightEntry => (ControlAction::LightAttach, false),
            ControlCmdIn::TemporaryLightEntry { x, y } => (ControlAction::TemporaryEntry { x, y }, false),
        }
    }
}

impl ControlSession {
    pub fn new() -> (r: ControlSession)
        ensures
            !r.temp_entry,
    {
        ControlSession { temp_entry: false }
    }

    /// Decides what a request of this connection does. While a temporary entry
    /// is active only `IoExit` keeps the connection open.
    pub fn on_request(&mut self, req: ControlCmdIn) -> (r: ControlAction)
        ensures
            (r, final(self).temp_entry) == spec_session_request(old(self).temp_entry, req),
    {
        if self.temp_entry {
            match req {
                ControlCmdIn::IoExit => {
                    self.temp_entry = false;
                    ControlAction::TemporaryExit
                }
                _ => ControlAction::TemporaryExitAndClose,
            }
        } else {
            match req {
                ControlCmdIn::IoEntry => ControlAction::IoAttach,
                ControlCmdIn::Shutdown => ControlAction::Shutdown,
                ControlCmdIn::ForceIoEntry => ControlAction::IoForceAttach,
                ControlCmdIn::IoExit => ControlAction::IoDetach,
                ControlCmdIn::Suspend => ControlAction::Suspend,
                ControlCmdIn::TryIoEntry => ControlAction::TryAttach,
                ControlCmdIn::LightEntry => ControlAction::LightAttach,
                ControlCmdIn::TemporaryLightEntry { x, y } => ControlAction::TemporaryEntry { x, y },
            }
        }
    }

    /// After the controller answered a temporary entry request: on success the
    /// client is told `TemporaryLightAttach` and the connection enters the
    /// temporary state; on failure nothing is sent and the connection closes.
    pub fn on_temporary_entry(&mut self, ok: bool) -> (r: Option<ControlCmdOut>)
        ensures
            ok ==> r == Some(ControlCmdOut::TemporaryLightAttach) && final(self).temp_entry,
            !ok ==> r is None && final(self).temp_entry == old(self).temp_entry,
    {
        if ok {
            self.temp_entry = true;
            Some(ControlCmdOut::TemporaryLightAttach)
        } else {
            None
        }
    }
}


/// Outside a temporary entry each request asks the controller for the
/// operation it names, and for no other: an entry attaches (and only a plain
/// entry asks for the plain attach), a forced entry force-attaches, an exit
/// detaches, a try-entry tries, a light entry light-attaches, a suspend
/// suspends, a shutdown shuts down, and a temporary light entry asks for one
/// at its position. No such request puts the connection into a temporary
/// entry by itself.
pub proof fn law_request_asks_for_its_operation(req: ControlCmdIn)
    ensures
        ({
            let (a, temp) = spec_session_request(false, req);
            &&& !temp
            &&& (a == ControlAction::IoAttach <==> req == ControlCmdIn::IoEntry)
            &&& (a == ControlAction::IoForceAttach <==> req == ControlCmdIn::ForceIoEntry)
            &&& (a == ControlAction::IoDetach <==> req == ControlCmdIn::IoExit)
            &&& (a == ControlAction::TryAttach <==> req == ControlCmdIn::TryIoEntry)
            &&& (a == ControlAction::LightAttach <==> req == ControlCmdIn::LightEntry)
            &&& (a == ControlAction::Suspend <==> req == ControlCmdIn::Suspend)
            &&& (a == ControlAction::Shutdown <==> req == ControlCmdIn::Shutdown)
            &&& (req is TemporaryLightEntry <==> a is TemporaryEntry)
            &&& (req matches ControlCmdIn::TemporaryLightEntry { x, y } ==> a == (ControlAction::TemporaryEntry { x, y }))
            &&& a != ControlAction::TemporaryExit
            &&& a != ControlAction::TemporaryExitAndClose
        }),
{
}

/// Outside a temporary entry, two different requests never ask for the same
/// operation.
pub proof fn law_requests_ask_for_different_operations(r1: ControlCmdIn, r2: ControlCmdIn)
    ensures
        spec_session_request(false, r1).0 == spec_session_request(false, r2).0 ==> r1 == r2,
{
}

/// Inside a temporary entry every request ends it: an exit ends it and keeps
/// the connection, anything else ends it and closes the connection.
pub proof fn law_temporary_entry_requests(req: ControlCmdIn)
    ensures
        ({
            let (a, temp) = spec_session_request(true, req);
            &&& (req == ControlCmdIn::IoExit ==> a == ControlAction::TemporaryExit && !temp)
            &&& (req != ControlCmdIn::IoExit ==> a == ControlAction::TemporaryExitAndClose)
        }),
{
}

} // verus!
