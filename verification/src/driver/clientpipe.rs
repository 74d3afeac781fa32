//! Messages exchanged with the guest agent over the client pipe.
use vstd::prelude::*;

verus! {

/// Kinds of clipboard content.
#[derive(Debug, Clone, Copy, PartialEq, Eq, Structural)]
pub enum ClipboardType {
    /// No content type: asks for (or answers with) the list of types.
    NoType,
    Text,
    Image,
}

/// Asks the guest agent to register a hotkey with Windows.
#[derive(Debug, Clone, Copy, PartialEq, Eq, Structural)]
pub struct RegisterHotKey {
    pub id: u32,
    pub modifiers: u32,
    pub key: u32,
}

/// Clipboard messages for the guest agent.
#[derive(Debug, Clone)]
pub enum ClipboardMessage {
    GrabClipboard,
    RequestClipboardContents(bool),
    ClipboardContents(Vec<u8>),
}

/// Commands for the guest agent.
#[derive(Debug, Clone)]
pub enum GaCmdOut {
    Ping,
    RegisterHotKey(RegisterHotKey),
    ReleaseModifiers,
    Suspend,
    Clipboard(ClipboardMessage),
}

/// Messages from the guest agent.
#[derive(Debug, Clone)]
pub enum GaCmdIn {
    ReportBoot,
    Suspending,
    Pong,
    HotKey(u32),
    HotKeyBindingFailed(String),
}

/// The mathematical content of a clipboard message.
#[verifier::ext_equal]
pub enum ClipboardMessageView {
    GrabClipboard,
    RequestClipboardContents(bool),
    ClipboardContents(Seq<u8>),
}

/// The mathematical content of a guest agent command.
#[verifier::ext_equal]
pub enum GaCmdOutView {
    Ping,
    RegisterHotKey(RegisterHotKey),
    ReleaseModifiers,
    Suspend,
    Clipboard(ClipboardMessageView),
}

impl View for ClipboardMessage {
    type V = ClipboardMessageView;

    open spec fn view(&self) -> ClipboardMessageView {
        match self {
            ClipboardMessage::GrabClipboard => ClipboardMessageView::GrabClipboard,
            ClipboardMessage::RequestClipboardContents(b) => ClipboardMessageView::RequestClipboardContents(*b),
            ClipboardMessage::ClipboardContents(v) => ClipboardMessageView::ClipboardContents(v@),
        }
    }
}

impl View for GaCmdOut {
    type V = GaCmdOutView;

    open spec fn view(&self) -> GaCmdOutView {
        match self {
            GaCmdOut::Ping => GaCmdOutView::Ping,
            GaCmdOut::RegisterHotKey(r) => GaCmdOutView::RegisterHotKey(*r),
            GaCmdOut::ReleaseModifiers => GaCmdOutView::ReleaseModifiers,
            GaCmdOut::Suspend => GaCmdOutView::Suspend,
            GaCmdOut::Clipboard(m) => GaCmdOutView::Clipboard(m@),
        }
    }
}

} // verus!
