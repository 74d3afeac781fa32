//! The driver: the controller state machine, the messages it exchanges with
//! the guest agent, clipboard sharing and input forwarding.
pub mod clientpipe;
pub mod clipboard;
pub mod controller;
pub mod input;
pub mod attach;
