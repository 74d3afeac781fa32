use vstd::prelude::*;

pub mod text;
pub mod config;
pub mod util;
pub mod hotkeys;
pub mod wire;
pub mod control;
pub mod controller;
pub mod mainloop;
pub mod pci;
pub mod monitor;
pub mod driver;
pub mod setup;
pub mod qemu;
pub mod hwid;
pub mod edge_grab;
pub mod qmpgen;
pub mod ubind;
