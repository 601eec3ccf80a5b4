//! Verified core of gpupass, a GPU passthrough manager: the parsing of
//! `lspci`, `virsh` and libvirt XML text, the configuration model, the
//! passthrough decisions, the attach/detach, bind/unbind and VFIO
//! configuration procedures as state machines, and the state machine
//! behind the terminal UI with what its panels show.

pub mod text;
pub mod lang;
pub mod gpu;
pub mod vm;
pub mod config;
pub mod passthrough;
pub mod vm_ops;
pub mod binding;
pub mod app;
pub mod display;
