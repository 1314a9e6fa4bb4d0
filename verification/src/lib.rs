//! Host-side installer logic for a small ZNC bouncer container on Proxmox.
pub mod cli;
pub mod commands;
pub mod constants;
pub mod install;
pub mod lexical;
pub mod process;
pub mod prompt;
pub mod render;
pub mod resolv;
pub mod spec;
pub mod storage;
