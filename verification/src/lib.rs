//! Verified core of a VR desktop overlay: the bookkeeping, protocols and
//! decision logic that sit between the VR runtime, the desktop and the user.

pub mod text;
pub mod gen_vec;
pub mod tasks;
pub mod event_queue;
pub mod ipc;
pub mod server_ipc;
pub mod multiclick;
pub mod input;
pub mod wayvr;
pub mod config;
pub mod overlay;
pub mod screens;
pub mod pointer;
pub mod gui;
pub mod config_io;
pub mod backend;
pub mod graphics;
pub mod osc;
pub mod notifications;
pub mod bindings;
pub mod session;
