//! Core logic of a widget host for a 64x64 LED matrix: timers, HTTP request
//! framing, URL parsing, SNTP packets, configuration validation and the
//! drawing primitives handed to sandboxed widgets.

pub mod admin;
pub mod allocator;
pub mod boot_screen;
pub mod clock;
pub mod codegen;
pub mod config;
pub mod console;
pub mod cstr;
pub mod drawer;
pub mod http;
pub mod network;
pub mod storage;
pub mod text;
pub mod time;
pub mod time_sync;
pub mod timer;
pub mod widget;
