//! Verified core of a macOS remote-desktop server: wire framing, clipboard
//! format conversion, configuration resolution and the adaptive streaming
//! policies that drive the video pipeline.

pub mod bitrate;
pub mod clock;
pub mod input;
pub mod net;
pub mod bytes;
pub mod zgfx;
pub mod gfx_caps;
pub mod formats;
pub mod clipboard;
pub mod text;
pub mod html;
pub mod dib;
pub mod encode;
pub mod display;
pub mod gfx_session;
pub mod config;
pub mod paths;
pub mod server;
pub mod file_url;
pub mod transfer;
pub mod nal;
pub mod audio;
pub mod cli;
pub mod permissions;
pub mod features;
pub mod log_bridge;
pub mod yuv;
pub mod input_handler;
pub mod clipboard_flow;
pub mod capture;
pub mod tls;
pub mod swift_runtime;
pub mod perf;
pub mod tiff;
