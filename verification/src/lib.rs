//! A verified core for taking and annotating screenshots.

pub mod app;
pub mod backend;
pub mod capture;
pub mod codec;
pub mod crash;
pub mod cursor;
pub mod daemon;
pub mod editor;
pub mod effects;
pub mod env;
pub mod error;
pub mod frame;
pub mod geometry;
pub mod grabs;
pub mod history;
pub mod i18n;
pub mod macos;
pub mod monitor;
pub mod notify;
pub mod order;
pub mod output;
pub mod overlay;
pub mod picture;
pub mod pixels;
pub mod portal;
pub mod sck;
pub mod settings;
pub mod single;
pub mod stub;
pub mod target;
pub mod text;
pub mod win32;
pub mod window;
pub mod x11;
