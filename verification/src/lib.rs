//! The logic of a small desktop: its settings panels, its login greeter, the
//! daemon that supervises the greeter, and a colour test client.

pub mod text;
pub mod order;
pub mod assoc;
pub mod paths;
pub mod font;
pub mod keymap;
pub mod secret;
pub mod single;
pub mod double;
pub mod frame;
pub mod ipc_client;
pub mod login;
pub mod polygon;
pub mod glyph_atlas;
pub mod render;
pub mod greeter;
pub mod drm_backend;
pub mod config;
pub mod ipc;
pub mod pam;
pub mod supervise;
pub mod vt;
pub mod color_test;
pub mod settings;
