//! The settings panels.

pub mod control;
pub mod audio;
pub mod location_permissions;
pub mod displays;
pub mod network;
pub mod printers;
pub mod bluetooth;
pub mod options;
pub mod chrome;
pub mod power;
pub mod privacy;
pub mod keyboard;
pub mod session;
pub mod panels;
pub mod appearance;
pub mod theme;
pub mod theme_draft;
pub mod gamut;
pub mod theme_editor;
pub mod theme_files;
pub mod theme_preview;
pub mod arrangement;
pub mod sound;
pub mod desktop;
