//! Host-side logic for the PS VR Aim Controller: the controller's reports, the
//! settings file, and the decisions of the three emulation modes.

pub mod aim_report;
pub mod calibration;
pub mod clock;
pub mod config;
pub mod crc32;
pub mod device;
pub mod ds4_mode;
pub mod flags;
pub mod gun;
pub mod held_keys;
pub mod hidhide;
pub mod json;
pub mod launch;
pub mod lightgun_mode;
pub mod pad_button;
pub mod pseye_client;
pub mod rawinput_mode;
pub mod recoil;
pub mod rumble;
pub mod text;
