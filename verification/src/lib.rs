//! The logic of an ESP32-S3 bridge between SSH, the browser and serial ports.
//!
//! Everything here computes on plain values; drivers, sockets and threads live
//! in the firmware that calls it.

pub mod boot_log;
pub mod btn_ctrl;
pub mod color;
pub mod draw;
pub mod forms;
pub mod gpio_ctrl;
pub mod httpserver;
pub mod mini_display;
pub mod nvs_config;
pub mod pages;
pub mod serial_display;
pub mod status;
pub mod supervisor;
pub mod syslogger;
pub mod terminal;
pub mod text;
pub mod text_map;
pub mod usb_device;
pub mod usb_host;
pub mod usb_setup;
pub mod wifi;
pub mod wps;
pub mod ws;
