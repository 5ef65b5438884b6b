//! Core logic of the AirMonitor ESP32-S3 air quality monitor: sensor frame
//! decoding, the in-memory log ring, web form handling, persisted settings,
//! Wi-Fi access-point policy and the screen layout, all with verified contracts.

pub mod sensors;
pub mod text;
pub mod calendar;
pub mod logbuf;
pub mod form;
pub mod config;
pub mod network;
pub mod wifi;
pub mod schedule;
pub mod display;
pub mod web;
