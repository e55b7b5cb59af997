//! Decisions of a daemon that keeps a phone on the better band of its wireless network: how
//! healthy a link is, when to switch it and where to, and what the panel shows of it.
//!
//! Every function is verified against its contract. What reads the phone and acts on it lies
//! around this library and hands it plain values.

pub mod band_bond;
pub mod bssid_stats;
pub mod clock;
pub mod config;
pub mod config_guide;
pub mod events;
pub mod file_log;
pub mod health_score;
pub mod history;
pub mod hold;
pub mod http;
pub mod json;
pub mod l3;
pub mod landing;
pub mod module_prop;
pub mod notify;
pub mod numbers;
pub mod order;
pub mod outcome;
pub mod power_state;
pub mod round;
pub mod scheduler;
pub mod score;
pub mod ssid;
pub mod state_machine;
pub mod station_info;
pub mod status_text;
pub mod text;
pub mod text_map;
pub mod tick;
pub mod web;
pub mod wifi_framework;
pub mod wpa_ctrl;
