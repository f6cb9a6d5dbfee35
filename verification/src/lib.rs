//! Verified core of the WebRust remote-desktop host.

pub mod b64;
pub mod frame;
pub mod text;
pub mod tuning;
pub mod config;
pub mod protocol;
pub mod route;
pub mod clock;
pub mod seat;
pub mod h264;
pub mod updater;
pub mod web;
pub mod auth;
pub mod pairs;
pub mod hub;
pub mod login;
pub mod platform;
pub mod control;
pub mod capture;
pub mod soft;
pub mod input;
pub mod ime;
pub mod icons;
pub mod power;
pub mod hostctl;
pub mod cli;
pub mod apps;
pub mod windowctl;
pub mod gate;
pub mod fanout;
pub mod vt;
pub mod still;
