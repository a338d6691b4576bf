//! The verified core of a HomeKit accessory server: its configuration and setup codes, its events
//! and subscriptions, its routes and the answers it gives itself, and its announcement.
pub mod config;
pub mod event;
pub mod http;
pub mod mdns;
pub mod net;
pub mod numeral;
pub mod outside;
pub mod pin;
pub mod prepare;
pub mod resource;
pub mod server;
pub mod setup;
pub mod subscription;
