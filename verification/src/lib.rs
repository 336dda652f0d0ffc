//! Verified core of the Wyrm RSS reader: feed filters, image sniffing,
//! pagination cursors, request parsing and the other rules that sit between
//! the database, the network and the HTTP API.

pub mod text;
pub mod time;
pub mod pagination;
pub mod newtypes;
pub mod feed;
pub mod filter;
pub mod icon;
pub mod icon_cascade;
pub mod error;
pub mod models;
pub mod settings;
pub mod http;
pub mod api;
pub mod opml;
pub mod views;
pub mod desktop;
