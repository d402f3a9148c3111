//! The verified core of hop6, a serverless peer-to-peer terminal messenger that talks over Tor
//! v3 onion services.
//!
//! Everything here is computation on plain values: the application state and how keys and
//! network events change it, the wire line, the decisions of the connection manager, of a peer
//! connection and of the onion-service supervisor, what the terminal shows, and what the files
//! on disk mean. Sockets, files, the clock and the terminal live outside the library and hand it
//! what they read.

pub mod app;
pub mod app_laws;
pub mod app_model;
pub mod cli;
pub mod contacts;
pub mod delivery;
pub mod edge_laws;
pub mod event_laws;
pub mod files;
pub mod key_laws;
pub mod message;
pub mod network;
pub mod network_laws;
pub mod text;
pub mod text_laws;
pub mod tor;
pub mod ui;
pub mod ui_laws;
pub mod view_laws;
pub mod wire;
