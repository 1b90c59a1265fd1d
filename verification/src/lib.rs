//! FastsApp's logic: formatting, the message model, emoji and transcript
//! handling, and the application state that the window draws from.

pub mod animation;
pub mod app;
pub mod backend;
pub mod bidi;
pub mod emoji;
pub mod model;
pub mod notify;
pub mod paths;
pub mod qr;
pub mod settings;
pub mod table;
pub mod single_instance;
pub mod text;
pub mod transcript;
pub mod tray;
pub mod ui;
pub mod util;
