//! The decisions behind the window's views: the line under a chat's name,
//! which reactions a message offers, the emoji picker's rows, how a
//! shortcut is written, and what a delivery state is called.

pub mod chats;
pub mod conversation;
pub mod keys;
pub mod picker;
