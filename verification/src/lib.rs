//! Core state model of a desktop chat-application shell: the startup
//! lifecycle state machine, the chat session store, the chat-list
//! projection, navigation state, and the per-kind message render dispatch.

pub mod avatar;
pub mod controller;
pub mod data;
pub mod lifecycle;
pub mod model;
pub mod renderer;
pub mod session;
pub mod text;
pub mod theme;
pub mod unread;
pub mod view;
