//! A chat watcher for Twitch channels: the channel list that a bot keeps,
//! the terminal rendering of chat lines, the command prompt that drives the
//! bot, and the configuration that seeds it.

pub mod bot;
pub mod color;
pub mod comms;
pub mod config;
pub mod controller;
pub mod login;
pub mod text;
