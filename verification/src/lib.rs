//! Core logic of a launcher that manages several game-account profiles.

pub mod text;
pub mod news;
pub mod request;
pub mod auth;
pub mod characters;
pub mod accounts;
pub mod session;
pub mod launcher;
pub mod runelite_config;
pub mod store;
pub mod ui;
