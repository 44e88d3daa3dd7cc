//! Live notifications for Twitch streamers, delivered over Discord.
pub mod collections;
pub mod eventsub;
pub mod notification;
pub mod registration;
pub mod setup;
pub mod tasks;
pub mod text;
pub mod users;
pub mod webhook;
pub mod websocket;
