//! Verified core of a Minecraft player-data service: request decisions,
//! Mojang answer handling, texture image extraction and binary framing.

pub mod auth;
pub mod framing;
pub mod imaging;
pub mod models;
pub mod mojang;
pub mod reply;
pub mod request;
pub mod session;
pub mod text;
pub mod textures;
