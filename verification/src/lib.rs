//! Philips Hue bridges and everything paired to them, over CLIP v2.

pub mod behaviour;
pub mod borrowed;
pub mod bridge;
pub mod bulb;
pub mod button;
pub mod catalog;
pub mod follow;
pub mod host;
pub mod imports;
pub mod json;
pub mod laws;
pub mod number;
pub mod offer;
pub mod publish;
pub mod role;
pub mod scene;
pub mod sensor;
pub mod setup;
pub mod steps;
pub mod text;
pub mod wire;
