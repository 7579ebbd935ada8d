//! Motion-capture session engine: a scene of objects whose properties are
//! driven by controllers, the device/attribute world that feeds it, and the
//! bounded buffers used between them.

pub mod name;
pub mod name_map;
pub mod scalar;
pub mod error;
pub mod data;
pub mod scene;
pub mod connection;
pub mod engine;
pub mod events;
pub mod commands;
pub mod motion_core;
pub mod channel_buf;
pub mod command_events;
pub mod logging;
