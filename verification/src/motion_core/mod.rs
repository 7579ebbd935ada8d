pub mod attributes;
pub mod devices;
pub mod error;
pub mod commands;
pub mod device;
pub mod globals;
pub mod world;
pub mod scene;
pub mod engine;
pub mod laws;
