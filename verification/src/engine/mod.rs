pub mod state;
pub mod engine;
pub mod laws;
