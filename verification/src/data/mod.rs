pub mod motion;
pub mod value;
pub mod property;
pub mod controllers;
pub mod sample;
pub mod peer;
pub mod session_desc;
