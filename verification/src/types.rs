pub mod config;
pub mod error;
pub mod event;
pub mod message;
pub mod tool;
pub mod value;
