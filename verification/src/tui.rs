pub mod app;
pub mod catalog;
pub mod commands;
pub mod input;
pub mod mock;
pub mod picker;
pub mod runner;
pub mod session;
pub mod slash;
pub mod ui;
