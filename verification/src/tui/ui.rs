pub mod chat;
pub mod command_popup;
pub mod help;
pub mod orchestra;
pub mod panes;
pub mod picker_modal;
