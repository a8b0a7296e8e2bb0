pub mod ask_user;
pub mod mock;
pub mod protocol;
pub mod task;
pub mod title;
pub mod traces;
