pub mod client;
pub mod sse;
