pub mod location;
pub mod output;
pub mod permission_guard;
pub mod pipeline;
pub mod resource;
pub mod security;
pub mod telemetry;
pub mod transaction;
