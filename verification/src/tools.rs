pub mod builtin;
pub mod executor;
pub mod listing;
pub mod middleware;
pub mod sanitizer;
pub mod schema;
pub mod search;
