pub mod context;
pub mod state;
pub mod token_estimator;
