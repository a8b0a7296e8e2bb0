pub mod checkpoint;
pub mod compactor;
pub mod error_detector;
pub mod strategy;
pub mod summarizer;
