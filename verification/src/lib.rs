pub mod engine;
pub mod extract;
pub mod frontier;
pub mod pipeline;
pub mod urls;
