pub mod cli;
pub mod error;
pub mod execute;
pub mod listing;
pub mod model;
pub mod normalize;
pub mod order;
pub mod output;
pub mod plan;
pub mod render;
pub mod schedule;
pub mod scripts;
pub mod select;
pub mod text;
pub mod things;
