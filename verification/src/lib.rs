pub mod assets;
pub mod compile;
pub mod fmt;
pub mod gateway;
pub mod jobs;
pub mod parse;
pub mod progress;
pub mod render;
pub mod strutil;
pub mod types;
