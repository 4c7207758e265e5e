pub mod text;
pub mod order;
pub mod data;
pub mod daemon;
pub mod app;
pub mod render;
pub mod cli;
pub mod laws;
