pub mod base;
pub mod cli;
pub mod instructions;
pub mod interface;
pub mod laws;
pub mod runtime;
pub mod text;
pub mod ui;
pub mod utils;
