pub mod config;
pub mod monitor;
pub mod presence;
pub mod resolver;
pub mod text;
pub mod tracker;
pub mod tray;
