pub mod catalog;
pub mod config;
pub mod cover;
pub mod default_systems;
pub mod emulator;
pub mod library;
pub mod licensing;
pub mod order;
pub mod paths;
pub mod plugins;
pub mod scraper;
pub mod screens;
pub mod settings;
pub mod state;
pub mod status;
pub mod text;
pub mod themes;
