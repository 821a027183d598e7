pub mod app_server;
pub mod codex_probe;
pub mod commands;
pub mod credentials;
pub mod details;
pub mod floating_bar;
pub mod http_client;
pub mod models;
pub mod official_links;
pub mod providers;
pub mod redaction;
pub mod reminder;
pub mod startup;
pub mod status_parser;
pub mod text;
pub mod tray_icon;
pub mod usage_store;
pub mod updates;
pub mod window_state;
