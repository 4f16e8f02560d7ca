pub mod text;
pub mod search;
pub mod grammar;
pub mod parser;
pub mod platform;
pub mod state;
pub mod autoswitch;
pub mod hotkeys;
pub mod tray;
pub mod commands;
pub mod formats;
pub mod bookkeeping;
pub mod notifications;
pub mod taskbar;
