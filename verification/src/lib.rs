//! Maestro session-launcher core: profiles, settings, activation planning,
//! running-app classification and window/workspace bookkeeping.

pub mod host;
pub mod platform;
pub mod text;
pub mod assistant;
pub mod classifier;
pub mod order;
pub mod desktop_index;
pub mod workspace;
pub mod wayland_windows;
pub mod adapters;
pub mod editors;
pub mod editor_cwd;
pub mod window_discovery;
pub mod settings;
pub mod profiles;
pub mod browser;
pub mod process_launcher;
pub mod activation;
pub mod cleanup;
