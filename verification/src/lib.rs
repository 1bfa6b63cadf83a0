//! A speed-test node: the session rules that guard its measurement endpoints,
//! its runtime configuration, the settings and file locations of its desktop
//! mode, and the decisions of its tray menu, all with verified contracts.

pub mod assoc;
pub mod text;
pub mod net;
pub mod paths;
pub mod settings;
pub mod config;
pub mod session;
pub mod server;
pub mod tray;
pub mod startup;
pub mod session_laws;
