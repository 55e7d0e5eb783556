pub mod event_type;
pub mod wire;
pub mod event;
pub mod watcher;
pub mod session;
pub mod pipeline;
pub mod transport;
pub mod device;
pub mod artwork;
pub mod names;
pub mod config;
