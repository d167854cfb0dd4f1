//! The battery-status daemon: its rules, apart from the system calls it makes.

pub mod battery;
pub mod cli;
pub mod client;
pub mod config;
pub mod daemon;
pub mod daemon_laws;
pub mod errors;
pub mod outside;
pub mod source;
pub mod startup;
pub mod supervisor;
pub mod text;
pub mod uevent;

pub use crate::battery::read_level;
pub use crate::battery::read_status;
pub use crate::battery::status_str;
pub use crate::client::cmd_status;
pub use crate::client::cmd_stop;
pub use crate::client::cmd_watch;
pub use crate::client::connect;
pub use crate::client::connect_as_consumer;
pub use crate::config::CHARGE_PROP;
pub use crate::config::DATA_DIR;
pub use crate::config::LOG_FILE;
pub use crate::config::PID_FILE;
pub use crate::config::SOCKET;
pub use crate::config::SOCKET_WATCHER;
pub use crate::config::SYSFS_CAP;
pub use crate::config::SYSFS_STATUS;
pub use crate::config::TAG;
pub use crate::daemon::broadcast;
pub use crate::daemon::run_daemon;
pub use crate::source::BatterySource;
pub use crate::supervisor::run_supervisor;
pub use crate::uevent::cmd_uevent_dump;
