//! Risk scoring for a trading account: position and portfolio metrics,
//! threshold warnings ranked by severity, and the snapshot cache that serves
//! them. Every real-valued quantity is a fixed-point integer (see
//! [`types::SCALE`]).
//!
//! - [`types`]: positions, account summary, metrics, warnings, limits.
//! - [`margin`]: the per-margin-type weights shared by scoring and warnings.
//! - [`calculation`]: portfolio and position metrics.
//! - [`limits`]: threshold checks and the ranking of warnings.
//! - [`system`]: one analysis end to end, and its summary.
//! - [`cache`]: the snapshot cache and its single-flight refresh flag.
//! - [`history`]: series of recorded metrics.
//! - [`settings`]: checks on settings edited by users.
//! - [`port_config`]: the server port setting and deployment advice.
//! - [`text`]: reading and writing numbers as text.

pub mod types;
pub mod margin;
pub mod calculation;
pub mod text;
pub mod limits;
pub mod system;
pub mod cache;
pub mod port_config;
pub mod settings;
pub mod history;
