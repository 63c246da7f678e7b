//! Host metrics for a single node: sensor file parsing and probing, the
//! time-windowed sample history, and the per-client streaming session.

mod clock;
pub mod config;
pub mod health;
pub mod history;
pub mod page;
pub mod sensors;
pub mod session;
pub mod text;
pub mod tls;
