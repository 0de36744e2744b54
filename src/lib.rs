//! A bounded pool of database sessions: configuration, the recycling policy
//! applied when a session comes back, and the pool's admission and lifecycle
//! rules as a verified state machine that an async driver runs.

pub mod recycling;

pub use recycling::RecyclingMethod;

pub mod config;

pub use config::{Config, ConfigError, SessionPlan};

pub mod pool;

pub use pool::{Action, Event, PoolError, PoolModel, PoolState};

pub mod laws;

pub mod manager;

pub use manager::{Manager, Sealed};
