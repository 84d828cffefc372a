//! Granular synthesis engine core: the grain lifecycle, the bounded grain
//! collection, the time-based scheduler and the orchestrator that ties them
//! together. All containers have a fixed capacity of [`MAX_GRAINS`].

pub mod grain;
pub mod grain_vector;
pub mod grains_vector;
pub mod lifecycle;
pub mod manager;
pub mod pitch;
pub mod pointer_wrapper;
pub mod scheduler;
pub mod source;
pub mod storage;
pub mod user_settings;
pub mod window_function;

pub use crate::manager::Granulator;
pub use crate::storage::MAX_GRAINS;
