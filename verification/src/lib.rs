//! A task list kept in memory: tasks with an identity, two text fields, a
//! status and two timestamps, held in insertion order by a store that hands
//! out identifiers, and exchanged with durable storage as flat records.
//!
//! - `status`, `timestamp`, `task`: the parts of a task and the task itself.
//! - `store`: the store and its operations; `model` says what each of them
//!   makes of the store, and what holds of them together.
//! - `record`: tasks as they are stored and written.
//! - `error`: why an operation was refused.

pub mod error;
pub mod model;
pub mod record;
pub mod status;
pub mod store;
pub mod task;
pub mod text;
pub mod timestamp;
