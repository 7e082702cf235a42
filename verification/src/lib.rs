//! The registry behind a hub of connected devices.
//!
//! Adapters plug families of devices into the hub. An adapter contributes services, and each
//! service contributes channels: getters, from which values are read, and setters, to which
//! values are sent. The registry keeps these four kinds of object together, answers queries made
//! by selectors, routes reads, writes and watches to the adapters in charge, and remembers the
//! watches that are going on.
pub mod adapter;
pub mod backend;
pub mod collections;
pub mod data;
pub mod laws;
pub mod model;
pub mod op;
pub mod routing;
pub mod selection;
pub mod types;
pub mod watch;
