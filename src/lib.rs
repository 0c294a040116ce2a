//! The core of a multi-tenant redstone server: plots of chunked voxel storage
//! with a pending-tick queue, the decisions of each plot worker (tick pacing,
//! idle unloading, backend switching, interactions, view updates), and the
//! coordinator that routes players between plots.

pub mod blocks;
pub mod generate;
pub mod geometry;
pub mod interact;
pub mod pacing;
pub mod plot;
pub mod server;
pub mod session;
pub mod text;
pub mod ticks;
pub mod view;
pub mod worker;
pub mod world;
