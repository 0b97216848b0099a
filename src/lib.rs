//! Scheduling and retry engine for reserving gym classes the moment their
//! booking window opens, with a persistent queue of snipe targets.
pub mod clock;
pub mod order;
pub mod text;
pub mod snipe_queue;
pub mod retry;
pub mod config;
pub mod api;
pub mod snipe;
pub mod scheduler;
