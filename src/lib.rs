//! Deterministic simulation core of a two-player rollback-networked arena shooter.
//!
//! Everything that the replicated game state depends on lives here: the chained
//! pseudo-random seeds, the grid map, input decoding, the entity simulation, the
//! round state machine, rollback-safe sound triggering and the snapshot ring used
//! to roll back and replay frames.
pub mod audio;
pub mod gui;
pub mod input;
pub mod map;
pub mod player;
pub mod rng;
pub mod rollback;
pub mod session;
pub mod sim;
