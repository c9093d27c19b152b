//! Tick-level core of a rigid-body collision and linear dynamics simulation.
//!
//! Each simulation tick the host runs two passes over its world. The
//! spatial collision pass ([`spatial::SpatialCollisionSystem`]) keeps a
//! bounding-volume index up to date, proposes candidate pairs through a
//! broad phase, confirms them through an optional narrow phase, and fills
//! a contact buffer whose entries can be published to an append-only
//! event stream. The dynamics pass ([`solver::LinearSolverSystem`])
//! drains new contact events through its own read cursor, resolves
//! impulses against next-frame state, promotes next-frame state to
//! current, and integrates accumulated forces with semi-implicit Euler.
//!
//! All quantities are integer simulation units, so every result stated
//! in a contract is exact.

pub mod math;
pub mod physics;
pub mod collide;
pub mod dbvt;
pub mod events;
pub mod broad;
pub mod spatial;
pub mod solver;
