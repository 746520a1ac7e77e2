//! Authoritative server-side simulation of a two-paddle ball game.
//!
//! The library owns the single shared truth of the match — ball position
//! and velocity, paddle positions, scores and game phase — as a plain
//! [`world::GameWorld`] value, and exposes one verified transition per
//! externally-triggered event: bootstrap, player connect, player
//! disconnect, paddle move, and the periodic simulation tick. Each
//! transition is specified against a mathematical image of the world
//! ([`world::WorldView`]) and proved to preserve the world invariant
//! [`world::world_wf`].

pub mod laws;
pub mod paddle;
pub mod session;
pub mod tick;
pub mod world;
