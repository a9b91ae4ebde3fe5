//! Reconstruction of time-indexed game-entity state from a decoded stream of
//! network-replication frames.
//!
//! A recording is a sequence of frames. Each frame creates and destroys
//! actors and sends new values for named attributes of live actors. The
//! stream is differential: a value stays in force until it is sent again.
//! Actor identifiers are reused: an identifier freed by a destroyed actor may
//! later name an unrelated actor.
//!
//! * [`attribute`]: the values that the stream carries.
//! * [`dictionary`]: the attributes of one actor, by name.
//! * [`actor`]: the live actors and their registry.
//! * [`aggregate`]: what a run derives: which player controls which car, the
//!   per-player time series, the list of demolitions.
//! * [`actor_handlers`]: one handler per actor class; it reads an actor's
//!   dictionary and writes to the aggregate state.
//! * [`frame_parser`]: the driver that works off the frames in order.
//! * [`laws`]: what holds of every run, stated and proved.

pub mod attribute;
pub mod dictionary;
pub mod actor;
pub mod aggregate;
pub mod actor_handlers;
pub mod frame_parser;
pub mod laws;
