//! Core logic of a grocery-cart game: entity hierarchy resolution, a k-d tree
//! spatial index over tracked positions, ballistic landing prediction for
//! stomped items, and the landing-indicator lifecycle with scoring.
//!
//! The host engine owns rendering, physics integration and entity lifetimes;
//! this crate works on plain values (entity ids, fixed-point coordinates) that
//! the host reads from and writes back to its component store each frame.

pub mod ballistic;
pub mod effects;
pub mod entity;
pub mod geom;
pub mod hierarchy;
pub mod items;
pub mod lifecycle;
pub mod movement;
pub mod shop;
pub mod spatial;
pub mod state;
pub mod stomp;
pub mod tags;
