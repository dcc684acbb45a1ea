//! Turn-by-turn command selection for a squad of heroes in a two-base arena.
//!
//! Every turn the engine receives a complete snapshot of the arena and answers
//! with one command per own hero: the first hero roams and attacks, the others
//! guard the own base.
//!
//! - [`geometry`]: exact squared distances and comparisons with a radius.
//! - [`entity`]: the objects of a snapshot.
//! - [`action`]: the commands and their text.
//! - [`select`]: the first, the last and the nearest entity that meets a
//!   condition.
//! - [`ranking`]: the entities near a base, nearest to a point first.
//! - [`game`]: the state of a game, and the claim on a hazard.
//! - [`offense`]: the decisions of the first hero.
//! - [`defense`]: the decisions of the other heroes.
//! - [`turn`]: the commands of a whole turn.

#![allow(non_snake_case)]

pub mod action;
pub mod defense;
pub mod entity;
pub mod game;
pub mod geometry;
pub mod offense;
pub mod ranking;
pub mod select;
pub mod turn;

pub use crate::action::Action;
pub use crate::entity::{Category, Entity, InitParams};
pub use crate::game::Game;
pub use crate::geometry::Utils;
pub use crate::ranking::Criteria;
