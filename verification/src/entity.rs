//! The objects of a snapshot: what is seen on the map during one turn.

use vstd::prelude::*;
use crate::game::{MAP_HEIGHT, MAP_WIDTH};
use crate::geometry::Point;

verus! {

/// The three kinds of object a snapshot can hold.
#[derive(Debug, Clone, Copy, PartialEq, Eq, Hash, Structural)]
pub enum Category {
    /// A neutral monster that may threaten either base.
    Hazard,
    /// A hero of the controlled squad.
    OwnAgent,
    /// A hero of the adversary.
    EnemyAgent,
}

impl Category {
    /// The category that a wire code stands for, if it stands for one.
    pub open spec fn spec_from_code(code: i32) -> Option<Category> {
        if code == 0 {
            Some(Category::Hazard)
        } else if code == 1 {
            Some(Category::OwnAgent)
        } else if code == 2 {
            Some(Category::EnemyAgent)
        } else {
            None
        }
    }

    /// Reads a wire code: 0 is a hazard, 1 an own hero, 2 an enemy hero.
    /// Every other code is refused.
    pub fn from_code(code: i32) -> (c: Option<Category>)
        ensures
            c == Self::spec_from_code(code),
            c is Some <==> 0 <= code <= 2,
    {
        match code {
            0 => Some(Category::Hazard),
            1 => Some(Category::OwnAgent),
            2 => Some(Category::EnemyAgent),
            _ => None,
        }
    }
}

/// One object of a snapshot.
#[derive(Debug, Clone, Copy, PartialEq, Eq, Hash, Structural)]
pub struct Entity {
    /// Identity, unique within a turn.
    pub id: i32,
    pub category: Category,
    pub x: i32,
    pub y: i32,
    /// Turns of shield left; 0 when unshielded.
    pub shield_life: i32,
    /// 1 while under a control spell.
    pub is_controlled: i32,
    pub health: i32,
    pub vx: i32,
    pub vy: i32,
    /// 1 while heading toward a base.
    pub near_base: i32,
    /// 0 threatens no base, 1 the own base, 2 the enemy base.
    pub threat_for: i32,
}

/// How many integers describe one entity.
pub const RECORD_LEN: usize = 11;

impl Entity {
    /// The entity that a record of integers describes: identity, category
    /// code, x, y, shield timer, control flag, health, vx, vy, heading flag
    /// and threat code, in this order. There is none when the record is too
    /// short or its category code stands for no category.
    pub open spec fn spec_from_record(fields: Seq<i32>) -> Option<Entity> {
        if fields.len() < RECORD_LEN {
            None
        } else {
            match Category::spec_from_code(fields[1]) {
                Some(category) => Some(
                    Entity {
                        id: fields[0],
                        category,
                        x: fields[2],
                        y: fields[3],
                        shield_life: fields[4],
                        is_controlled: fields[5],
                        health: fields[6],
                        vx: fields[7],
                        vy: fields[8],
                        near_base: fields[9],
                        threat_for: fields[10],
                    },
                ),
                None => None,
            }
        }
    }

    /// Reads an entity from its record of integers. What follows the
    /// eleventh integer is ignored.
    pub fn from_record(fields: &Vec<i32>) -> (e: Option<Entity>)
        ensures
            e == Self::spec_from_record(fields@),
            e is Some <==> fields@.len() >= RECORD_LEN && 0 <= fields@[1] <= 2,
    {
        if fields.len() < RECORD_LEN {
            return None;
        }
        match Category::from_code(fields[1]) {
            Some(category) => Some(
                Entity {
                    id: fields[0],
                    category,
                    x: fields[2],
                    y: fields[3],
                    shield_life: fields[4],
                    is_controlled: fields[5],
                    health: fields[6],
                    vx: fields[7],
                    vy: fields[8],
                    near_base: fields[9],
                    threat_for: fields[10],
                },
            ),
            None => None,
        }
    }

    /// Where the entity stands.
    pub open spec fn pos(self) -> Point {
        (self.x, self.y)
    }

    pub fn position(&self) -> (p: Point)
        ensures
            p == self.pos(),
    {
        (self.x, self.y)
    }
}

impl Default for Entity {
    /// An unshielded hazard with identity 0, at rest at the origin.
    fn default() -> (e: Entity)
        ensures
            e == (Entity {
                id: 0,
                category: Category::Hazard,
                x: 0,
                y: 0,
                shield_life: 0,
                is_controlled: 0,
                health: 0,
                vx: 0,
                vy: 0,
                near_base: 0,
                threat_for: 0,
            }),
    {
        Entity {
            id: 0,
            category: Category::Hazard,
            x: 0,
            y: 0,
            shield_life: 0,
            is_controlled: 0,
            health: 0,
            vx: 0,
            vy: 0,
            near_base: 0,
            threat_for: 0,
        }
    }
}

/// What is fixed for a whole game.
#[derive(Debug, Clone, Copy, PartialEq, Eq, Structural)]
pub struct InitParams {
    /// The corner of the map that holds the own base.
    pub base_x: i32,
    pub base_y: i32,
    pub ebase_x: i32,
    pub ebase_y: i32,
    pub heroes_per_player: i32,
}

impl InitParams {
    /// The parameters of a game in which the own base is at
    /// `(base_x, base_y)`: the enemy base is as far from the far corner of
    /// the map as the own base is from the origin.
    pub fn for_corner(base_x: i32, base_y: i32, heroes_per_player: i32) -> (p: InitParams)
        requires
            MAP_WIDTH - base_x <= i32::MAX,
            MAP_HEIGHT - base_y <= i32::MAX,
        ensures
            p.base_x == base_x,
            p.base_y == base_y,
            p.ebase_x == MAP_WIDTH - base_x,
            p.ebase_y == MAP_HEIGHT - base_y,
            p.heroes_per_player == heroes_per_player,
    {
        InitParams {
            base_x,
            base_y,
            ebase_x: MAP_WIDTH - base_x,
            ebase_y: MAP_HEIGHT - base_y,
            heroes_per_player,
        }
    }
}

impl Default for InitParams {
    fn default() -> (p: InitParams)
        ensures
            p == (InitParams { base_x: 0, base_y: 0, ebase_x: 0, ebase_y: 0, heroes_per_player: 0 }),
    {
        InitParams { base_x: 0, base_y: 0, ebase_x: 0, ebase_y: 0, heroes_per_player: 0 }
    }
}

} // verus!
