//! The state of a game: what is fixed for the whole run, the snapshot of the
//! current turn, and the one hazard that a hero has claimed.

use vstd::prelude::*;
use crate::entity::{Category, Entity, InitParams};
use crate::geometry::{dist_sq, Point};
use crate::ranking::{is_rank_order, rank_near_base, rank_order, ranking, Criteria};

verus! {

/// Reach of a control or shield spell, and the range at which an enemy hero
/// counts as engaging.
pub const ENGAGE_RANGE: u32 = 2200;

/// Reach of a push.
pub const MELEE_RANGE: u32 = 1280;

/// How far from a base a hero still counts as being in its surroundings.
pub const LONG_RANGE: u32 = 7000;

/// Radius around the enemy base inside which hazards are pushed in.
pub const STRIKE_RADIUS: u32 = 8000;

/// Radius around the own base inside which hazards are defended against.
pub const DEFENSE_RADIUS: u32 = 8000;

/// Radius around the own base inside which enemy heroes are watched.
pub const ENEMY_WATCH_RADIUS: u32 = 7000;

/// Distance to the own base below which a hazard is pushed away.
pub const CLOSE_THRESHOLD: u32 = 2000;

/// Inner bound of the band around the enemy base in which the scout walks up
/// to a hazard.
pub const BAND_INNER: u32 = 4000;

/// Outer bound of that band.
pub const BAND_OUTER: u32 = 8000;

/// Mana that the scout keeps before it pushes or controls.
pub const FULL_SPELL_MANA: i32 = 50;

/// Mana that any spell costs.
pub const LIGHT_SPELL_MANA: i32 = 10;

/// The far corner of the map is at `(MAP_WIDTH, MAP_HEIGHT)`.
pub const MAP_WIDTH: i32 = 17630;

pub const MAP_HEIGHT: i32 = 9000;

/// The middle of the map is at `(MID_X, MID_Y)`: half its width and half its
/// height.
pub const MID_X: i32 = 8815;

pub const MID_Y: i32 = 4500;

/// The condition of being of category `c`.
pub open spec fn of_category(c: Category) -> spec_fn(Entity) -> bool {
    |e: Entity| e.category == c
}

/// Some entity of `s` has the identity `id`.
pub open spec fn has_id(s: Seq<Entity>, id: i32) -> bool {
    exists|i: int| 0 <= i < s.len() && (#[trigger] s[i]).id == id
}

/// What is left of a claim when the hazards of the turn are `hazards`: the
/// claim itself while the claimed hazard is among them, nothing once it is
/// gone.
pub open spec fn live_claim(claim: Option<i32>, hazards: Seq<Entity>) -> Option<i32> {
    match claim {
        Some(id) => if has_id(hazards, id) {
            claim
        } else {
            None
        },
        None => None,
    }
}

/// Tells whether some entity of `entities` has the identity `id`.
pub fn holds_id(entities: &Vec<Entity>, id: i32) -> (found: bool)
    ensures
        found == has_id(entities@, id),
{
    let mut i: usize = 0;
    while i < entities.len()
        invariant
            0 <= i <= entities.len(),
            forall|j: int| 0 <= j < i ==> (#[trigger] entities@[j]).id != id,
        decreases entities.len() - i,
    {
        if entities[i].id == id {
            return true;
        }
        i += 1;
    }
    false
}

/// A game: its parameters, the snapshot of the turn, and the claim.
#[derive(Debug, Clone)]
pub struct Game {
    pub init_params: InitParams,
    /// The snapshot of the current turn.
    pub entities: Vec<Entity>,
    pub players_health: [i32; 2],
    /// Mana of both players, the own first.
    pub players_mana: [i32; 2],
    pub witcher_reached_pos: bool,
    /// The identity of the hazard that the last push of this turn was aimed
    /// at, if any hero has pushed.
    pub monsterIsTaken: Option<i32>,
}

impl Game {
    /// The own base.
    pub open spec fn own_base(self) -> Point {
        (self.init_params.base_x, self.init_params.base_y)
    }

    /// Whether the own base is in the corner at the origin.
    pub open spec fn at_origin(self) -> bool {
        self.init_params.base_x == 0
    }

    /// The enemy base: in the corner opposite to the own base.
    pub open spec fn enemy_base(self) -> Point {
        if self.at_origin() {
            (MAP_WIDTH, MAP_HEIGHT)
        } else {
            (0, 0)
        }
    }

    /// The own mana at the start of the turn.
    pub open spec fn mana(self) -> i32 {
        self.players_mana[0]
    }

    /// The own heroes of the snapshot, in the order of the snapshot.
    pub open spec fn own_agents(self) -> Seq<Entity> {
        self.entities@.filter(of_category(Category::OwnAgent))
    }

    /// The enemy heroes of the snapshot, in the order of the snapshot.
    pub open spec fn enemy_agents(self) -> Seq<Entity> {
        self.entities@.filter(of_category(Category::EnemyAgent))
    }

    /// The hazards of the snapshot, in the order of the snapshot.
    pub open spec fn hazards(self) -> Seq<Entity> {
        self.entities@.filter(of_category(Category::Hazard))
    }

    /// Which hazards a defender ranks: those strictly nearer than
    /// `DEFENSE_RADIUS` to the own base, but for the claimed one.
    pub open spec fn hazard_criteria(self) -> Criteria {
        Criteria {
            base: self.own_base(),
            radius: DEFENSE_RADIUS,
            exclude: self.monsterIsTaken,
            heading_only: false,
        }
    }

    /// Which enemy heroes are ranked: those strictly nearer than
    /// `ENEMY_WATCH_RADIUS` to the own base.
    pub open spec fn enemy_criteria(self) -> Criteria {
        Criteria {
            base: self.own_base(),
            radius: ENEMY_WATCH_RADIUS,
            exclude: None,
            heading_only: false,
        }
    }

    /// This game with `claim` in place of its claim.
    pub open spec fn with_claim(self, claim: Option<i32>) -> Game {
        Game { monsterIsTaken: claim, ..self }
    }

    /// This game once a stale claim is dropped: its claim is kept only while
    /// the claimed hazard is among `hazards`.
    pub open spec fn refreshed(self, hazards: Seq<Entity>) -> Game {
        self.with_claim(live_claim(self.monsterIsTaken, hazards))
    }

    /// Drops the claim if the claimed hazard is no longer among `monsters`.
    pub fn refresh_claim(&mut self, monsters: &Vec<Entity>)
        ensures
            *final(self) == old(self).refreshed(monsters@),
    {
        let stale = match self.monsterIsTaken {
            Some(id) => !holds_id(monsters, id),
            None => false,
        };
        if stale {
            self.monsterIsTaken = None;
        }
    }

    /// A game before its first turn: no entity, no health, no mana, no claim.
    pub fn new(init_params: InitParams) -> (game: Game)
        ensures
            game.init_params == init_params,
            game.entities@ == Seq::<Entity>::empty(),
            game.players_health@ == seq![0i32, 0i32],
            game.players_mana@ == seq![0i32, 0i32],
            !game.witcher_reached_pos,
            game.monsterIsTaken is None,
    {
        let game = Game {
            init_params,
            entities: Vec::new(),
            players_health: [0, 0],
            players_mana: [0, 0],
            witcher_reached_pos: false,
            monsterIsTaken: None,
        };
        assert(game.players_health@ =~= seq![0i32, 0i32]);
        assert(game.players_mana@ =~= seq![0i32, 0i32]);
        game
    }

    /// Splits the snapshot by category into three groups: the own heroes,
    /// the enemy heroes and the hazards, in this order. Each group keeps the
    /// order of the snapshot.
    pub fn split(&self) -> (parts: [Vec<Entity>; 3])
        ensures
            parts[0]@ == self.own_agents(),
            parts[1]@ == self.enemy_agents(),
            parts[2]@ == self.hazards(),
    {
        let mut me: Vec<Entity> = Vec::new();
        let mut enemy: Vec<Entity> = Vec::new();
        let mut monsters: Vec<Entity> = Vec::new();
        let ghost s = self.entities@;
        let mut i: usize = 0;
        proof {
            reveal(Seq::filter);
            assert(s.take(0) =~= Seq::<Entity>::empty());
        }
        while i < self.entities.len()
            invariant
                0 <= i <= self.entities.len(),
                s == self.entities@,
                me@ == s.take(i as int).filter(of_category(Category::OwnAgent)),
                enemy@ == s.take(i as int).filter(of_category(Category::EnemyAgent)),
                monsters@ == s.take(i as int).filter(of_category(Category::Hazard)),
            decreases self.entities.len() - i,
        {
            let e = self.entities[i];
            proof {
                reveal(Seq::filter);
                assert(s.take(i + 1).drop_last() =~= s.take(i as int));
                assert(s.take(i + 1).last() == e);
            }
            match e.category {
                Category::Hazard => monsters.push(e),
                Category::OwnAgent => me.push(e),
                Category::EnemyAgent => enemy.push(e),
            }
            i += 1;
        }
        assert(s.take(i as int) =~= s);
        [me, enemy, monsters]
    }

    /// Ranks the hazards of `other` that a defender may take on by their
    /// distance to the point `entity`, nearest first: those strictly nearer
    /// than `DEFENSE_RADIUS` to the own base whose identity is not the claimed
    /// one. Hazards at the same distance stay in the order of `other`. Each
    /// comes with its squared distance to `entity`.
    pub fn GetDistanceToMonsters(
        &self,
        entity: (i32, i32),
        other: &Vec<Entity>,
    ) -> (ranked: Vec<(u128, Entity)>)
        ensures
            ranked@ == ranking(other@, entity, self.hazard_criteria()),
            is_rank_order(
                rank_order(other@, entity, self.hazard_criteria()),
                other@,
                entity,
                self.hazard_criteria(),
                other@.len() as int,
            ),
            forall|a: int|
                0 <= a < ranked@.len() ==> self.hazard_criteria().admits((#[trigger] ranked@[a]).1)
                    && ranked@[a].0 == dist_sq(entity, ranked@[a].1.pos()),
            forall|a: int, b: int|
                0 <= a < b < ranked@.len() ==> (#[trigger] ranked@[a]).0 <= (
                #[trigger] ranked@[b]).0,
    {
        let criteria = Criteria {
            base: (self.init_params.base_x, self.init_params.base_y),
            radius: DEFENSE_RADIUS,
            exclude: self.monsterIsTaken,
            heading_only: false,
        };
        rank_near_base(entity, other, criteria)
    }

    /// Ranks the enemy heroes of `other` that are strictly nearer than
    /// `ENEMY_WATCH_RADIUS` to the own base by their distance to `entity`,
    /// nearest first. Heroes at the same distance stay in the order of
    /// `other`. Each comes with its squared distance to `entity`.
    pub fn GetDistanceToEnemies(
        &self,
        entity: &Entity,
        other: &Vec<Entity>,
    ) -> (ranked: Vec<(u128, Entity)>)
        ensures
            ranked@ == ranking(other@, entity.pos(), self.enemy_criteria()),
            is_rank_order(
                rank_order(other@, entity.pos(), self.enemy_criteria()),
                other@,
                entity.pos(),
                self.enemy_criteria(),
                other@.len() as int,
            ),
            forall|a: int|
                0 <= a < ranked@.len() ==> self.enemy_criteria().admits((#[trigger] ranked@[a]).1)
                    && ranked@[a].0 == dist_sq(entity.pos(), ranked@[a].1.pos()),
            forall|a: int, b: int|
                0 <= a < b < ranked@.len() ==> (#[trigger] ranked@[a]).0 <= (
                #[trigger] ranked@[b]).0,
    {
        let criteria = Criteria {
            base: (self.init_params.base_x, self.init_params.base_y),
            radius: ENEMY_WATCH_RADIUS,
            exclude: None,
            heading_only: false,
        };
        rank_near_base(entity.position(), other, criteria)
    }

    /// Where the enemy base lies: in the far corner when the own base is at
    /// the origin, at the origin otherwise.
    pub fn GetEnemyBaseLocation(&self) -> (location: (i32, i32))
        ensures
            location == self.enemy_base(),
            location == if self.init_params.base_x == 0 {
                (17630i32, 9000i32)
            } else {
                (0i32, 0i32)
            },
    {
        match self.init_params.base_x {
            0 => (MAP_WIDTH, MAP_HEIGHT),
            _ => (0, 0),
        }
    }

    /// A hazard heads for the enemy side when both components of its velocity
    /// point away from the own corner.
    pub open spec fn heads_to_enemy(self, monster: Entity) -> bool {
        if self.at_origin() {
            monster.vx > 0 && monster.vy > 0
        } else {
            monster.vx < 0 && monster.vy < 0
        }
    }

    /// Tells whether `monster` heads for the enemy side.
    pub fn MonsterTargetEnemy(&self, monster: &Entity) -> (b: bool)
        ensures
            b == self.heads_to_enemy(*monster),
    {
        match self.init_params.base_x {
            0 => monster.vx > 0 && monster.vy > 0,
            _ => monster.vx < 0 && monster.vy < 0,
        }
    }
}

} // verus!
