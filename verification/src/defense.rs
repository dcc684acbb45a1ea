//! The defenders: every hero of the squad but the first.
//!
//! A defender goes for the hazard nearest to the own base among those that
//! are near enough and that no hero has claimed this turn. It pushes that
//! hazard away when it is close to the base and in reach, walks up to it
//! otherwise, and holds its post while there is none. A defender keeps no
//! target from one turn to the next: it decides afresh on every snapshot.

use vstd::prelude::*;
use crate::action::Action;
use crate::entity::Entity;
use crate::game::{Game, CLOSE_THRESHOLD, LIGHT_SPELL_MANA, MELEE_RANGE, MID_X, MID_Y};
use crate::geometry::{closer_than, Point, Utils};
use crate::ranking::{lemma_head_is_nearest, ranking};
use crate::select::nearest_match;

verus! {

/// How many of the nearest hazards a defender considers.
pub const TARGET_COUNT: usize = 3;

/// The first `count` entities of a ranking, or all of them if it has fewer.
pub open spec fn leading(ranked: Seq<(u128, Entity)>, count: nat) -> Seq<Entity> {
    Seq::new(
        if ranked.len() < count {
            ranked.len()
        } else {
            count
        },
        |a: int| ranked[a].1,
    )
}

/// Takes the first `count` entities of a ranking, or all of them if it has
/// fewer.
pub fn take_leading(ranked: &Vec<(u128, Entity)>, count: usize) -> (targets: Vec<Entity>)
    ensures
        targets@ == leading(ranked@, count as nat),
{
    let mut targets: Vec<Entity> = Vec::new();
    let mut a: usize = 0;
    while a < count && a < ranked.len()
        invariant
            0 <= a <= count,
            a <= ranked.len(),
            targets@ == leading(ranked@, a as nat),
        decreases count - a,
    {
        targets.push(ranked[a].1);
        assert(targets@ =~= leading(ranked@, (a + 1) as nat));
        a += 1;
    }
    assert(targets@ =~= leading(ranked@, count as nat));
    targets
}

impl Game {
    /// The middle of the map, toward which a defender pushes.
    pub open spec fn midpoint() -> Point {
        (MID_X, MID_Y)
    }

    /// Whether the defender of ordinal `i` has a post: the first two
    /// defenders have one.
    pub open spec fn has_post(i: i32) -> bool {
        i == 1 || i == 2
    }

    /// The post of the defender of ordinal `i`.
    pub open spec fn post(self, i: i32) -> Point
        recommends
            Self::has_post(i),
    {
        if self.at_origin() {
            if i == 1 {
                (4294, 3454)
            } else {
                (5359, 1529)
            }
        } else {
            if i == 1 {
                (14519, 3901)
            } else {
                (12709, 6584)
            }
        }
    }

    /// The hazards that a defender considers: the `TARGET_COUNT` nearest to
    /// the own base of those strictly nearer to it than `DEFENSE_RADIUS`,
    /// without the claimed one.
    pub open spec fn defense_targets(self, monsters: Seq<Entity>) -> Seq<Entity> {
        leading(ranking(monsters, self.own_base(), self.hazard_criteria()), TARGET_COUNT as nat)
    }

    /// The defender `hero` pushes the hazard `target` away: the hazard is
    /// strictly nearer to the own base than `CLOSE_THRESHOLD` and strictly
    /// nearer to the defender than `MELEE_RANGE`, it carries no shield, and
    /// the mana suffices.
    pub open spec fn must_push_away(self, hero: Entity, target: Entity) -> bool {
        &&& closer_than(self.own_base(), target.pos(), CLOSE_THRESHOLD)
        &&& self.mana() >= LIGHT_SPELL_MANA
        &&& closer_than(hero.pos(), target.pos(), MELEE_RANGE)
        &&& target.shield_life == 0
    }

    /// The action of the defender `hero` of ordinal `i`: with a target, a
    /// push toward the middle of the map or a walk up to the target; without
    /// one, a walk to its post; without a post either, a wait.
    pub open spec fn defense_action(self, i: i32, hero: Entity, monsters: Seq<Entity>) -> Action {
        let targets = self.defense_targets(monsters);
        if targets.len() > 0 {
            if self.must_push_away(hero, targets[0]) {
                Action::Wind { x: Self::midpoint().0, y: Self::midpoint().1 }
            } else {
                Action::Move { x: targets[0].x, y: targets[0].y }
            }
        } else if Self::has_post(i) {
            Action::Move { x: self.post(i).0, y: self.post(i).1 }
        } else {
            Action::Wait
        }
    }

    /// The identity of the hazard that the defender `hero` claims by its
    /// action: the one that it pushes away.
    pub open spec fn defense_claim(self, hero: Entity, monsters: Seq<Entity>) -> Option<i32> {
        let targets = self.defense_targets(monsters);
        if targets.len() > 0 && self.must_push_away(hero, targets[0]) {
            Some(targets[0].id)
        } else {
            None
        }
    }

    /// The walk of the defender of ordinal `i` to its post.
    pub fn MoveDefenseToInitPos(&self, i: i32) -> (line: String)
        requires
            Self::has_post(i),
        ensures
            line@ == (Action::Move { x: self.post(i).0, y: self.post(i).1 }).text(),
    {
        self.post_of(i).command()
    }

    /// The walk to the post of the defender of ordinal `i`.
    fn post_of(&self, i: i32) -> (walk: Action)
        requires
            Self::has_post(i),
        ensures
            walk == (Action::Move { x: self.post(i).0, y: self.post(i).1 }),
    {
        match self.init_params.base_x {
            0 => match i {
                1 => Action::Move { x: 4294, y: 3454 },
                _ => Action::Move { x: 5359, y: 1529 },
            },
            _ => match i {
                1 => Action::Move { x: 14519, y: 3901 },
                _ => Action::Move { x: 12709, y: 6584 },
            },
        }
    }

    /// Decides for the defender `hero` of ordinal `i`: its action, and the
    /// identity of the hazard that it claims when the action is a push.
    pub fn defense_decision(
        &self,
        i: i32,
        hero: &Entity,
        monsters: &Vec<Entity>,
    ) -> (decision: (Action, Option<i32>))
        ensures
            decision.0 == self.defense_action(i, *hero, monsters@),
            decision.1 == self.defense_claim(*hero, monsters@),
    {
        let own_base = (self.init_params.base_x, self.init_params.base_y);
        let ranked = self.GetDistanceToMonsters(own_base, monsters);
        let targets = take_leading(&ranked, TARGET_COUNT);
        if targets.len() > 0 {
            let monster1 = targets[0];
            if Utils::closer_than(own_base, monster1.position(), CLOSE_THRESHOLD)
                && self.players_mana[0] >= LIGHT_SPELL_MANA && Utils::closer_than(
                hero.position(),
                monster1.position(),
                MELEE_RANGE,
            ) && monster1.shield_life == 0 {
                (Action::Wind { x: MID_X, y: MID_Y }, Some(monster1.id))
            } else {
                (Action::Move { x: monster1.x, y: monster1.y }, None)
            }
        } else if i == 1 || i == 2 {
            (self.post_of(i), None)
        } else {
            (Action::Wait, None)
        }
    }

    /// The game after the defender `hero` has acted: a claim whose hazard is
    /// gone is dropped, and a push claims the hazard that it is aimed at.
    pub open spec fn after_defense(self, hero: Entity, monsters: Seq<Entity>) -> Game {
        let game = self.refreshed(monsters);
        match game.defense_claim(hero, monsters) {
            Some(id) => game.with_claim(Some(id)),
            None => game,
        }
    }

    /// A defender reads the own base, the own mana and the claim, and nothing
    /// else of the game: two games that agree on these give it the same
    /// action and the same claim.
    pub proof fn lemma_defense_reads(self, other: Game, i: i32, hero: Entity, monsters: Seq<Entity>)
        requires
            self.own_base() == other.own_base(),
            self.mana() == other.mana(),
            self.monsterIsTaken == other.monsterIsTaken,
        ensures
            self.defense_action(i, hero, monsters) == other.defense_action(i, hero, monsters),
            self.defense_claim(hero, monsters) == other.defense_claim(hero, monsters),
    {
        assert(self.hazard_criteria() == other.hazard_criteria());
    }

    /// The hazard that a defender goes for is the nearest to the own base of
    /// those strictly nearer to it than `DEFENSE_RADIUS` and not claimed, the
    /// first of them if several are equally near. A defender has no target
    /// exactly when there is no such hazard.
    pub proof fn lemma_defense_target(self, monsters: Seq<Entity>)
        ensures
            match nearest_match(monsters, self.hazard_criteria().admitted(), self.own_base()) {
                Some(j) => self.defense_targets(monsters).len() > 0 && self.defense_targets(
                    monsters,
                )[0] == monsters[j],
                None => self.defense_targets(monsters).len() == 0,
            },
    {
        lemma_head_is_nearest(monsters, self.own_base(), self.hazard_criteria());
    }

    /// The command of the defender `hero` of ordinal `i` for this turn. A
    /// claim whose hazard is gone is dropped first. Then the defender takes
    /// the hazard nearest to the own base among those strictly nearer to it
    /// than `DEFENSE_RADIUS` and not claimed. It pushes that hazard toward
    /// the middle of the map, and claims it, when `must_push_away` holds;
    /// it walks up to it otherwise. Without such a hazard it walks to its
    /// post, and waits if it has none: only the ordinals 1 and 2 have one.
    /// The enemy heroes have no say in this.
    #[allow(unused_variables)]
    pub fn MoveDefense(
        &mut self,
        i: i32,
        hero: &Entity,
        monsters: &Vec<Entity>,
        enemies: &Vec<Entity>,
    ) -> (line: String)
        ensures
            line@ == old(self).refreshed(monsters@).defense_action(i, *hero, monsters@).text(),
            *final(self) == old(self).after_defense(*hero, monsters@),
    {
        self.refresh_claim(monsters);
        let (action, claim) = self.defense_decision(i, hero, monsters);
        if claim.is_some() {
            self.monsterIsTaken = claim;
        }
        action.command()
    }
}

} // verus!
