//! The scout: the first hero of the squad, which roams near the enemy base.
//!
//! Each turn the scout takes the first of these that applies: shield itself
//! when an enemy hero engages it near the own base, push a hazard into the
//! enemy base, shield a hazard that heads there, send a distant hazard there,
//! send an enemy hero there, walk on.

use vstd::prelude::*;
use crate::action::Action;
use crate::entity::Entity;
use crate::game::{
    Game, BAND_INNER, BAND_OUTER, ENGAGE_RANGE, FULL_SPELL_MANA, LIGHT_SPELL_MANA, LONG_RANGE,
    MELEE_RANGE, STRIKE_RADIUS,
};
use crate::geometry::{closer_than, within, Point, Utils};
use crate::select::{
    first_match, is_first, is_last, is_nearest, key, last_match, lemma_first_is_unique,
    lemma_last_is_unique, lemma_nearest_is_unique, lemma_nothing_to_find, nearest_match,
    none_below,
};

verus! {

/// Health that a hazard needs to be worth a push.
pub const PUSH_MIN_HEALTH: i32 = 5;

/// Health that a hazard needs to be worth a shield or a control.
pub const SPELL_MIN_HEALTH: i32 = 10;

/// The code of `threat_for` for a hazard that threatens the enemy base.
pub const THREATENS_ENEMY: i32 = 2;

/// An exec index as a spec index.
pub open spec fn as_index(found: Option<usize>) -> Option<int> {
    match found {
        Some(j) => Some(j as int),
        None => None,
    }
}

/// The condition of carrying no shield.
pub open spec fn unshielded() -> spec_fn(Entity) -> bool {
    |m: Entity| m.shield_life == 0
}

/// What one pass over the hazards finds for the scout.
#[derive(Debug, Clone, Copy)]
pub struct HazardScan {
    /// The first hazard that can be pushed.
    pub push: Option<usize>,
    /// The last hazard that can be shielded.
    pub shield: Option<usize>,
    /// The hazard to control: the nearest to the enemy base of those that
    /// can be.
    pub control: Option<usize>,
    /// The unshielded hazard nearest to the enemy base.
    pub closest: Option<usize>,
}

/// What one pass over the enemy heroes finds for the scout.
#[derive(Debug, Clone, Copy)]
pub struct EnemyScan {
    /// Whether an enemy hero is within `ENGAGE_RANGE` of the scout.
    pub engaged: bool,
    /// The enemy hero to control: the nearest to the enemy base of those that
    /// can be.
    pub control: Option<usize>,
}

impl Game {
    /// Where the scout waits while it sees no unshielded hazard.
    pub open spec fn patrol_waypoint(self) -> Point {
        if self.at_origin() {
            (12000, 4200)
        } else {
            (6000, 3200)
        }
    }

    /// Where the scout waits while the nearest hazard is out of the band.
    pub open spec fn staging_waypoint(self) -> Point {
        if self.at_origin() {
            (13636, 6445)
        } else {
            (4000, 2500)
        }
    }

    /// Some enemy hero is at most `ENGAGE_RANGE` away from `hero`.
    pub open spec fn engaged(hero: Entity, enemies: Seq<Entity>) -> bool {
        exists|i: int|
            0 <= i < enemies.len() && within(hero.pos(), (#[trigger] enemies[i]).pos(), ENGAGE_RANGE)
    }

    /// The scout shields itself: an enemy hero engages it, the own base is
    /// strictly nearer than `LONG_RANGE`, the mana suffices and its own shield
    /// is about to fade.
    pub open spec fn must_shield_self(self, hero: Entity, enemies: Seq<Entity>) -> bool {
        &&& Self::engaged(hero, enemies)
        &&& closer_than(self.own_base(), hero.pos(), LONG_RANGE)
        &&& self.mana() >= FULL_SPELL_MANA
        &&& hero.shield_life <= 1
    }

    /// The hazard `m` can be pushed into the enemy base by `hero`.
    pub open spec fn can_push(self, hero: Entity, m: Entity) -> bool {
        &&& within(self.enemy_base(), m.pos(), STRIKE_RADIUS)
        &&& within(hero.pos(), m.pos(), MELEE_RANGE)
        &&& self.mana() >= FULL_SPELL_MANA
        &&& m.health >= PUSH_MIN_HEALTH
        &&& m.shield_life == 0
    }

    /// The hazard `m` is worth a shield from `hero`: in reach, not pushed,
    /// healthy, unshielded and on its way to the enemy side.
    pub open spec fn can_shield(self, hero: Entity, m: Entity) -> bool {
        &&& within(hero.pos(), m.pos(), ENGAGE_RANGE)
        &&& !self.can_push(hero, m)
        &&& self.mana() >= LIGHT_SPELL_MANA
        &&& m.shield_life == 0
        &&& m.health >= SPELL_MIN_HEALTH
        &&& self.heads_to_enemy(m)
    }

    /// The hazard `m` can be sent to the enemy base by `hero`: beyond the
    /// strike radius, in reach, healthy, free of shield and control, and not
    /// a threat to the enemy base yet.
    pub open spec fn can_control(self, hero: Entity, m: Entity) -> bool {
        &&& !within(self.enemy_base(), m.pos(), STRIKE_RADIUS)
        &&& self.mana() >= FULL_SPELL_MANA
        &&& within(hero.pos(), m.pos(), ENGAGE_RANGE)
        &&& m.threat_for != THREATENS_ENEMY
        &&& m.health >= SPELL_MIN_HEALTH
        &&& m.shield_life == 0
        &&& m.is_controlled != 1
    }

    /// The enemy hero `e` can be sent to the enemy base by `hero`.
    pub open spec fn can_control_enemy(self, hero: Entity, e: Entity) -> bool {
        &&& within(hero.pos(), e.pos(), ENGAGE_RANGE)
        &&& closer_than(self.enemy_base(), hero.pos(), LONG_RANGE)
        &&& self.mana() >= FULL_SPELL_MANA
        &&& e.is_controlled != 1
    }

    /// The condition of being a hazard that `hero` can push.
    pub open spec fn pushable(self, hero: Entity) -> spec_fn(Entity) -> bool {
        |m: Entity| self.can_push(hero, m)
    }

    /// The condition of being a hazard that is worth a shield from `hero`.
    pub open spec fn shieldable(self, hero: Entity) -> spec_fn(Entity) -> bool {
        |m: Entity| self.can_shield(hero, m)
    }

    /// The condition of being a hazard that `hero` can control.
    pub open spec fn controllable(self, hero: Entity) -> spec_fn(Entity) -> bool {
        |m: Entity| self.can_control(hero, m)
    }

    /// The condition of being an enemy hero that `hero` can control.
    pub open spec fn enemy_controllable(self, hero: Entity) -> spec_fn(Entity) -> bool {
        |e: Entity| self.can_control_enemy(hero, e)
    }

    /// The hazard that a push is aimed at: the first that can be pushed.
    pub open spec fn push_target(self, hero: Entity, monsters: Seq<Entity>) -> Option<int> {
        first_match(monsters, self.pushable(hero))
    }

    /// The hazard that is shielded: the last that is worth it.
    pub open spec fn shield_target(self, hero: Entity, monsters: Seq<Entity>) -> Option<int> {
        last_match(monsters, self.shieldable(hero))
    }

    /// The hazard that is controlled: of those that can be, the nearest to
    /// the enemy base, the first of them if several are equally near.
    pub open spec fn control_target(self, hero: Entity, monsters: Seq<Entity>) -> Option<int> {
        nearest_match(monsters, self.controllable(hero), self.enemy_base())
    }

    /// The enemy hero that is controlled: of those that can be, the nearest
    /// to the enemy base, the first of them if several are equally near.
    pub open spec fn enemy_target(self, hero: Entity, enemies: Seq<Entity>) -> Option<int> {
        nearest_match(enemies, self.enemy_controllable(hero), self.enemy_base())
    }

    /// The unshielded hazard nearest to the enemy base, the first of them if
    /// several are equally near.
    pub open spec fn closest_hazard(self, monsters: Seq<Entity>) -> Option<int> {
        nearest_match(monsters, unshielded(), self.enemy_base())
    }

    /// The self-shield, when the scout must cast it.
    pub open spec fn emergency_shield(self, hero: Entity, enemies: Seq<Entity>) -> Option<Action> {
        if self.must_shield_self(hero, enemies) {
            Some(Action::Shield { id: hero.id })
        } else {
            None
        }
    }

    /// The spell that the scout casts on a hazard, if any: a push toward the
    /// enemy base before a shield, a shield before a control.
    pub open spec fn hazard_spell(self, hero: Entity, monsters: Seq<Entity>) -> Option<Action> {
        if self.push_target(hero, monsters) is Some {
            Some(Action::Wind { x: self.enemy_base().0, y: self.enemy_base().1 })
        } else if let Some(j) = self.shield_target(hero, monsters) {
            Some(Action::Shield { id: monsters[j].id })
        } else if let Some(j) = self.control_target(hero, monsters) {
            Some(
                Action::Control {
                    id: monsters[j].id,
                    x: self.enemy_base().0,
                    y: self.enemy_base().1,
                },
            )
        } else {
            None
        }
    }

    /// The control that the scout casts on an enemy hero, if any.
    pub open spec fn enemy_control(self, hero: Entity, enemies: Seq<Entity>) -> Option<Action> {
        match self.enemy_target(hero, enemies) {
            Some(j) => Some(
                Action::Control {
                    id: enemies[j].id,
                    x: self.enemy_base().0,
                    y: self.enemy_base().1,
                },
            ),
            None => None,
        }
    }

    /// Where the scout walks when it casts nothing: to the patrol waypoint
    /// when it sees no unshielded hazard; else to the one nearest to the
    /// enemy base, if that one is farther than `BAND_INNER` from the enemy
    /// base and nearer than `BAND_OUTER`; else to the staging waypoint.
    pub open spec fn fallback_move(self, monsters: Seq<Entity>) -> Option<Action> {
        match self.closest_hazard(monsters) {
            None => Some(Action::Move { x: self.patrol_waypoint().0, y: self.patrol_waypoint().1 }),
            Some(j) => if !within(self.enemy_base(), monsters[j].pos(), BAND_INNER) && closer_than(
                self.enemy_base(),
                monsters[j].pos(),
                BAND_OUTER,
            ) {
                Some(Action::Move { x: monsters[j].x, y: monsters[j].y })
            } else {
                Some(
                    Action::Move { x: self.staging_waypoint().0, y: self.staging_waypoint().1 },
                )
            },
        }
    }

    /// What the scout does about the hazards alone: a spell on one of them,
    /// else a walk.
    pub open spec fn hazard_strategy(self, hero: Entity, monsters: Seq<Entity>) -> Option<Action> {
        match self.hazard_spell(hero, monsters) {
            Some(a) => Some(a),
            None => self.fallback_move(monsters),
        }
    }

    /// What the scout does about the enemy heroes alone: shield itself, else
    /// control one of them, else nothing.
    pub open spec fn enemy_strategy(self, hero: Entity, enemies: Seq<Entity>) -> Option<Action> {
        match self.emergency_shield(hero, enemies) {
            Some(a) => Some(a),
            None => self.enemy_control(hero, enemies),
        }
    }

    /// The action of the scout: the first that applies of self-shield, spell
    /// on a hazard, control of an enemy hero and walk; a wait if none does.
    pub open spec fn offense_action(
        self,
        hero: Entity,
        monsters: Seq<Entity>,
        enemies: Seq<Entity>,
    ) -> Action {
        if let Some(a) = self.emergency_shield(hero, enemies) {
            a
        } else if let Some(a) = self.hazard_spell(hero, monsters) {
            a
        } else if let Some(a) = self.enemy_control(hero, enemies) {
            a
        } else if let Some(a) = self.fallback_move(monsters) {
            a
        } else {
            Action::Wait
        }
    }

    /// The identity of the hazard that the scout claims by its action: the
    /// one that its push is aimed at.
    pub open spec fn offense_claim(
        self,
        hero: Entity,
        monsters: Seq<Entity>,
        enemies: Seq<Entity>,
    ) -> Option<i32> {
        if self.must_shield_self(hero, enemies) {
            None
        } else {
            match self.push_target(hero, monsters) {
                Some(j) => Some(monsters[j].id),
                None => None,
            }
        }
    }

    /// Looks at every hazard once and notes the one to push, the one to
    /// shield, the one to control and the unshielded one nearest to the enemy
    /// base.
    pub fn scan_hazards(&self, hero: &Entity, monsters: &Vec<Entity>) -> (scan: HazardScan)
        ensures
            as_index(scan.push) == self.push_target(*hero, monsters@),
            as_index(scan.shield) == self.shield_target(*hero, monsters@),
            as_index(scan.control) == self.control_target(*hero, monsters@),
            as_index(scan.closest) == self.closest_hazard(monsters@),
            scan.push matches Some(j) ==> j < monsters.len(),
            scan.shield matches Some(j) ==> j < monsters.len(),
            scan.control matches Some(j) ==> j < monsters.len(),
            scan.closest matches Some(j) ==> j < monsters.len(),
    {
        let enemy_base = self.GetEnemyBaseLocation();
        let mana = self.players_mana[0];
        let mut push: Option<usize> = None;
        let mut shield: Option<usize> = None;
        let mut control: Option<usize> = None;
        let mut control_dist: u128 = 0;
        let mut closest: Option<usize> = None;
        let mut closest_dist: u128 = 0;
        let ghost s = monsters@;
        let mut i: usize = 0;
        while i < monsters.len()
            invariant
                0 <= i <= monsters.len(),
                s == monsters@,
                enemy_base == self.enemy_base(),
                mana == self.mana(),
                match push {
                    Some(j) => is_first(s, self.pushable(*hero), i as int, j as int),
                    None => none_below(s, self.pushable(*hero), i as int),
                },
                match shield {
                    Some(j) => is_last(s, self.shieldable(*hero), i as int, j as int),
                    None => none_below(s, self.shieldable(*hero), i as int),
                },
                match control {
                    Some(j) => is_nearest(
                        s,
                        self.controllable(*hero),
                        enemy_base,
                        i as int,
                        j as int,
                    ) && control_dist == key(s, enemy_base, j as int),
                    None => none_below(s, self.controllable(*hero), i as int),
                },
                match closest {
                    Some(j) => is_nearest(s, unshielded(), enemy_base, i as int, j as int)
                        && closest_dist == key(s, enemy_base, j as int),
                    None => none_below(s, unshielded(), i as int),
                },
            decreases monsters.len() - i,
        {
            let m = monsters[i];
            let to_base = Utils::distance_sq(enemy_base, m.position());
            let in_strike = Utils::within(enemy_base, m.position(), STRIKE_RADIUS);
            let in_melee = Utils::within(hero.position(), m.position(), MELEE_RANGE);
            let in_reach = Utils::within(hero.position(), m.position(), ENGAGE_RANGE);
            let can_push = in_strike && in_melee && mana >= FULL_SPELL_MANA && m.health
                >= PUSH_MIN_HEALTH && m.shield_life == 0;
            let can_shield = in_reach && !can_push && mana >= LIGHT_SPELL_MANA && m.shield_life == 0
                && m.health >= SPELL_MIN_HEALTH && self.MonsterTargetEnemy(&m);
            let can_control = !in_strike && mana >= FULL_SPELL_MANA && in_reach && m.threat_for
                != THREATENS_ENEMY && m.health >= SPELL_MIN_HEALTH && m.shield_life == 0
                && m.is_controlled != 1;
            assert(can_push == self.pushable(*hero)(s[i as int]));
            assert(can_shield == self.shieldable(*hero)(s[i as int]));
            assert(can_control == self.controllable(*hero)(s[i as int]));
            assert((m.shield_life == 0) == unshielded()(s[i as int]));
            if can_push && push.is_none() {
                push = Some(i);
            }
            if can_shield {
                shield = Some(i);
            }
            if can_control {
                let nearer = match control {
                    Some(_) => to_base < control_dist,
                    None => true,
                };
                if nearer {
                    control = Some(i);
                    control_dist = to_base;
                }
            }
            if m.shield_life == 0 {
                let nearer = match closest {
                    Some(_) => to_base < closest_dist,
                    None => true,
                };
                if nearer {
                    closest = Some(i);
                    closest_dist = to_base;
                }
            }
            i += 1;
        }
        proof {
            match push {
                Some(j) => lemma_first_is_unique(s, self.pushable(*hero), j as int),
                None => lemma_nothing_to_find(s, self.pushable(*hero), enemy_base),
            }
            match shield {
                Some(j) => lemma_last_is_unique(s, self.shieldable(*hero), j as int),
                None => lemma_nothing_to_find(s, self.shieldable(*hero), enemy_base),
            }
            match control {
                Some(j) => lemma_nearest_is_unique(
                    s,
                    self.controllable(*hero),
                    enemy_base,
                    j as int,
                ),
                None => lemma_nothing_to_find(s, self.controllable(*hero), enemy_base),
            }
            match closest {
                Some(j) => lemma_nearest_is_unique(s, unshielded(), enemy_base, j as int),
                None => lemma_nothing_to_find(s, unshielded(), enemy_base),
            }
        }
        HazardScan { push, shield, control, closest }
    }

    /// Looks at every enemy hero once and notes whether one engages the
    /// scout, and the one to control.
    pub fn scan_enemies(&self, hero: &Entity, enemies: &Vec<Entity>) -> (scan: EnemyScan)
        ensures
            scan.engaged == Self::engaged(*hero, enemies@),
            as_index(scan.control) == self.enemy_target(*hero, enemies@),
            scan.control matches Some(j) ==> j < enemies.len(),
    {
        let enemy_base = self.GetEnemyBaseLocation();
        let mana = self.players_mana[0];
        let near_enemy_base = Utils::closer_than(enemy_base, hero.position(), LONG_RANGE);
        let mut engaged = false;
        let mut control: Option<usize> = None;
        let mut control_dist: u128 = 0;
        let ghost s = enemies@;
        let mut i: usize = 0;
        while i < enemies.len()
            invariant
                0 <= i <= enemies.len(),
                s == enemies@,
                enemy_base == self.enemy_base(),
                mana == self.mana(),
                near_enemy_base == closer_than(enemy_base, hero.pos(), LONG_RANGE),
                engaged == Self::engaged(*hero, s.take(i as int)),
                match control {
                    Some(j) => is_nearest(
                        s,
                        self.enemy_controllable(*hero),
                        enemy_base,
                        i as int,
                        j as int,
                    ) && control_dist == key(s, enemy_base, j as int),
                    None => none_below(s, self.enemy_controllable(*hero), i as int),
                },
            decreases enemies.len() - i,
        {
            let e = enemies[i];
            let to_base = Utils::distance_sq(enemy_base, e.position());
            let in_reach = Utils::within(hero.position(), e.position(), ENGAGE_RANGE);
            let can_control = in_reach && near_enemy_base && mana >= FULL_SPELL_MANA
                && e.is_controlled != 1;
            assert(can_control == self.enemy_controllable(*hero)(s[i as int]));
            proof {
                let before = s.take(i as int);
                let after = s.take(i + 1);
                if in_reach {
                    assert(after[i as int] == e);
                } else if Self::engaged(*hero, after) {
                    let w = choose|w: int|
                        0 <= w < after.len() && within(
                            hero.pos(),
                            (#[trigger] after[w]).pos(),
                            ENGAGE_RANGE,
                        );
                    assert(before[w] == after[w]);
                }
                if Self::engaged(*hero, before) {
                    let w = choose|w: int|
                        0 <= w < before.len() && within(
                            hero.pos(),
                            (#[trigger] before[w]).pos(),
                            ENGAGE_RANGE,
                        );
                    assert(after[w] == before[w]);
                }
            }
            if in_reach {
                engaged = true;
            }
            if can_control {
                let nearer = match control {
                    Some(_) => to_base < control_dist,
                    None => true,
                };
                if nearer {
                    control = Some(i);
                    control_dist = to_base;
                }
            }
            i += 1;
        }
        proof {
            assert(s.take(i as int) =~= s);
            match control {
                Some(j) => lemma_nearest_is_unique(
                    s,
                    self.enemy_controllable(*hero),
                    enemy_base,
                    j as int,
                ),
                None => lemma_nothing_to_find(s, self.enemy_controllable(*hero), enemy_base),
            }
        }
        EnemyScan { engaged, control }
    }

    /// The spell on a hazard that a scan of the hazards calls for, if any.
    fn spell_from_scan(
        &self,
        hero: &Entity,
        monsters: &Vec<Entity>,
        scan: &HazardScan,
    ) -> (spell: Option<Action>)
        requires
            as_index(scan.push) == self.push_target(*hero, monsters@),
            as_index(scan.shield) == self.shield_target(*hero, monsters@),
            as_index(scan.control) == self.control_target(*hero, monsters@),
            scan.shield matches Some(j) ==> j < monsters.len(),
            scan.control matches Some(j) ==> j < monsters.len(),
        ensures
            spell == self.hazard_spell(*hero, monsters@),
    {
        let enemy_base = self.GetEnemyBaseLocation();
        if scan.push.is_some() {
            Some(Action::Wind { x: enemy_base.0, y: enemy_base.1 })
        } else if let Some(j) = scan.shield {
            Some(Action::Shield { id: monsters[j].id })
        } else if let Some(j) = scan.control {
            Some(Action::Control { id: monsters[j].id, x: enemy_base.0, y: enemy_base.1 })
        } else {
            None
        }
    }

    /// The walk that a scan of the hazards calls for.
    fn move_from_scan(&self, monsters: &Vec<Entity>, scan: &HazardScan) -> (walk: Option<Action>)
        requires
            as_index(scan.closest) == self.closest_hazard(monsters@),
            scan.closest matches Some(j) ==> j < monsters.len(),
        ensures
            walk == self.fallback_move(monsters@),
            walk is Some,
    {
        let enemy_base = self.GetEnemyBaseLocation();
        let at_origin = self.init_params.base_x == 0;
        match scan.closest {
            None => {
                if at_origin {
                    Some(Action::Move { x: 12000, y: 4200 })
                } else {
                    Some(Action::Move { x: 6000, y: 3200 })
                }
            },
            Some(j) => {
                let m = monsters[j];
                if !Utils::within(enemy_base, m.position(), BAND_INNER) && Utils::closer_than(
                    enemy_base,
                    m.position(),
                    BAND_OUTER,
                ) {
                    Some(Action::Move { x: m.x, y: m.y })
                } else if at_origin {
                    Some(Action::Move { x: 13636, y: 6445 })
                } else {
                    Some(Action::Move { x: 4000, y: 2500 })
                }
            },
        }
    }

    /// Tells whether the scout must shield itself, given whether an enemy
    /// hero engages it.
    fn shield_is_due(&self, hero: &Entity, engaged: bool) -> (due: bool)
        ensures
            due == (engaged && closer_than(self.own_base(), hero.pos(), LONG_RANGE) && self.mana()
                >= FULL_SPELL_MANA && hero.shield_life <= 1),
    {
        let own_base = (self.init_params.base_x, self.init_params.base_y);
        engaged && Utils::closer_than(own_base, hero.position(), LONG_RANGE)
            && self.players_mana[0] >= FULL_SPELL_MANA && hero.shield_life <= 1
    }

    /// Decides for the scout `hero`: its action, and the identity of the
    /// hazard that it claims when the action is a push.
    pub fn offense_decision(
        &self,
        hero: &Entity,
        monsters: &Vec<Entity>,
        enemies: &Vec<Entity>,
    ) -> (decision: (Action, Option<i32>))
        ensures
            decision.0 == self.offense_action(*hero, monsters@, enemies@),
            decision.1 == self.offense_claim(*hero, monsters@, enemies@),
    {
        let foes = self.scan_enemies(hero, enemies);
        if self.shield_is_due(hero, foes.engaged) {
            return (Action::Shield { id: hero.id }, None);
        }
        let found = self.scan_hazards(hero, monsters);
        let claim = match found.push {
            Some(j) => Some(monsters[j].id),
            None => None,
        };
        if let Some(spell) = self.spell_from_scan(hero, monsters, &found) {
            return (spell, claim);
        }
        let enemy_base = self.GetEnemyBaseLocation();
        if let Some(j) = foes.control {
            return (Action::Control { id: enemies[j].id, x: enemy_base.0, y: enemy_base.1 }, claim);
        }
        match self.move_from_scan(monsters, &found) {
            Some(walk) => (walk, claim),
            None => (Action::Wait, claim),
        }
    }

    /// What the scout `hero` does about the enemy heroes alone. It shields
    /// itself when one of them is at most `ENGAGE_RANGE` away while the own
    /// base is strictly nearer than `LONG_RANGE`, the mana is at least
    /// `FULL_SPELL_MANA` and its own shield lasts one turn at most. Else it
    /// sends to the enemy base the uncontrolled enemy hero nearest to that
    /// base among those at most `ENGAGE_RANGE` away, given the same mana and
    /// that the scout is strictly nearer than `LONG_RANGE` to the enemy base.
    /// Else there is nothing to do about them.
    pub fn WitcherToEnemiesStategy(
        &self,
        hero: &Entity,
        enemies: &Vec<Entity>,
    ) -> (ret: Option<String>)
        ensures
            match self.enemy_strategy(*hero, enemies@) {
                Some(a) => ret matches Some(line) && line@ == a.text(),
                None => ret is None,
            },
    {
        let foes = self.scan_enemies(hero, enemies);
        if self.shield_is_due(hero, foes.engaged) {
            return Some(Action::Shield { id: hero.id }.command());
        }
        let enemy_base = self.GetEnemyBaseLocation();
        match foes.control {
            Some(j) => Some(
                Action::Control { id: enemies[j].id, x: enemy_base.0, y: enemy_base.1 }.command(),
            ),
            None => None,
        }
    }

    /// What the scout `hero` does about the hazards alone: the spell that
    /// `hazard_spell` names, and without one the walk that `fallback_move`
    /// names. There is always one of the two. The enemy heroes have no say
    /// in this.
    #[allow(unused_variables)]
    pub fn WitcherToMonstersStrategy(
        &self,
        hero: &Entity,
        monsters: &Vec<Entity>,
        enemies: &Vec<Entity>,
    ) -> (ret: Option<String>)
        ensures
            self.hazard_strategy(*hero, monsters@) is Some,
            ret matches Some(line) && line@ == self.hazard_strategy(*hero, monsters@)->0.text(),
    {
        let found = self.scan_hazards(hero, monsters);
        match self.spell_from_scan(hero, monsters, &found) {
            Some(spell) => Some(spell.command()),
            None => match self.move_from_scan(monsters, &found) {
                Some(walk) => Some(walk.command()),
                None => None,
            },
        }
    }

    /// The game after the scout has acted: a claim whose hazard is gone is
    /// dropped, and a push claims the hazard that it is aimed at.
    pub open spec fn after_offense(
        self,
        hero: Entity,
        monsters: Seq<Entity>,
        enemies: Seq<Entity>,
    ) -> Game {
        let game = self.refreshed(monsters);
        match game.offense_claim(hero, monsters, enemies) {
            Some(id) => game.with_claim(Some(id)),
            None => game,
        }
    }

    /// The scout reads the corner of the own base and the own mana, and
    /// nothing else of the game: two games that agree on these give it the
    /// same action and the same claim. What an earlier turn has left in the
    /// claim makes no difference to it.
    pub proof fn lemma_offense_reads(
        self,
        other: Game,
        hero: Entity,
        monsters: Seq<Entity>,
        enemies: Seq<Entity>,
    )
        requires
            self.own_base() == other.own_base(),
            self.mana() == other.mana(),
        ensures
            self.offense_action(hero, monsters, enemies) == other.offense_action(
                hero,
                monsters,
                enemies,
            ),
            self.offense_claim(hero, monsters, enemies) == other.offense_claim(
                hero,
                monsters,
                enemies,
            ),
    {
        assert(self.pushable(hero) =~= other.pushable(hero));
        assert(self.shieldable(hero) =~= other.shieldable(hero));
        assert(self.controllable(hero) =~= other.controllable(hero));
        assert(self.enemy_controllable(hero) =~= other.enemy_controllable(hero));
    }

    /// The command of the scout `hero` for this turn. A claim whose hazard
    /// is gone is dropped first. Then the scout takes the first that applies
    /// of: a shield on itself, a spell on a hazard, a control of an enemy
    /// hero, a walk. A push claims the hazard that it is aimed at.
    pub fn MoveWitcher(
        &mut self,
        hero: &Entity,
        monsters: &Vec<Entity>,
        enemies: &Vec<Entity>,
    ) -> (line: String)
        ensures
            line@ == old(self).refreshed(monsters@).offense_action(
                *hero,
                monsters@,
                enemies@,
            ).text(),
            *final(self) == old(self).after_offense(*hero, monsters@, enemies@),
    {
        self.refresh_claim(monsters);
        let (action, claim) = self.offense_decision(hero, monsters, enemies);
        if claim.is_some() {
            self.monsterIsTaken = claim;
        }
        action.command()
    }
}

} // verus!
