//! One turn: a command for every own hero of the snapshot.
//!
//! The first own hero of the snapshot is the scout; the others are defenders,
//! each with its place in the squad as ordinal. The heroes decide one after
//! the other on the same snapshot and the same mana. What one does is seen
//! by those after it only through the claim on the hazard that it pushes.

use vstd::prelude::*;
use crate::action::Action;
use crate::entity::Entity;
use crate::game::{has_id, Game};
use crate::ranking::lemma_rank_order;
use crate::select::lemma_first_match;

verus! {

/// The ordinal of the hero at index `i` of the squad, as far as ordinals go.
pub open spec fn ordinal(i: int) -> i32 {
    if i <= i32::MAX {
        i as i32
    } else {
        i32::MAX
    }
}

impl Game {
    /// The claim that the first `k` own heroes of the snapshot leave behind.
    /// A turn starts without a claim, whatever the turn before has left.
    pub open spec fn claim_after(self, k: nat) -> Option<i32>
        decreases k,
    {
        if k == 0 {
            None
        } else {
            let game = self.with_claim(self.claim_after((k - 1) as nat));
            let hero = self.own_agents()[k - 1];
            if k == 1 {
                game.after_offense(hero, self.hazards(), self.enemy_agents()).monsterIsTaken
            } else {
                game.after_defense(hero, self.hazards()).monsterIsTaken
            }
        }
    }

    /// The action of the own hero of ordinal `i`: that of the scout for the
    /// first, that of a defender for the others, each decided on the claim
    /// that the heroes before it have left.
    pub open spec fn turn_action(self, i: int) -> Action {
        let game = self.with_claim(self.claim_after(i as nat)).refreshed(self.hazards());
        let hero = self.own_agents()[i];
        if i == 0 {
            game.offense_action(hero, self.hazards(), self.enemy_agents())
        } else {
            game.defense_action(ordinal(i), hero, self.hazards())
        }
    }

    /// The actions of a whole turn: one for each own hero of the snapshot, in
    /// the order of the snapshot.
    pub open spec fn turn_actions(self) -> Seq<Action> {
        Seq::new(self.own_agents().len(), |i: int| self.turn_action(i))
    }

    /// The game at the end of the turn: nothing has changed but the claim.
    pub open spec fn turn_end(self) -> Game {
        self.with_claim(self.claim_after(self.own_agents().len()))
    }

    /// A claim on a hazard that is not among `monsters` is dropped before
    /// the scout or a defender decides: it acts, and leaves the game, as if
    /// there had been no claim.
    pub proof fn lemma_stale_claim_dropped(
        self,
        hero: Entity,
        monsters: Seq<Entity>,
        enemies: Seq<Entity>,
    )
        requires
            self.monsterIsTaken matches Some(id) && !has_id(monsters, id),
        ensures
            self.refreshed(monsters) == self.with_claim(None),
            self.refreshed(monsters) == self.with_claim(None).refreshed(monsters),
            self.after_offense(hero, monsters, enemies) == self.with_claim(None).after_offense(
                hero,
                monsters,
                enemies,
            ),
            self.after_defense(hero, monsters) == self.with_claim(None).after_defense(
                hero,
                monsters,
            ),
            self.after_offense(hero, monsters, enemies).monsterIsTaken != self.monsterIsTaken,
            self.after_defense(hero, monsters).monsterIsTaken != self.monsterIsTaken,
    {
        let game = self.refreshed(monsters);
        if let Some(j) = game.push_target(hero, monsters) {
            lemma_first_match(monsters, game.pushable(hero));
        }
        if game.defense_targets(monsters).len() > 0 {
            lemma_rank_order(monsters, game.own_base(), game.hazard_criteria());
        }
    }

    proof fn lemma_claims_agree(self, other: Game, k: nat)
        requires
            self.own_base() == other.own_base(),
            self.mana() == other.mana(),
            self.entities@ == other.entities@,
        ensures
            self.claim_after(k) == other.claim_after(k),
        decreases k,
    {
        if k > 0 {
            self.lemma_claims_agree(other, (k - 1) as nat);
            let claim = self.claim_after((k - 1) as nat);
            let hero = self.own_agents()[k - 1];
            let mine = self.with_claim(claim).refreshed(self.hazards());
            let theirs = other.with_claim(claim).refreshed(self.hazards());
            if k == 1 {
                mine.lemma_offense_reads(theirs, hero, self.hazards(), self.enemy_agents());
            } else {
                mine.lemma_defense_reads(theirs, 0, hero, self.hazards());
            }
        }
    }

    /// A turn is a function of the corner of the own base, the own mana and
    /// the snapshot: two games that agree on these choose the same actions
    /// and end the turn with the same claim, whatever else they hold and
    /// whatever claim an earlier turn has left in either.
    pub proof fn lemma_turn_deterministic(self, other: Game)
        requires
            self.own_base() == other.own_base(),
            self.mana() == other.mana(),
            self.entities@ == other.entities@,
        ensures
            self.turn_actions() == other.turn_actions(),
            self.turn_end().monsterIsTaken == other.turn_end().monsterIsTaken,
    {
        self.lemma_claims_agree(other, self.own_agents().len());
        assert forall|i: int| 0 <= i < self.own_agents().len() implies self.turn_action(i)
            == other.turn_action(i) by {
            self.lemma_claims_agree(other, i as nat);
            let claim = self.claim_after(i as nat);
            let hero = self.own_agents()[i];
            let mine = self.with_claim(claim).refreshed(self.hazards());
            let theirs = other.with_claim(claim).refreshed(self.hazards());
            if i == 0 {
                mine.lemma_offense_reads(theirs, hero, self.hazards(), self.enemy_agents());
            } else {
                mine.lemma_defense_reads(theirs, ordinal(i), hero, self.hazards());
            }
        }
        assert(self.turn_actions() =~= other.turn_actions());
    }

    /// A turn chooses one action for each own hero of the snapshot.
    pub proof fn lemma_turn_cardinality(self)
        ensures
            self.turn_actions().len() == self.own_agents().len(),
    {
    }

    /// Chooses the commands of the turn: that of the scout for the first own
    /// hero of the snapshot, that of a defender for each of the others, in
    /// the order of the snapshot, however many there are. The claim of an
    /// earlier turn is dropped before the first hero acts. Nothing of the
    /// game changes but the claim.
    pub fn GetActions(&mut self) -> (ret: Vec<String>)
        ensures
            ret@.len() == old(self).own_agents().len(),
            forall|i: int|
                0 <= i < ret@.len() ==> (#[trigger] ret@[i])@ == old(self).turn_action(i).text(),
            *final(self) == old(self).turn_end(),
    {
        let ghost start = *self;
        let parts = self.split();
        let me = &parts[0];
        let enemies = &parts[1];
        let monsters = &parts[2];
        self.monsterIsTaken = None;
        let mut ret: Vec<String> = Vec::new();
        let mut i: usize = 0;
        while i < me.len()
            invariant
                0 <= i <= me.len(),
                me@ == start.own_agents(),
                enemies@ == start.enemy_agents(),
                monsters@ == start.hazards(),
                *self == start.with_claim(start.claim_after(i as nat)),
                ret@.len() == i,
                forall|j: int| 0 <= j < i ==> (#[trigger] ret@[j])@ == start.turn_action(j).text(),
            decreases me.len() - i,
        {
            let line = if i == 0 {
                self.MoveWitcher(&me[i], monsters, enemies)
            } else if i <= i32::MAX as usize {
                self.MoveDefense(i as i32, &me[i], monsters, enemies)
            } else {
                self.MoveDefense(i32::MAX, &me[i], monsters, enemies)
            };
            ret.push(line);
            i += 1;
        }
        ret
    }
}

} // verus!
