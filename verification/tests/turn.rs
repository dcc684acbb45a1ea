use fall_challenge::{Category, Entity, Game, InitParams};

fn game_at(base_x: i32, base_y: i32, mana: i32) -> Game {
    let mut game = Game::new(InitParams {
        base_x,
        base_y,
        ebase_x: 17630 - base_x,
        ebase_y: 9000 - base_y,
        heroes_per_player: 3,
    });
    game.players_mana[0] = mana;
    game
}

fn hero(id: i32, x: i32, y: i32) -> Entity {
    Entity { id, category: Category::OwnAgent, x, y, ..Entity::default() }
}

fn hazard(id: i32, x: i32, y: i32) -> Entity {
    Entity { id, category: Category::Hazard, x, y, health: 10, ..Entity::default() }
}

fn enemy(id: i32, x: i32, y: i32) -> Entity {
    Entity { id, category: Category::EnemyAgent, x, y, ..Entity::default() }
}

#[test]
fn new_game_is_empty() {
    let params = InitParams { base_x: 17630, base_y: 9000, ebase_x: 0, ebase_y: 0, heroes_per_player: 3 };
    let game = Game::new(params);
    assert_eq!(game.init_params, params);
    assert!(game.entities.is_empty());
    assert_eq!(game.players_health, [0, 0]);
    assert_eq!(game.players_mana, [0, 0]);
    assert!(!game.witcher_reached_pos);
    assert_eq!(game.monsterIsTaken, None);
}

#[test]
fn enemy_base_is_opposite_to_the_own_base() {
    assert_eq!(game_at(0, 0, 0).GetEnemyBaseLocation(), (17630, 9000));
    assert_eq!(game_at(17630, 9000, 0).GetEnemyBaseLocation(), (0, 0));
    assert_eq!(game_at(1, 0, 0).GetEnemyBaseLocation(), (0, 0));
}

#[test]
fn heading_for_the_enemy_side_depends_on_the_corner() {
    let origin = game_at(0, 0, 0);
    let far = game_at(17630, 9000, 0);
    for (vx, vy, from_origin, from_far) in [
        (1, 1, true, false),
        (-1, -1, false, true),
        (1, -1, false, false),
        (-1, 1, false, false),
        (0, 0, false, false),
        (0, 5, false, false),
        (-5, 0, false, false),
    ] {
        let m = Entity { vx, vy, ..hazard(1, 0, 0) };
        assert_eq!(origin.MonsterTargetEnemy(&m), from_origin);
        assert_eq!(far.MonsterTargetEnemy(&m), from_far);
    }
}

#[test]
fn split_sorts_by_category_and_keeps_the_order() {
    let mut game = game_at(0, 0, 0);
    game.entities = vec![
        hazard(10, 1, 1),
        hero(0, 2, 2),
        enemy(3, 3, 3),
        hazard(11, 4, 4),
        hero(1, 5, 5),
        enemy(4, 6, 6),
        hero(2, 7, 7),
        hazard(12, 8, 8),
    ];
    let [me, enemies, monsters] = game.split();
    assert_eq!(me, vec![hero(0, 2, 2), hero(1, 5, 5), hero(2, 7, 7)]);
    assert_eq!(enemies, vec![enemy(3, 3, 3), enemy(4, 6, 6)]);
    assert_eq!(monsters, vec![hazard(10, 1, 1), hazard(11, 4, 4), hazard(12, 8, 8)]);
}

#[test]
fn split_of_an_empty_snapshot() {
    let game = game_at(0, 0, 0);
    let [me, enemies, monsters] = game.split();
    assert!(me.is_empty() && enemies.is_empty() && monsters.is_empty());
}

#[test]
fn one_command_for_each_own_hero() {
    for n in 0..=6 {
        let mut game = game_at(0, 0, 0);
        game.entities.push(hazard(10, 5000, 0));
        game.entities.push(enemy(5, 9000, 0));
        for id in 0..n {
            game.entities.push(hero(id, 100 * id, 0));
        }
        assert_eq!(game.GetActions().len(), n as usize);
    }
}

#[test]
fn first_hero_scouts_and_the_others_defend() {
    let mut game = game_at(0, 0, 100);
    game.entities = vec![hero(0, 9000, 4000), hero(1, 1000, 1000), hero(2, 2000, 2000)];
    assert_eq!(game.GetActions(), vec!["MOVE 12000 4200", "MOVE 4294 3454", "MOVE 5359 1529"]);
}

#[test]
fn ordinals_follow_the_order_of_the_snapshot() {
    let mut game = game_at(17630, 9000, 100);
    game.entities = vec![
        enemy(3, 0, 0),
        hero(2, 9000, 4000),
        hazard(10, 100, 100),
        hero(0, 1000, 1000),
        hero(1, 2000, 2000),
    ];
    assert_eq!(game.GetActions(), vec!["MOVE 4000 2500", "MOVE 14519 3901", "MOVE 12709 6584"]);
}

#[test]
fn a_pushed_hazard_is_left_to_the_defender_that_pushes_it() {
    let mut game = game_at(0, 0, 100);
    game.entities = vec![
        hero(0, 9000, 4000),
        hero(1, 600, 0),
        hero(2, 700, 0),
        hazard(7, 500, 0),
        hazard(8, 900, 0),
    ];
    assert_eq!(
        game.GetActions(),
        vec!["MOVE 13636 6445", "SPELL WIND 8815 4500", "SPELL WIND 8815 4500"]
    );
    assert_eq!(game.monsterIsTaken, Some(8));
}

#[test]
fn second_defender_holds_its_post_when_the_only_hazard_is_claimed() {
    let mut game = game_at(0, 0, 100);
    game.entities = vec![hero(0, 9000, 4000), hero(1, 600, 0), hero(2, 700, 0), hazard(7, 500, 0)];
    assert_eq!(
        game.GetActions(),
        vec!["MOVE 13636 6445", "SPELL WIND 8815 4500", "MOVE 5359 1529"]
    );
    assert_eq!(game.monsterIsTaken, Some(7));
}

#[test]
fn both_defenders_walk_to_a_hazard_that_nobody_pushes() {
    let mut game = game_at(0, 0, 100);
    game.entities = vec![hero(0, 9000, 4000), hero(1, 600, 0), hero(2, 700, 0), hazard(7, 5000, 0)];
    assert_eq!(game.GetActions(), vec!["MOVE 13636 6445", "MOVE 5000 0", "MOVE 5000 0"]);
    assert_eq!(game.monsterIsTaken, None);
}

#[test]
fn every_hero_counts_on_the_mana_of_the_start_of_the_turn() {
    // 10 mana pay for one push; both defenders push all the same
    let mut game = game_at(0, 0, 10);
    game.entities = vec![
        hero(0, 9000, 4000),
        hero(1, 600, 0),
        hero(2, 700, 0),
        hazard(7, 500, 0),
        hazard(8, 900, 0),
    ];
    let lines = game.GetActions();
    assert_eq!(lines[1], "SPELL WIND 8815 4500");
    assert_eq!(lines[2], "SPELL WIND 8815 4500");
    assert_eq!(game.players_mana, [10, 0]);
}

#[test]
fn the_claim_of_an_earlier_turn_is_forgotten() {
    let mut game = game_at(0, 0, 100);
    game.entities = vec![hero(0, 9000, 4000), hero(1, 600, 0), hazard(7, 5000, 0)];
    game.monsterIsTaken = Some(7);
    assert_eq!(game.GetActions(), vec!["MOVE 13636 6445", "MOVE 5000 0"]);
    assert_eq!(game.monsterIsTaken, None);
}

#[test]
fn same_snapshot_same_commands() {
    let mut game = game_at(0, 0, 60);
    game.entities = vec![
        hero(0, 15000, 8000),
        hero(1, 600, 0),
        hero(2, 700, 0),
        hazard(7, 500, 0),
        hazard(8, 900, 0),
        hazard(9, 15000, 8100),
        enemy(4, 15000, 7000),
    ];
    let mut copy = game.clone();
    copy.monsterIsTaken = Some(8);
    copy.players_health = [3, 1];
    copy.witcher_reached_pos = true;
    let first = game.GetActions();
    assert_eq!(first, vec!["SPELL WIND 17630 9000", "SPELL WIND 8815 4500", "SPELL WIND 8815 4500"]);
    assert_eq!(copy.GetActions(), first);
    assert_eq!(game.GetActions(), first);
    assert_eq!(copy.monsterIsTaken, game.monsterIsTaken);
}

#[test]
fn a_turn_changes_nothing_but_the_claim() {
    let mut game = game_at(0, 0, 60);
    game.players_health = [3, 2];
    game.players_mana = [60, 70];
    game.entities = vec![hero(0, 15000, 8000), hero(1, 600, 0), hazard(7, 500, 0)];
    let before = game.clone();
    game.GetActions();
    assert_eq!(game.entities, before.entities);
    assert_eq!(game.players_health, before.players_health);
    assert_eq!(game.players_mana, before.players_mana);
    assert_eq!(game.init_params, before.init_params);
    assert_eq!(game.monsterIsTaken, Some(7));
}

#[test]
fn scout_engaged_by_an_enemy_of_the_snapshot_shields_itself() {
    let mut game = game_at(0, 0, 50);
    game.entities = vec![hero(4, 3000, 0), enemy(9, 3000, 2200)];
    assert_eq!(game.GetActions(), vec!["SPELL SHIELD 4"]);
}

#[test]
fn a_defender_beyond_the_second_has_no_post_and_waits() {
    let mut game = game_at(0, 0, 100);
    game.entities = vec![hero(0, 9000, 4000), hero(1, 0, 0), hero(2, 0, 0), hero(3, 0, 0)];
    assert_eq!(
        game.GetActions(),
        vec!["MOVE 12000 4200", "MOVE 4294 3454", "MOVE 5359 1529", "WAIT"]
    );
}

#[test]
fn a_defender_beyond_the_second_still_goes_for_a_hazard() {
    let mut game = game_at(0, 0, 100);
    game.entities = vec![
        hero(0, 9000, 4000),
        hero(1, 0, 0),
        hero(2, 0, 0),
        hero(3, 0, 0),
        hero(4, 5000, 0),
        hazard(7, 5000, 0),
    ];
    assert_eq!(
        game.GetActions(),
        vec!["MOVE 13636 6445", "MOVE 5000 0", "MOVE 5000 0", "MOVE 5000 0", "MOVE 5000 0"]
    );
}
