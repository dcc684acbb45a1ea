use fall_challenge::ranking::rank_near_base;
use fall_challenge::{Category, Criteria, Entity, Game, InitParams};

fn hazard(id: i32, x: i32, y: i32) -> Entity {
    Entity { id, category: Category::Hazard, x, y, health: 10, ..Entity::default() }
}

fn enemy(id: i32, x: i32, y: i32) -> Entity {
    Entity { id, category: Category::EnemyAgent, x, y, ..Entity::default() }
}

fn game_at(base_x: i32, base_y: i32) -> Game {
    Game::new(InitParams {
        base_x,
        base_y,
        ebase_x: 17630 - base_x,
        ebase_y: 9000 - base_y,
        heroes_per_player: 3,
    })
}

fn ids(ranked: &Vec<(u128, Entity)>) -> Vec<i32> {
    ranked.iter().map(|entry| entry.1.id).collect()
}

fn keys(ranked: &Vec<(u128, Entity)>) -> Vec<u128> {
    ranked.iter().map(|entry| entry.0).collect()
}

fn watch(radius: u32) -> Criteria {
    Criteria { base: (0, 0), radius, exclude: None, heading_only: false }
}

#[test]
fn ranking_of_nothing_is_empty() {
    let ranked = rank_near_base((0, 0), &Vec::new(), watch(8000));
    assert!(ranked.is_empty());
}

#[test]
fn ranking_ascends_by_distance_to_the_reference_point() {
    let monsters =
        vec![hazard(1, 3000, 0), hazard(2, 1000, 0), hazard(3, 0, 2000), hazard(4, 500, 0)];
    let ranked = rank_near_base((0, 0), &monsters, watch(8000));
    assert_eq!(ids(&ranked), vec![4, 2, 3, 1]);
    assert_eq!(keys(&ranked), vec![250_000, 1_000_000, 4_000_000, 9_000_000]);
}

#[test]
fn ranking_keeps_whole_entities() {
    let monsters = vec![hazard(1, 3000, 0), hazard(2, 1000, 0)];
    let ranked = rank_near_base((0, 0), &monsters, watch(8000));
    assert_eq!(ranked[0].1, monsters[1]);
    assert_eq!(ranked[1].1, monsters[0]);
}

#[test]
fn equally_distant_entities_keep_their_input_order() {
    // all four are 500 away from the origin
    let monsters =
        vec![hazard(1, 300, 400), hazard(2, 500, 0), hazard(3, 0, 500), hazard(4, 400, 300)];
    let ranked = rank_near_base((0, 0), &monsters, watch(8000));
    assert_eq!(ids(&ranked), vec![1, 2, 3, 4]);
    let reversed: Vec<Entity> = monsters.iter().rev().cloned().collect();
    let ranked = rank_near_base((0, 0), &reversed, watch(8000));
    assert_eq!(ids(&ranked), vec![4, 3, 2, 1]);
}

#[test]
fn ties_stay_in_order_between_nearer_and_farther_entities() {
    let monsters = vec![
        hazard(1, 900, 0),
        hazard(2, 500, 0),
        hazard(3, 100, 0),
        hazard(4, 0, 500),
        hazard(5, 300, 400),
    ];
    let ranked = rank_near_base((0, 0), &monsters, watch(8000));
    assert_eq!(ids(&ranked), vec![3, 2, 4, 5, 1]);
}

#[test]
fn entity_exactly_at_the_radius_is_left_out() {
    let monsters = vec![hazard(1, 8000, 0), hazard(2, 7999, 0), hazard(3, 8001, 0)];
    let ranked = rank_near_base((0, 0), &monsters, watch(8000));
    assert_eq!(ids(&ranked), vec![2]);
}

#[test]
fn entity_exactly_at_the_radius_on_a_diagonal_is_left_out() {
    // 4800^2 + 6400^2 = 8000^2
    let monsters = vec![hazard(1, 4800, 6400), hazard(2, 4800, 6399)];
    let ranked = rank_near_base((0, 0), &monsters, watch(8000));
    assert_eq!(ids(&ranked), vec![2]);
}

#[test]
fn radius_zero_admits_nothing() {
    let monsters = vec![hazard(1, 0, 0)];
    assert!(rank_near_base((0, 0), &monsters, watch(0)).is_empty());
}

#[test]
fn radius_is_measured_from_the_base_and_rank_from_the_reference_point() {
    let monsters = vec![hazard(1, 1000, 0), hazard(2, 7000, 0), hazard(3, 9000, 0)];
    let ranked = rank_near_base((8000, 0), &monsters, watch(8000));
    assert_eq!(ids(&ranked), vec![2, 1]);
    assert_eq!(keys(&ranked), vec![1_000_000, 49_000_000]);
}

#[test]
fn excluded_identity_is_left_out() {
    let monsters = vec![hazard(1, 3000, 0), hazard(2, 1000, 0), hazard(3, 2000, 0)];
    let criteria = Criteria { exclude: Some(2), ..watch(8000) };
    let ranked = rank_near_base((0, 0), &monsters, criteria);
    assert_eq!(ids(&ranked), vec![3, 1]);
}

#[test]
fn every_entity_of_the_excluded_identity_is_left_out() {
    let monsters = vec![hazard(2, 3000, 0), hazard(2, 1000, 0), hazard(3, 2000, 0)];
    let criteria = Criteria { exclude: Some(2), ..watch(8000) };
    assert_eq!(ids(&rank_near_base((0, 0), &monsters, criteria)), vec![3]);
}

#[test]
fn heading_flag_is_asked_for_only_on_demand() {
    let mut heading = hazard(1, 3000, 0);
    heading.near_base = 1;
    let monsters = vec![heading, hazard(2, 1000, 0)];
    let strict = Criteria { heading_only: true, ..watch(8000) };
    assert_eq!(ids(&rank_near_base((0, 0), &monsters, strict)), vec![1]);
    assert_eq!(ids(&rank_near_base((0, 0), &monsters, watch(8000))), vec![2, 1]);
}

#[test]
fn ranking_twice_gives_the_same_ranking() {
    let monsters = vec![
        hazard(1, 900, 0),
        hazard(2, 500, 0),
        hazard(3, 9000, 0),
        hazard(4, 0, 500),
        hazard(5, 300, 400),
    ];
    let first = rank_near_base((100, 100), &monsters, watch(8000));
    let again = rank_near_base((100, 100), &monsters, watch(8000));
    assert_eq!(first, again);
}

#[test]
fn ranking_a_ranking_changes_nothing() {
    let monsters = vec![
        hazard(1, 900, 0),
        hazard(2, 500, 0),
        hazard(3, 9000, 0),
        hazard(4, 0, 500),
        hazard(5, 300, 400),
    ];
    let first = rank_near_base((0, 0), &monsters, watch(8000));
    let entities: Vec<Entity> = first.iter().map(|entry| entry.1).collect();
    let second = rank_near_base((0, 0), &entities, watch(8000));
    assert_eq!(first, second);
}

#[test]
fn hazards_are_ranked_within_the_defense_radius_of_the_own_base() {
    let game = game_at(0, 0);
    let monsters = vec![hazard(1, 8000, 0), hazard(2, 7999, 0), hazard(3, 100, 0)];
    let ranked = game.GetDistanceToMonsters((0, 0), &monsters);
    assert_eq!(ids(&ranked), vec![3, 2]);
    assert_eq!(keys(&ranked), vec![10_000, 63_984_001]);
}

#[test]
fn hazards_are_ranked_around_the_far_corner_too() {
    let game = game_at(17630, 9000);
    let monsters = vec![hazard(1, 9630, 9000), hazard(2, 9631, 9000), hazard(3, 17630, 8000)];
    let ranked = game.GetDistanceToMonsters((17630, 9000), &monsters);
    assert_eq!(ids(&ranked), vec![3, 2]);
}

#[test]
fn claimed_hazard_is_not_ranked() {
    let mut game = game_at(0, 0);
    game.monsterIsTaken = Some(3);
    let monsters = vec![hazard(1, 5000, 0), hazard(2, 7999, 0), hazard(3, 100, 0)];
    assert_eq!(ids(&game.GetDistanceToMonsters((0, 0), &monsters)), vec![1, 2]);
}

#[test]
fn enemies_are_ranked_within_the_watch_radius_of_the_own_base() {
    let game = game_at(0, 0);
    let hero = Entity { id: 0, category: Category::OwnAgent, x: 6000, y: 0, ..Entity::default() };
    let enemies = vec![enemy(1, 7000, 0), enemy(2, 6999, 0), enemy(3, 100, 0), enemy(4, 5500, 0)];
    let ranked = game.GetDistanceToEnemies(&hero, &enemies);
    assert_eq!(ids(&ranked), vec![4, 2, 3]);
    assert_eq!(keys(&ranked), vec![250_000, 998_001, 34_810_000]);
}

#[test]
fn claim_does_not_hide_an_enemy() {
    let mut game = game_at(0, 0);
    game.monsterIsTaken = Some(3);
    let hero = Entity { id: 0, category: Category::OwnAgent, ..Entity::default() };
    let enemies = vec![enemy(3, 100, 0)];
    assert_eq!(ids(&game.GetDistanceToEnemies(&hero, &enemies)), vec![3]);
}

#[test]
fn criteria_accept_what_is_near_unclaimed_and_heading_if_asked() {
    let near = hazard(1, 100, 0);
    let far = hazard(2, 8000, 0);
    let plain = watch(8000);
    assert!(plain.accepts(&near));
    assert!(!plain.accepts(&far));
    assert!(!Criteria { exclude: Some(1), ..plain }.accepts(&near));
    assert!(Criteria { exclude: Some(2), ..plain }.accepts(&near));
    assert!(!Criteria { heading_only: true, ..plain }.accepts(&near));
    let heading = Entity { near_base: 1, ..near };
    assert!(Criteria { heading_only: true, ..plain }.accepts(&heading));
    let other_flag = Entity { near_base: 2, ..near };
    assert!(!Criteria { heading_only: true, ..plain }.accepts(&other_flag));
}
