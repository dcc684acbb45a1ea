use fall_challenge::{Category, Entity, InitParams};

#[test]
fn category_codes_are_read() {
    assert_eq!(Category::from_code(0), Some(Category::Hazard));
    assert_eq!(Category::from_code(1), Some(Category::OwnAgent));
    assert_eq!(Category::from_code(2), Some(Category::EnemyAgent));
}

#[test]
fn other_category_codes_are_refused() {
    assert_eq!(Category::from_code(3), None);
    assert_eq!(Category::from_code(-1), None);
    assert_eq!(Category::from_code(i32::MAX), None);
    assert_eq!(Category::from_code(i32::MIN), None);
}

#[test]
fn default_entity_is_a_hazard_at_rest_at_the_origin() {
    let e = Entity::default();
    assert_eq!(e.category, Category::Hazard);
    assert_eq!((e.id, e.x, e.y, e.shield_life, e.is_controlled), (0, 0, 0, 0, 0));
    assert_eq!((e.health, e.vx, e.vy, e.near_base, e.threat_for), (0, 0, 0, 0, 0));
}

#[test]
fn position_is_x_then_y() {
    let e = Entity { x: 12, y: -7, ..Entity::default() };
    assert_eq!(e.position(), (12, -7));
}

#[test]
fn default_init_params_are_zero() {
    let p = InitParams::default();
    assert_eq!((p.base_x, p.base_y, p.ebase_x, p.ebase_y, p.heroes_per_player), (0, 0, 0, 0, 0));
}

#[test]
fn entity_is_read_from_its_record() {
    let fields = vec![42, 2, 100, -200, 3, 1, 17, -5, 6, 1, 2];
    let e = Entity::from_record(&fields).unwrap();
    assert_eq!(
        e,
        Entity {
            id: 42,
            category: Category::EnemyAgent,
            x: 100,
            y: -200,
            shield_life: 3,
            is_controlled: 1,
            health: 17,
            vx: -5,
            vy: 6,
            near_base: 1,
            threat_for: 2,
        }
    );
}

#[test]
fn what_follows_the_record_is_ignored() {
    let fields = vec![1, 0, 2, 3, 4, 5, 6, 7, 8, 9, 10, 11, 12];
    let e = Entity::from_record(&fields).unwrap();
    assert_eq!((e.id, e.category, e.threat_for), (1, Category::Hazard, 10));
}

#[test]
fn short_record_is_refused() {
    assert_eq!(Entity::from_record(&vec![1, 0, 2, 3, 4, 5, 6, 7, 8, 9]), None);
    assert_eq!(Entity::from_record(&Vec::new()), None);
}

#[test]
fn record_with_an_unknown_category_is_refused() {
    assert_eq!(Entity::from_record(&vec![1, 3, 2, 3, 4, 5, 6, 7, 8, 9, 10]), None);
    assert_eq!(Entity::from_record(&vec![1, -1, 2, 3, 4, 5, 6, 7, 8, 9, 10]), None);
}

#[test]
fn enemy_base_mirrors_the_own_base() {
    let p = InitParams::for_corner(0, 0, 3);
    assert_eq!((p.base_x, p.base_y, p.ebase_x, p.ebase_y, p.heroes_per_player), (0, 0, 17630, 9000, 3));
    let p = InitParams::for_corner(17630, 9000, 3);
    assert_eq!((p.ebase_x, p.ebase_y), (0, 0));
    let p = InitParams::for_corner(-1, i32::MAX, 1);
    assert_eq!((p.ebase_x, p.ebase_y), (17631, 9000 - i32::MAX));
}
