use roguelike::entity::{Color, Entity, EntityClass, MonsterAi, Stats};

fn fighter(name: &str, class: EntityClass, hp: i32, power: i32, defense: i32) -> Entity {
    let mut e = Entity::new(name, class, 0, 0, '@', Color { r: 255, g: 255, b: 255 }, true);
    e.alive = true;
    e.stats = Some(Stats { hp, max_hp: hp, power, defense });
    if class == EntityClass::Monster {
        e.ai = Some(MonsterAi::Basic);
    }
    e
}

#[test]
fn new_entity_starts_inert() {
    let e = Entity::new("Thing", EntityClass::Monster, 7, -3, 'o', Color { r: 1, g: 2, b: 3 }, false);
    assert_eq!(e.name, "Thing");
    assert_eq!(e.pos(), (7, -3));
    assert_eq!(e.c, 'o');
    assert!(!e.alive);
    assert!(!e.blocking);
    assert!(e.stats.is_none());
    assert!(e.ai.is_none());
}

#[test]
fn set_pos_moves_only_position() {
    let mut e = fighter("A", EntityClass::Player, 5, 1, 1);
    e.set_pos(12, 34);
    assert_eq!(e.pos(), (12, 34));
    assert!(e.alive);
    assert_eq!(e.stats.unwrap().hp, 5);
}

#[test]
fn distance_sq_is_exact() {
    let a = fighter("A", EntityClass::Player, 1, 1, 1);
    let mut b = fighter("B", EntityClass::Monster, 1, 1, 1);
    b.set_pos(3, 4);
    assert_eq!(a.distance_sq_to(&b), 25);
    assert_eq!(b.distance_sq_to(&a), 25);
    assert_eq!(a.distance_sq_to(&a), 0);
}

#[test]
fn attack_damage_is_power_minus_defense() {
    // power 5 against defense 2 and 10 hit points: exactly 3 damage.
    let mut attacker = fighter("A", EntityClass::Player, 30, 5, 2);
    let mut defender = fighter("D", EntityClass::Player, 10, 1, 2);
    attacker.attack(&mut defender);
    assert_eq!(defender.stats.unwrap().hp, 7);
    assert!(defender.alive);
    // The attacker is never altered.
    assert_eq!(attacker.stats.unwrap().hp, 30);
    assert!(attacker.alive);
}

#[test]
fn attack_is_deterministic() {
    // Equal stats on both sides of two fights: equal outcomes.
    let mut a1 = fighter("A1", EntityClass::Player, 30, 5, 2);
    let mut d1 = fighter("D1", EntityClass::Player, 10, 1, 2);
    let mut a2 = fighter("A2", EntityClass::Player, 30, 5, 2);
    let mut d2 = fighter("D2", EntityClass::Player, 10, 1, 2);
    a1.attack(&mut d1);
    a2.attack(&mut d2);
    assert_eq!(d1.stats.unwrap().hp, d2.stats.unwrap().hp);
    assert_eq!(d1.alive, d2.alive);
}

#[test]
fn non_positive_damage_has_no_effect() {
    let mut attacker = fighter("A", EntityClass::Player, 30, 2, 0);
    let mut defender = fighter("D", EntityClass::Player, 10, 1, 5);
    attacker.attack(&mut defender);
    assert_eq!(defender.stats.unwrap().hp, 10);
    assert!(defender.alive);
}

#[test]
fn lethal_attack_kills_this_call() {
    // Attacker power 5, defender defense 2 and hp 3: damage 3, hp reaches 0,
    // and the defender transitions to dead in the same call.
    let mut attacker = fighter("A", EntityClass::Player, 30, 5, 2);
    let mut defender = fighter("D", EntityClass::Player, 3, 1, 2);
    attacker.attack(&mut defender);
    assert_eq!(defender.stats.unwrap().hp, 0);
    assert!(!defender.alive);
    assert_eq!(defender.c, '%');
}

#[test]
fn monster_death_clears_capabilities() {
    let mut attacker = fighter("A", EntityClass::Player, 30, 5, 2);
    let mut defender = fighter("Orc", EntityClass::Monster, 3, 3, 2);
    attacker.attack(&mut defender);
    assert!(!defender.alive);
    assert!(!defender.blocking);
    assert!(defender.stats.is_none());
    assert!(defender.ai.is_none());
    assert_eq!(defender.name, "Orc's corpse");
    assert_eq!(defender.c, '%');
    assert_eq!(defender.color, Color { r: 191, g: 0, b: 0 });
}

#[test]
fn player_death_keeps_identity() {
    let mut monster = fighter("Orc", EntityClass::Monster, 10, 40, 0);
    let mut player = fighter("Player", EntityClass::Player, 5, 5, 2);
    monster.attack(&mut player);
    assert!(!player.alive);
    assert_eq!(player.name, "Player");
    assert!(player.stats.is_some());
    assert!(player.blocking);
    assert_eq!(player.c, '%');
}

#[test]
fn death_is_one_way() {
    let mut attacker = fighter("A", EntityClass::Player, 30, 5, 0);
    let mut monster = fighter("Orc", EntityClass::Monster, 3, 3, 0);
    attacker.attack(&mut monster);
    assert!(!monster.alive && monster.stats.is_none() && monster.ai.is_none());
    // No later call revives it or restores its capabilities.
    attacker.attack(&mut monster);
    assert!(!monster.alive && monster.stats.is_none() && monster.ai.is_none());
    monster.take_damage(100);
    assert!(!monster.alive && monster.stats.is_none() && monster.ai.is_none());
    monster.set_pos(9, 9);
    assert!(!monster.alive && monster.stats.is_none() && monster.ai.is_none());
    assert_eq!(monster.name, "Orc's corpse");
}

#[test]
fn take_damage_ignores_non_positive_amounts() {
    let mut e = fighter("E", EntityClass::Player, 10, 1, 1);
    e.take_damage(0);
    assert_eq!(e.stats.unwrap().hp, 10);
    e.take_damage(-5);
    assert_eq!(e.stats.unwrap().hp, 10);
    assert!(e.alive);
}

#[test]
fn take_damage_without_stats_is_a_no_op() {
    let mut e = Entity::new("Rock", EntityClass::Monster, 0, 0, '*', Color { r: 9, g: 9, b: 9 }, false);
    e.take_damage(50);
    assert!(e.stats.is_none());
    assert!(!e.alive);
    assert_eq!(e.name, "Rock");
}

#[test]
fn die_marks_the_corpse() {
    let mut e = fighter("Troll", EntityClass::Monster, 16, 4, 1);
    e.die();
    assert!(!e.alive);
    assert_eq!(e.name, "Troll's corpse");
    assert_eq!(e.c, '%');
    assert_eq!(e.color, Color { r: 191, g: 0, b: 0 });
}
