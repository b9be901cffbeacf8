use roguelike::entity::{Color, Entity, EntityClass, MonsterAi, Stats};
use roguelike::game::tile::Tile;
use roguelike::game::{Game, MAP_HEIGHT, MAP_WIDTH};
use roguelike::scheduler::{monster_phase, monster_turn, resolve_player_intent, run_turn};
use roguelike::scheduler::{PlayerAction, PlayerIntent};

/// A game whose whole grid is open floor, with the player at (10, 10).
fn arena_game() -> Game {
    let mut game = Game::new();
    game.map = vec![vec![Tile::empty(); MAP_HEIGHT as usize]; MAP_WIDTH as usize];
    game.get_player_mut().set_pos(10, 10);
    game
}

fn orc_at(x: i32, y: i32) -> Entity {
    let mut m = Entity::new("Orc", EntityClass::Monster, x, y, 'o', Color { r: 63, g: 127, b: 63 }, true);
    m.alive = true;
    m.stats = Some(Stats { hp: 10, max_hp: 10, power: 3, defense: 0 });
    m.ai = Some(MonsterAi::Basic);
    m
}

fn all_visible(game: &Game) -> Vec<bool> {
    vec![true; game.get_entities_count()]
}

#[test]
fn invisible_monster_is_inert() {
    let mut game = arena_game();
    game.entities.push(orc_at(11, 10));
    monster_turn(&mut game, 1, false);
    assert_eq!(game.get_entity(1).pos(), (11, 10));
    assert_eq!(game.get_player().stats.unwrap().hp, 30);
}

#[test]
fn distant_monster_approaches_the_player() {
    // Distance 5.0, visible: the new position is exactly one step closer,
    // rounded component-wise.
    let mut game = arena_game();
    game.entities.push(orc_at(13, 14));
    monster_turn(&mut game, 1, true);
    assert_eq!(game.get_entity(1).pos(), (12, 13));
    assert_eq!(game.get_player().stats.unwrap().hp, 30);
}

#[test]
fn adjacent_monster_attacks_a_living_player() {
    let mut game = arena_game();
    game.entities.push(orc_at(11, 10));
    monster_turn(&mut game, 1, true);
    // Orc power 3 against player defense 2: 1 damage, and no movement.
    assert_eq!(game.get_player().stats.unwrap().hp, 29);
    assert_eq!(game.get_entity(1).pos(), (11, 10));
}

#[test]
fn dead_player_is_never_attacked() {
    // Monster at distance 1.0, player hit points at 0: no action this turn.
    let mut game = arena_game();
    {
        let player = game.get_player_mut();
        player.stats = Some(Stats { hp: 0, max_hp: 30, power: 5, defense: 2 });
        player.alive = false;
    }
    game.entities.push(orc_at(11, 10));
    monster_turn(&mut game, 1, true);
    assert_eq!(game.get_player().stats.unwrap().hp, 0);
    assert_eq!(game.get_entity(1).pos(), (11, 10));
}

#[test]
fn diagonal_adjacency_is_within_engagement_range() {
    // Distance sqrt(2) < 2.0: attack, not movement.
    let mut game = arena_game();
    game.entities.push(orc_at(11, 11));
    monster_turn(&mut game, 1, true);
    assert_eq!(game.get_player().stats.unwrap().hp, 29);
    assert_eq!(game.get_entity(1).pos(), (11, 11));
}

#[test]
fn distance_exactly_two_still_approaches() {
    let mut game = arena_game();
    game.entities.push(orc_at(12, 10));
    monster_turn(&mut game, 1, true);
    assert_eq!(game.get_entity(1).pos(), (11, 10));
    assert_eq!(game.get_player().stats.unwrap().hp, 30);
}

#[test]
fn phase_resolves_monsters_in_ascending_order() {
    let mut game = arena_game();
    game.entities.push(orc_at(12, 10));
    game.entities.push(orc_at(11, 10));
    let visible = all_visible(&game);
    monster_phase(&mut game, &visible);
    // Entity 1 wanted to step to (11, 10), but entity 2 still occupied it
    // when entity 1 resolved — sequential resolution, no snapshots.
    assert_eq!(game.get_entity(1).pos(), (12, 10));
    // Entity 2, adjacent, attacked instead: 1 damage.
    assert_eq!(game.get_player().stats.unwrap().hp, 29);
}

#[test]
fn phase_skips_untagged_entities() {
    let mut game = arena_game();
    let mut corpse = orc_at(11, 10);
    corpse.ai = None;
    corpse.stats = None;
    corpse.alive = false;
    game.entities.push(corpse);
    let visible = all_visible(&game);
    monster_phase(&mut game, &visible);
    assert_eq!(game.get_player().stats.unwrap().hp, 30);
    assert_eq!(game.get_entity(1).pos(), (11, 10));
}

#[test]
fn exit_intent_ends_the_session() {
    let mut game = arena_game();
    let action = resolve_player_intent(&mut game, PlayerIntent::ExitRequest);
    assert_eq!(action, PlayerAction::Exit);
    assert_eq!(game.get_player().pos(), (10, 10));
}

#[test]
fn noop_and_toggle_only_continue() {
    let mut game = arena_game();
    assert_eq!(resolve_player_intent(&mut game, PlayerIntent::Noop), PlayerAction::TurnContinue);
    assert_eq!(
        resolve_player_intent(&mut game, PlayerIntent::ToggleDisplayMode),
        PlayerAction::TurnContinue
    );
    assert_eq!(game.get_player().pos(), (10, 10));
}

#[test]
fn movement_intent_passes_the_turn() {
    let mut game = arena_game();
    let action = resolve_player_intent(&mut game, PlayerIntent::Right);
    assert_eq!(action, PlayerAction::TurnPass);
    assert_eq!(game.get_player().pos(), (11, 10));
    let action = resolve_player_intent(&mut game, PlayerIntent::Up);
    assert_eq!(action, PlayerAction::TurnPass);
    assert_eq!(game.get_player().pos(), (11, 9));
}

#[test]
fn movement_while_dead_only_continues() {
    let mut game = arena_game();
    game.get_player_mut().alive = false;
    let action = resolve_player_intent(&mut game, PlayerIntent::Left);
    assert_eq!(action, PlayerAction::TurnContinue);
    assert_eq!(game.get_player().pos(), (10, 10));
}

#[test]
fn run_turn_moves_player_then_monsters() {
    let mut game = arena_game();
    game.entities.push(orc_at(20, 10));
    let visible = all_visible(&game);
    let action = run_turn(&mut game, PlayerIntent::Down, &visible);
    assert_eq!(action, PlayerAction::TurnPass);
    assert_eq!(game.get_player().pos(), (10, 11));
    // The monster stepped toward where the player now stands.
    assert_eq!(game.get_entity(1).pos(), (19, 10));
}

#[test]
fn run_turn_without_pass_leaves_monsters_alone() {
    let mut game = arena_game();
    game.entities.push(orc_at(20, 10));
    let visible = all_visible(&game);
    let action = run_turn(&mut game, PlayerIntent::Noop, &visible);
    assert_eq!(action, PlayerAction::TurnContinue);
    assert_eq!(game.get_entity(1).pos(), (20, 10));
}
