use vstd::prelude::*;

use crate::entity::{attack_outcome, death_monotone, lemma_death_monotone_trans, Entity};
use crate::game::{axis_step, Game};

verus! {

/// What a resolved player intent means for the turn loop: `Exit` ends the
/// session, `TurnContinue` re-renders without advancing the monsters, and
/// `TurnPass` hands the turn to every AI-tagged entity in ascending order.
#[derive(Clone, Copy, Debug, PartialEq, Eq, Structural)]
pub enum PlayerAction {
    TurnPass,
    TurnContinue,
    Exit,
}

/// One discrete player intent per tick, as the input layer produces it.
#[derive(Clone, Copy, Debug, PartialEq, Eq, Structural)]
pub enum PlayerIntent {
    Up,
    Down,
    Left,
    Right,
    ExitRequest,
    ToggleDisplayMode,
    Noop,
}

/// The unit step a movement intent asks for; `None` for the others.
pub open spec fn intent_delta(intent: PlayerIntent) -> Option<(int, int)> {
    match intent {
        PlayerIntent::Up => Some((0int, -1int)),
        PlayerIntent::Down => Some((0int, 1int)),
        PlayerIntent::Left => Some((-1int, 0int)),
        PlayerIntent::Right => Some((1int, 0int)),
        _ => None,
    }
}

/// Machine-limit bound for any attack an AI-tagged entity could land on
/// the player. Entities without an AI tag never attack, so they need none.
pub open spec fn monster_attack_bounds(g: Game) -> bool {
    forall|i: int|
        1 <= i < g.entities@.len() && (#[trigger] g.entities@[i]).ai is Some ==> i32::MIN
            <= g.entities@[i].attack_damage_spec(g.entities@[0]) <= i32::MAX
}

/// What one monster's turn does. A monster outside the field of view is
/// inert. A visible one at squared distance of at least 4 (two or more
/// tiles) steps straight toward the player; within that range it attacks —
/// but never a player whose hit points are already gone.
pub open spec fn monster_turn_rel(pre: Game, post: Game, id: int, visible: bool) -> bool {
    let m = pre.entities@[id];
    let p = pre.entities@[0];
    if !visible {
        post == pre
    } else if m.distance_sq_spec(p) >= 4 {
        Game::move_by_rel(
            pre,
            post,
            id,
            axis_step(p.x - m.x, p.y - m.y),
            axis_step(p.y - m.y, p.x - m.x),
        )
    } else if p.stats matches Some(s) && s.hp > 0 {
        &&& post.map == pre.map
        &&& post.entities@.len() == pre.entities@.len()
        &&& forall|j: int| 1 <= j < pre.entities@.len() ==> post.entities@[j] == pre.entities@[j]
        &&& attack_outcome(m, p, post.entities@[0])
    } else {
        post == pre
    }
}

/// The whole monster phase as a relation: starting from `pre` at index
/// `id`, every AI-tagged entity from `id` upward resolves once, in
/// ascending order, each one acting from the state the previous one left —
/// fully sequential, no snapshot-then-apply batching.
pub open spec fn phase_rel(pre: Game, post: Game, id: int, visible: Seq<bool>) -> bool
    decreases visible.len() - id,
{
    if id < 0 || id >= visible.len() {
        post == pre
    } else if pre.entities@[id].ai is Some {
        exists|mid: Game|
            monster_turn_rel(pre, mid, id, visible[id]) && phase_rel(mid, post, id + 1, visible)
    } else {
        phase_rel(pre, post, id + 1, visible)
    }
}

/// Resolve one AI-tagged entity's behaviour for this turn, `visible` being
/// the visibility oracle's answer for the monster's current cell.
pub fn monster_turn(game: &mut Game, id: usize, visible: bool)
    requires
        old(game).wf(),
        old(game).map_wf(),
        1 <= id < old(game).entities@.len(),
        i32::MIN <= old(game).entities@[id as int].attack_damage_spec(old(game).entities@[0])
            <= i32::MAX,
    ensures
        monster_turn_rel(*old(game), *final(game), id as int, visible),
        final(game).wf(),
        final(game).map_wf(),
        final(game).map == old(game).map,
        final(game).entities@.len() == old(game).entities@.len(),
        forall|j: int|
            0 <= j < old(game).entities@.len() ==> death_monotone(
                #[trigger] old(game).entities@[j],
                final(game).entities@[j],
            ),
{
    if !visible {
        return ;
    }
    let px: i32 = game.entities[0].x;
    let py: i32 = game.entities[0].y;
    let d2: i128 = game.entities[id].distance_sq_to(&game.entities[0]);
    if d2 >= 4 {
        game.move_towards(id, px, py);
    } else {
        let player_has_hp: bool = match game.entities[0].stats {
            Some(s) => s.hp > 0,
            None => false,
        };
        if player_has_hp {
            let mut player = game.entities.remove(0);
            let mut monster = game.entities.remove(id - 1);
            monster.attack(&mut player);
            game.entities.insert(id - 1, monster);
            game.entities.insert(0, player);
            proof {
                assert(game.entities@ =~= old(game).entities@.update(0, game.entities@[0]));
            }
        }
    }
}

/// Advance the monster phase of one turn: every AI-tagged entity resolves
/// once, in ascending registry order, each seeing the effects of the ones
/// before it. `visible` holds the visibility oracle's answer for each
/// entity's cell, queried at the positions they held when the phase began —
/// which are the positions they still hold when their own turn comes.
pub fn monster_phase(game: &mut Game, visible: &Vec<bool>)
    requires
        old(game).wf(),
        old(game).map_wf(),
        visible@.len() == old(game).entities@.len(),
        monster_attack_bounds(*old(game)),
    ensures
        phase_rel(*old(game), *final(game), 0, visible@),
        final(game).wf(),
        final(game).map_wf(),
        final(game).map == old(game).map,
        final(game).entities@.len() == old(game).entities@.len(),
        final(game).entities@[0].x == old(game).entities@[0].x,
        final(game).entities@[0].y == old(game).entities@[0].y,
        forall|j: int|
            0 <= j < old(game).entities@.len() ==> death_monotone(
                #[trigger] old(game).entities@[j],
                final(game).entities@[j],
            ),
{
    let n: usize = game.get_entities_count();
    let mut id: usize = 0;
    while id < n
        invariant
            id <= n,
            game.wf(),
            game.map_wf(),
            game.map == old(game).map,
            n == game.entities@.len(),
            game.entities@.len() == old(game).entities@.len(),
            visible@.len() == old(game).entities@.len(),
            game.entities@[0].x == old(game).entities@[0].x,
            game.entities@[0].y == old(game).entities@[0].y,
            monster_attack_bounds(*game),
            forall|post: Game| #[trigger]
                phase_rel(*game, post, id as int, visible@) ==> phase_rel(
                    *old(game),
                    post,
                    0,
                    visible@,
                ),
            forall|j: int|
                0 <= j < old(game).entities@.len() ==> death_monotone(
                    #[trigger] old(game).entities@[j],
                    game.entities@[j],
                ),
        decreases n - id,
    {
        let has_ai: bool = game.entities[id].ai.is_some();
        let ghost gpre = *game;
        if has_ai {
            proof {
                assert(id != 0);
            }
            monster_turn(game, id, visible[id]);
            proof {
                lemma_turn_keeps_bounds(gpre, *game, id as int, visible@[id as int]);
                assert forall|post: Game| #[trigger]
                    phase_rel(*game, post, id + 1, visible@) implies phase_rel(
                    *old(game),
                    post,
                    0,
                    visible@,
                ) by {
                    assert(monster_turn_rel(gpre, *game, id as int, visible@[id as int]));
                    assert(phase_rel(gpre, post, id as int, visible@));
                }
                assert forall|j: int|
                    0 <= j < old(game).entities@.len() implies death_monotone(
                    #[trigger] old(game).entities@[j],
                    game.entities@[j],
                ) by {
                    lemma_death_monotone_trans(
                        old(game).entities@[j],
                        gpre.entities@[j],
                        game.entities@[j],
                    );
                }
            }
        } else {
            proof {
                assert forall|post: Game| #[trigger]
                    phase_rel(*game, post, id + 1, visible@) implies phase_rel(
                    *old(game),
                    post,
                    0,
                    visible@,
                ) by {
                    assert(phase_rel(gpre, post, id as int, visible@));
                }
            }
        }
        id = id + 1;
    }
    proof {
        assert(phase_rel(*game, *game, id as int, visible@));
    }
}

/// Resolve one tick's player intent. `ExitRequest` ends the session; a
/// movement intent while the player is alive is handed to `move_player`
/// and passes the turn to the monsters; anything else — including movement
/// attempted while dead — re-renders without advancing the turn.
pub fn resolve_player_intent(game: &mut Game, intent: PlayerIntent) -> (action: PlayerAction)
    requires
        old(game).wf(),
        old(game).map_wf(),
        old(game).player_attack_bounds(),
    ensures
        final(game).wf(),
        final(game).map_wf(),
        final(game).map == old(game).map,
        final(game).entities@.len() == old(game).entities@.len(),
        intent_delta(intent) is None ==> *final(game) == *old(game),
        intent == PlayerIntent::ExitRequest <==> action == PlayerAction::Exit,
        action == PlayerAction::TurnPass ==> intent_delta(intent) is Some && old(
            game,
        ).entities@[0].alive,
        intent_delta(intent) matches Some(d) ==> (if old(game).entities@[0].alive {
            action == PlayerAction::TurnPass && Game::move_player_rel(
                *old(game),
                *final(game),
                d.0,
                d.1,
            )
        } else {
            action == PlayerAction::TurnContinue && *final(game) == *old(game)
        }),
        final(game).entities@[0] == (Entity {
            x: final(game).entities@[0].x,
            y: final(game).entities@[0].y,
            ..old(game).entities@[0]
        }),
        forall|j: int|
            1 <= j < old(game).entities@.len() ==> final(game).entities@[j] == old(
                game,
            ).entities@[j] || attack_outcome(
                old(game).entities@[0],
                old(game).entities@[j],
                final(game).entities@[j],
            ),
        forall|j: int|
            0 <= j < old(game).entities@.len() ==> death_monotone(
                #[trigger] old(game).entities@[j],
                final(game).entities@[j],
            ),
{
    match intent {
        PlayerIntent::ExitRequest => PlayerAction::Exit,
        PlayerIntent::Up => {
            if game.get_player().alive {
                game.move_player(0, -1);
                PlayerAction::TurnPass
            } else {
                PlayerAction::TurnContinue
            }
        },
        PlayerIntent::Down => {
            if game.get_player().alive {
                game.move_player(0, 1);
                PlayerAction::TurnPass
            } else {
                PlayerAction::TurnContinue
            }
        },
        PlayerIntent::Left => {
            if game.get_player().alive {
                game.move_player(-1, 0);
                PlayerAction::TurnPass
            } else {
                PlayerAction::TurnContinue
            }
        },
        PlayerIntent::Right => {
            if game.get_player().alive {
                game.move_player(1, 0);
                PlayerAction::TurnPass
            } else {
                PlayerAction::TurnContinue
            }
        },
        PlayerIntent::ToggleDisplayMode => PlayerAction::TurnContinue,
        PlayerIntent::Noop => PlayerAction::TurnContinue,
    }
}

/// One full turn: resolve the player's intent, and when it passed the turn
/// while the player is alive, run the monster phase. `visible` holds the
/// visibility oracle's answer for each entity's cell.
pub fn run_turn(game: &mut Game, intent: PlayerIntent, visible: &Vec<bool>) -> (action:
    PlayerAction)
    requires
        old(game).wf(),
        old(game).map_wf(),
        visible@.len() == old(game).entities@.len(),
        old(game).player_attack_bounds(),
        monster_attack_bounds(*old(game)),
    ensures
        final(game).wf(),
        final(game).map_wf(),
        final(game).map == old(game).map,
        final(game).entities@.len() == old(game).entities@.len(),
        intent == PlayerIntent::ExitRequest <==> action == PlayerAction::Exit,
        intent_delta(intent) is None ==> *final(game) == *old(game),
        intent_delta(intent) is Some && !old(game).entities@[0].alive ==> *final(game) == *old(
            game,
        ) && action == PlayerAction::TurnContinue,
        intent_delta(intent) matches Some(d) ==> (old(game).entities@[0].alive ==> action
            == PlayerAction::TurnPass && (exists|mid: Game|
            Game::move_player_rel(*old(game), mid, d.0, d.1) && phase_rel(
                mid,
                *final(game),
                0,
                visible@,
            ))),
        forall|j: int|
            0 <= j < old(game).entities@.len() ==> death_monotone(
                #[trigger] old(game).entities@[j],
                final(game).entities@[j],
            ),
{
    let action = resolve_player_intent(game, intent);
    let ghost gmid = *game;
    let player_alive: bool = game.get_player().alive;
    if player_alive && action == PlayerAction::TurnPass {
        proof {
            lemma_resolve_keeps_bounds(*old(game), gmid);
        }
        monster_phase(game, visible);
        proof {
            assert forall|j: int|
                0 <= j < old(game).entities@.len() implies death_monotone(
                #[trigger] old(game).entities@[j],
                game.entities@[j],
            ) by {
                lemma_death_monotone_trans(
                    old(game).entities@[j],
                    gmid.entities@[j],
                    game.entities@[j],
                );
            }
        }
    }
    action
}

/// Resolving the player's intent never breaks the monsters' attack bounds:
/// the player keeps its stats (only its position changes), and a monster
/// that still carries an AI tag afterwards was at most wounded, keeping
/// its power.
proof fn lemma_resolve_keeps_bounds(pre: Game, post: Game)
    requires
        pre.entities@.len() == post.entities@.len(),
        pre.entities@.len() >= 1,
        post.entities@[0] == (Entity {
            x: post.entities@[0].x,
            y: post.entities@[0].y,
            ..pre.entities@[0]
        }),
        forall|j: int|
            1 <= j < pre.entities@.len() ==> post.entities@[j] == pre.entities@[j]
                || attack_outcome(pre.entities@[0], pre.entities@[j], post.entities@[j]),
        monster_attack_bounds(pre),
    ensures
        monster_attack_bounds(post),
{
    let p = pre.entities@[0];
    let q = post.entities@[0];
    assert forall|i: int|
        1 <= i < post.entities@.len() && (#[trigger] post.entities@[i]).ai is Some implies i32::MIN
        <= post.entities@[i].attack_damage_spec(q) <= i32::MAX by {
        assert(q.defense_spec() == p.defense_spec());
        assert(post.entities@[i].power_spec() == pre.entities@[i].power_spec()
            && post.entities@[i].ai == pre.entities@[i].ai);
    }
}

/// One monster's turn never breaks the attack bounds of the others: the
/// attacking monster itself is unaltered, other monsters at most move, and
/// the player either keeps its stats (losing only hit points) or — when a
/// monster-class entity occupied slot 0 and fell — loses them entirely,
/// leaving every attacker's damage equal to its bare power.
proof fn lemma_turn_keeps_bounds(pre: Game, post: Game, id: int, visible: bool)
    requires
        pre.wf(),
        1 <= id < pre.entities@.len(),
        monster_turn_rel(pre, post, id, visible),
        monster_attack_bounds(pre),
        post.entities@.len() == pre.entities@.len(),
    ensures
        monster_attack_bounds(post),
{
    let p = pre.entities@[0];
    let q = post.entities@[0];
    assert forall|i: int|
        1 <= i < post.entities@.len() && (#[trigger] post.entities@[i]).ai is Some implies i32::MIN
        <= post.entities@[i].attack_damage_spec(q) <= i32::MAX by {
        assert(post.entities@[i].power_spec() == pre.entities@[i].power_spec());
        assert(q.defense_spec() == p.defense_spec() || q.defense_spec() == 0);
    }
}

} // verus!
