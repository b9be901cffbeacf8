pub mod rect;
pub mod tile;

use vstd::prelude::*;

use crate::entity::{
    attack_outcome, attack_req, death_monotone, Color, Entity, EntityClass, MonsterAi, Stats,
};
use rect::Rect;
use tile::Tile;

verus! {

pub const MAP_HEIGHT: i32 = 45;

pub const MAP_WIDTH: i32 = 80;

pub const ROOM_MIN_SIZE: i32 = 6;

pub const ROOM_MAX_SIZE: i32 = 10;

pub const MAX_ROOMS: i32 = 30;

pub const ROOM_MAX_MONSTERS: i32 = 3;

pub type Grid = Vec<Vec<Tile>>;

/// The entity registry and the spatial substrate it owns: the tile grid and
/// the ordered entity collection, slot 0 being reserved for the player.
pub struct Game {
    pub map: Grid,
    pub entities: Vec<Entity>,
}

/// The fixed stats the player starts with.
pub open spec fn player_stats() -> Stats {
    Stats { hp: 30, max_hp: 30, power: 5, defense: 2 }
}

/// The fixed stats an orc spawns with.
pub open spec fn orc_stats() -> Stats {
    Stats { hp: 10, max_hp: 10, power: 3, defense: 0 }
}

/// The fixed stats a troll spawns with.
pub open spec fn troll_stats() -> Stats {
    Stats { hp: 16, max_hp: 16, power: 4, defense: 1 }
}

/// The two monster kinds the generator knows: an orc (about four in five
/// spawns) or a troll.
pub open spec fn monster_flavor(e: Entity) -> bool {
    ||| (e.name@ == "Orc"@ && e.c == 'o' && e.color == (Color { r: 63, g: 127, b: 63 }) && e.stats
        == Some(orc_stats()))
    ||| (e.name@ == "Troll"@ && e.c == 'T' && e.color == (Color { r: 0, g: 127, b: 0 }) && e.stats
        == Some(troll_stats()))
}

/// A monster exactly as `spawn_entities` creates it — an orc or a troll,
/// alive, blocking, AI-tagged, strictly inside `room`.
pub open spec fn spawned_monster_in(e: Entity, room: Rect) -> bool {
    &&& room.x1 < e.x < room.x2
    &&& room.y1 < e.y < room.y2
    &&& e.class == EntityClass::Monster
    &&& e.blocking
    &&& e.alive
    &&& e.ai == Some(MonsterAi::Basic)
    &&& monster_flavor(e)
}

/// A monster as dungeon generation leaves it: an orc or a troll, alive and
/// AI-tagged, somewhere on the grid.
pub open spec fn generated_monster(e: Entity) -> bool {
    &&& 0 <= e.x < MAP_WIDTH
    &&& 0 <= e.y < MAP_HEIGHT
    &&& e.class == EntityClass::Monster
    &&& e.blocking
    &&& e.alive
    &&& e.ai == Some(MonsterAi::Basic)
    &&& monster_flavor(e)
}

/// A cell strictly inside room `r` — exactly what carving the room empties.
pub open spec fn in_room_interior(r: Rect, x: int, y: int) -> bool {
    r.x1 < x < r.x2 && r.y1 < y < r.y2
}

/// A cell one of the two L-shaped corridors between centroids `c1` and `c2`
/// could carve: on a horizontal sweep between their columns at either
/// centroid's row, or on a vertical sweep between their rows at either
/// centroid's column.
pub open spec fn on_corridor_between(c1: (int, int), c2: (int, int), x: int, y: int) -> bool {
    ||| (vstd::math::min(c1.0, c2.0) <= x <= vstd::math::max(c1.0, c2.0) && (y == c1.1 || y
        == c2.1))
    ||| (vstd::math::min(c1.1, c2.1) <= y <= vstd::math::max(c1.1, c2.1) && (x == c1.0 || x
        == c2.0))
}

/// A cell dungeon generation may have carved: strictly inside an accepted
/// room, or on a corridor sweep between consecutive accepted centroids.
/// Every other cell stays a wall.
pub open spec fn carved_cell(rooms: Seq<Rect>, x: int, y: int) -> bool {
    ||| exists|i: int| 0 <= i < rooms.len() && in_room_interior(#[trigger] rooms[i], x, y)
    ||| exists|i: int|
        1 <= i < rooms.len() && on_corridor_between(
            rooms[i - 1].center_spec(),
            (#[trigger] rooms[i]).center_spec(),
            x,
            y,
        )
}

/// One axis of the straight-line approach step: the direction vector
/// component `d`, normalised by the vector's Euclidean length and rounded
/// to the nearest of -1, 0, 1, half away from zero. Over the integers,
/// |d| / sqrt(d*d + other*other) rounds away from 0 exactly when
/// 3*d*d >= other*other.
pub open spec fn axis_step(d: int, other: int) -> int {
    if 3 * (d * d) >= other * other {
        if d > 0 {
            1
        } else if d < 0 {
            -1
        } else {
            0
        }
    } else {
        0
    }
}

/// Blocking queries are idempotent: `is_tile_blocked` returns exactly
/// `blocked_spec` of the game state, so two calls on the same cell with no
/// mutation in between return the same result.
pub proof fn lemma_is_blocked_idempotent(g: Game, x: int, y: int, r1: bool, r2: bool)
    requires
        r1 == g.blocked_spec(x, y),
        r2 == g.blocked_spec(x, y),
    ensures
        r1 == r2,
{
}

impl Game {
    /// The map is a full grid: MAP_WIDTH columns of MAP_HEIGHT tiles each.
    pub open spec fn map_wf(self) -> bool {
        &&& self.map@.len() == MAP_WIDTH
        &&& forall|i: int| 0 <= i < self.map@.len() ==> (#[trigger] self.map@[i])@.len()
            == MAP_HEIGHT
    }

    /// Registry well-formedness: the player sits in slot 0, which is never
    /// swapped or removed, and carries no AI tag.
    pub open spec fn wf(self) -> bool {
        &&& self.entities@.len() >= 1
        &&& self.entities@[0].ai is None
    }

    pub open spec fn tile_at(self, x: int, y: int) -> Tile {
        self.map@[x]@[y]
    }

    /// No two blocking entities stand on one cell.
    pub open spec fn blockers_separated(self) -> bool {
        forall|i: int, j: int|
            #![trigger self.entities@[i], self.entities@[j]]
            0 <= i < j < self.entities@.len() && self.entities@[i].blocking
                && self.entities@[j].blocking ==> !(self.entities@[i].x == self.entities@[j].x
                && self.entities@[i].y == self.entities@[j].y)
    }

    /// Every blocking entity stands on a walkable tile inside the grid.
    pub open spec fn blockers_on_passable(self) -> bool {
        forall|i: int|
            0 <= i < self.entities@.len() && (#[trigger] self.entities@[i]).blocking ==> 0
                <= self.entities@[i].x < MAP_WIDTH && 0 <= self.entities@[i].y < MAP_HEIGHT
                && self.tile_at(self.entities@[i].x as int, self.entities@[i].y as int).passable
    }

    /// Some blocking entity stands exactly on the cell.
    pub open spec fn entity_blocks(self, x: int, y: int) -> bool {
        exists|i: int|
            0 <= i < self.entities@.len() && (#[trigger] self.entities@[i]).blocking
                && self.entities@[i].x == x && self.entities@[i].y == y
    }

    /// A cell is blocked when its tile is impassable or a blocking entity
    /// occupies it.
    pub open spec fn blocked_spec(self, x: int, y: int) -> bool {
        !self.tile_at(x, y).passable || self.entity_blocks(x, y)
    }

    /// True when the cell is impassable or a blocking entity occupies it.
    /// The result is a function of the game state alone, so two calls with
    /// no mutation in between return the same answer.
    pub fn is_tile_blocked(&self, x: i32, y: i32) -> (r: bool)
        requires
            self.map_wf(),
            0 <= x < MAP_WIDTH,
            0 <= y < MAP_HEIGHT,
        ensures
            r == self.blocked_spec(x as int, y as int),
    {
        if !self.map[x as usize][y as usize].passable {
            return true;
        }
        let mut i: usize = 0;
        while i < self.entities.len()
            invariant
                i <= self.entities@.len(),
                forall|j: int|
                    0 <= j < i ==> !((#[trigger] self.entities@[j]).blocking
                        && self.entities@[j].x == x && self.entities@[j].y == y),
            decreases self.entities@.len() - i,
        {
            let e = &self.entities[i];
            if e.blocking && e.x == x && e.y == y {
                return true;
            }
            i = i + 1;
        }
        false
    }

    /// Carve the interior of `rect`: every cell strictly inside both edges
    /// becomes empty; every other cell of the map is untouched.
    pub fn create_room(&mut self, rect: Rect)
        requires
            old(self).map_wf(),
            rect.wf(),
            rect.x2 <= MAP_WIDTH,
            rect.y2 <= MAP_HEIGHT,
        ensures
            final(self).map_wf(),
            final(self).entities == old(self).entities,
            forall|x: int, y: int|
                rect.x1 < x < rect.x2 && rect.y1 < y < rect.y2
                    ==> #[trigger] final(self).tile_at(x, y) == Tile::empty_spec(),
            forall|x: int, y: int|
                0 <= x < MAP_WIDTH && 0 <= y < MAP_HEIGHT && !(rect.x1 < x < rect.x2 && rect.y1 < y
                    < rect.y2) ==> #[trigger] final(self).tile_at(x, y) == old(self).tile_at(x, y),
    {
        let mut x: usize = rect.x1 + 1;
        while x < rect.x2
            invariant
                old(self).map_wf(),
                self.map_wf(),
                rect.wf(),
                rect.x1 < x <= rect.x2 <= MAP_WIDTH,
                rect.y2 <= MAP_HEIGHT,
                self.entities == old(self).entities,
                forall|a: int, b: int|
                    rect.x1 < a < x && rect.y1 < b < rect.y2 ==> #[trigger] self.tile_at(a, b)
                        == Tile::empty_spec(),
                forall|a: int, b: int|
                    0 <= a < MAP_WIDTH && 0 <= b < MAP_HEIGHT && !(rect.x1 < a < x && rect.y1 < b
                        < rect.y2) ==> #[trigger] self.tile_at(a, b) == old(self).tile_at(a, b),
            decreases rect.x2 - x,
        {
            let mut y: usize = rect.y1 + 1;
            while y < rect.y2
                invariant
                    old(self).map_wf(),
                    self.map_wf(),
                    rect.wf(),
                    rect.x1 < x < rect.x2 <= MAP_WIDTH,
                    rect.y1 < y <= rect.y2 <= MAP_HEIGHT,
                    self.entities == old(self).entities,
                    forall|a: int, b: int|
                        rect.x1 < a < x && rect.y1 < b < rect.y2 ==> #[trigger] self.tile_at(a, b)
                            == Tile::empty_spec(),
                    forall|b: int|
                        rect.y1 < b < y ==> #[trigger] self.tile_at(x as int, b)
                            == Tile::empty_spec(),
                    forall|a: int, b: int|
                        0 <= a < MAP_WIDTH && 0 <= b < MAP_HEIGHT && !(rect.x1 < a < x && rect.y1
                            < b < rect.y2) && !(a == x && rect.y1 < b < y)
                            ==> #[trigger] self.tile_at(a, b) == old(self).tile_at(a, b),
                decreases rect.y2 - y,
            {
                let ghost s0 = *self;
                self.map[x][y] = Tile::empty();
                proof {
                    assert forall|a: int, b: int|
                        0 <= a < MAP_WIDTH && 0 <= b < MAP_HEIGHT && !(a == x && b == y) implies #[trigger] self.tile_at(
                        a,
                        b,
                    ) == s0.tile_at(a, b) by {
                        assert(self.map@ == s0.map@.update(x as int, self.map@[x as int]));
                    }
                    assert(self.tile_at(x as int, y as int) == Tile::empty_spec());
                }
                y = y + 1;
            }
            x = x + 1;
        }
    }

    /// Every cell of the horizontal sweep between columns `xa` and `xb`
    /// (inclusive, in either order) at row `y` is walkable.
    pub open spec fn h_seg_passable(self, xa: int, xb: int, y: int) -> bool {
        forall|a: int|
            vstd::math::min(xa, xb) <= a <= vstd::math::max(xa, xb) ==> (#[trigger] self.tile_at(
                a,
                y,
            )).passable
    }

    /// Every cell of the vertical sweep between rows `ya` and `yb`
    /// (inclusive, in either order) at column `x` is walkable.
    pub open spec fn v_seg_passable(self, ya: int, yb: int, x: int) -> bool {
        forall|b: int|
            vstd::math::min(ya, yb) <= b <= vstd::math::max(ya, yb) ==> (#[trigger] self.tile_at(
                x,
                b,
            )).passable
    }

    /// An L-shaped corridor between the two centroids is fully carved, in
    /// one of the two bend directions; both shapes connect the endpoints.
    pub open spec fn corridor_passable(self, from_c: (int, int), to_c: (int, int)) -> bool {
        ||| self.h_seg_passable(from_c.0, to_c.0, from_c.1) && self.v_seg_passable(
            from_c.1,
            to_c.1,
            to_c.0,
        )
        ||| self.v_seg_passable(from_c.1, to_c.1, from_c.0) && self.h_seg_passable(
            from_c.0,
            to_c.0,
            to_c.1,
        )
    }

    /// Carve a horizontal corridor at row `y`: every cell from min(x1, x2)
    /// to max(x1, x2) inclusive becomes empty; nothing else changes.
    pub fn create_horizontal_tunnel(&mut self, x1: usize, x2: usize, y: usize)
        requires
            old(self).map_wf(),
            x1 < MAP_WIDTH,
            x2 < MAP_WIDTH,
            y < MAP_HEIGHT,
        ensures
            final(self).map_wf(),
            final(self).entities == old(self).entities,
            forall|a: int|
                vstd::math::min(x1 as int, x2 as int) <= a <= vstd::math::max(x1 as int, x2 as int)
                    ==> #[trigger] final(self).tile_at(a, y as int) == Tile::empty_spec(),
            forall|a: int, b: int|
                0 <= a < MAP_WIDTH && 0 <= b < MAP_HEIGHT && !(vstd::math::min(x1 as int, x2 as int)
                    <= a <= vstd::math::max(x1 as int, x2 as int) && b == y)
                    ==> #[trigger] final(self).tile_at(a, b) == old(self).tile_at(a, b),
    {
        let start: usize = if x1 < x2 {
            x1
        } else {
            x2
        };
        let end: usize = if x1 < x2 {
            x2
        } else {
            x1
        };
        let mut x: usize = start;
        while x <= end
            invariant
                old(self).map_wf(),
                self.map_wf(),
                start == vstd::math::min(x1 as int, x2 as int),
                end == vstd::math::max(x1 as int, x2 as int),
                start <= x <= end + 1,
                end < MAP_WIDTH,
                y < MAP_HEIGHT,
                self.entities == old(self).entities,
                forall|a: int|
                    start <= a < x ==> #[trigger] self.tile_at(a, y as int) == Tile::empty_spec(),
                forall|a: int, b: int|
                    0 <= a < MAP_WIDTH && 0 <= b < MAP_HEIGHT && !(start <= a < x && b == y)
                        ==> #[trigger] self.tile_at(a, b) == old(self).tile_at(a, b),
            decreases end + 1 - x,
        {
            let ghost s0 = *self;
            self.map[x][y] = Tile::empty();
            proof {
                assert forall|a: int, b: int|
                    0 <= a < MAP_WIDTH && 0 <= b < MAP_HEIGHT && !(a == x && b == y) implies #[trigger] self.tile_at(
                    a,
                    b,
                ) == s0.tile_at(a, b) by {
                    assert(self.map@ == s0.map@.update(x as int, self.map@[x as int]));
                }
                assert(self.tile_at(x as int, y as int) == Tile::empty_spec());
            }
            x = x + 1;
        }
    }

    /// Carve a vertical corridor at column `x`: every cell from min(y1, y2)
    /// to max(y1, y2) inclusive becomes empty; nothing else changes.
    pub fn create_vertical_tunnel(&mut self, y1: usize, y2: usize, x: usize)
        requires
            old(self).map_wf(),
            y1 < MAP_HEIGHT,
            y2 < MAP_HEIGHT,
            x < MAP_WIDTH,
        ensures
            final(self).map_wf(),
            final(self).entities == old(self).entities,
            forall|b: int|
                vstd::math::min(y1 as int, y2 as int) <= b <= vstd::math::max(y1 as int, y2 as int)
                    ==> #[trigger] final(self).tile_at(x as int, b) == Tile::empty_spec(),
            forall|a: int, b: int|
                0 <= a < MAP_WIDTH && 0 <= b < MAP_HEIGHT && !(vstd::math::min(y1 as int, y2 as int)
                    <= b <= vstd::math::max(y1 as int, y2 as int) && a == x)
                    ==> #[trigger] final(self).tile_at(a, b) == old(self).tile_at(a, b),
    {
        let start: usize = if y1 < y2 {
            y1
        } else {
            y2
        };
        let end: usize = if y1 < y2 {
            y2
        } else {
            y1
        };
        let mut y: usize = start;
        while y <= end
            invariant
                old(self).map_wf(),
                self.map_wf(),
                start == vstd::math::min(y1 as int, y2 as int),
                end == vstd::math::max(y1 as int, y2 as int),
                start <= y <= end + 1,
                end < MAP_HEIGHT,
                x < MAP_WIDTH,
                self.entities == old(self).entities,
                forall|b: int|
                    start <= b < y ==> #[trigger] self.tile_at(x as int, b) == Tile::empty_spec(),
                forall|a: int, b: int|
                    0 <= a < MAP_WIDTH && 0 <= b < MAP_HEIGHT && !(start <= b < y && a == x)
                        ==> #[trigger] self.tile_at(a, b) == old(self).tile_at(a, b),
            decreases end + 1 - y,
        {
            let ghost s0 = *self;
            self.map[x][y] = Tile::empty();
            proof {
                assert forall|a: int, b: int|
                    0 <= a < MAP_WIDTH && 0 <= b < MAP_HEIGHT && !(a == x && b == y) implies #[trigger] self.tile_at(
                    a,
                    b,
                ) == s0.tile_at(a, b) by {
                    assert(self.map@ == s0.map@.update(x as int, self.map@[x as int]));
                }
                assert(self.tile_at(x as int, y as int) == Tile::empty_spec());
            }
            y = y + 1;
        }
    }

    /// A fresh game: no grid yet, and the player alone in slot 0 — alive,
    /// blocking, with the fixed starting stats, at the origin.
    pub fn new() -> (g: Game)
        ensures
            g.wf(),
            g.map@.len() == 0,
            g.entities@.len() == 1,
            g.entities@[0].name@ == "Player"@,
            g.entities@[0] == (Entity {
                name: g.entities@[0].name,
                class: EntityClass::Player,
                x: 0,
                y: 0,
                c: '@',
                color: Color { r: 255, g: 255, b: 255 },
                blocking: true,
                alive: true,
                stats: Some(player_stats()),
                ai: None,
            }),
    {
        let mut player = Entity::new(
            "Player",
            EntityClass::Player,
            0,
            0,
            '@',
            Color { r: 255, g: 255, b: 255 },
            true,
        );
        player.alive = true;
        player.stats = Some(Stats { hp: 30, max_hp: 30, power: 5, defense: 2 });

        let mut entities: Vec<Entity> = Vec::new();
        entities.push(player);
        Game { map: Vec::new(), entities }
    }

    pub fn get_player(&self) -> (e: &Entity)
        requires
            self.entities@.len() >= 1,
        ensures
            *e == self.entities@[0],
    {
        &self.entities[0]
    }

    pub fn get_player_mut(&mut self) -> (e: &mut Entity)
        requires
            old(self).entities@.len() >= 1,
        ensures
            *e == old(self).entities@[0],
            final(self).map == old(self).map,
            final(self).entities@ == old(self).entities@.update(0, *final(e)),
    {
        &mut self.entities[0]
    }

    pub fn get_entity(&self, id: usize) -> (e: &Entity)
        requires
            id < self.entities@.len(),
        ensures
            *e == self.entities@[id as int],
    {
        &self.entities[id]
    }

    pub fn get_entity_mut(&mut self, id: usize) -> (e: &mut Entity)
        requires
            id < old(self).entities@.len(),
        ensures
            *e == old(self).entities@[id as int],
            final(self).map == old(self).map,
            final(self).entities@ == old(self).entities@.update(id as int, *final(e)),
    {
        &mut self.entities[id]
    }

    pub fn get_entities_count(&self) -> (n: usize)
        ensures
            n == self.entities@.len(),
    {
        self.entities.len()
    }

    /// Mark one cell as seen. The `explored` flag is monotonic: this is the
    /// only mutation the library applies to it, and it only sets it true.
    pub fn mark_explored(&mut self, x: i32, y: i32)
        requires
            old(self).map_wf(),
            0 <= x < MAP_WIDTH,
            0 <= y < MAP_HEIGHT,
        ensures
            final(self).map_wf(),
            final(self).entities == old(self).entities,
            final(self).tile_at(x as int, y as int) == (Tile {
                explored: true,
                ..old(self).tile_at(x as int, y as int)
            }),
            forall|a: int, b: int|
                0 <= a < MAP_WIDTH && 0 <= b < MAP_HEIGHT && !(a == x && b == y)
                    ==> #[trigger] final(self).tile_at(a, b) == old(self).tile_at(a, b),
    {
        let ghost s0 = *self;
        let t = self.map[x as usize][y as usize];
        self.map[x as usize][y as usize] = Tile { explored: true, ..t };
        proof {
            assert forall|a: int, b: int|
                0 <= a < MAP_WIDTH && 0 <= b < MAP_HEIGHT && !(a == x && b == y) implies #[trigger] self.tile_at(
                a,
                b,
            ) == s0.tile_at(a, b) by {
                assert(self.map@ == s0.map@.update(x as int, self.map@[x as int]));
            }
        }
    }

    /// The move `(dx, dy)` of entity `id` is committed: the target cell lies
    /// inside the grid and is not blocked.
    pub open spec fn move_allowed(self, id: int, dx: int, dy: int) -> bool {
        let tx = self.entities@[id].x + dx;
        let ty = self.entities@[id].y + dy;
        0 <= tx < MAP_WIDTH && 0 <= ty < MAP_HEIGHT && !self.blocked_spec(tx, ty)
    }

    /// What `move_by` does: either the position of entity `id` changes by
    /// exactly `(dx, dy)` — when the target cell is in the grid and free —
    /// or the whole game is left untouched. Never a partial move.
    pub open spec fn move_by_rel(pre: Game, post: Game, id: int, dx: int, dy: int) -> bool {
        &&& post.map == pre.map
        &&& pre.move_allowed(id, dx, dy) ==> post.entities@ == pre.entities@.update(
            id,
            (Entity {
                x: (pre.entities@[id].x + dx) as i32,
                y: (pre.entities@[id].y + dy) as i32,
                ..pre.entities@[id]
            }),
        )
        &&& !pre.move_allowed(id, dx, dy) ==> post == pre
    }

    /// Try to move entity `id` by exactly `(dx, dy)`: commit the new
    /// position when the target cell is inside the grid and not blocked,
    /// otherwise do nothing — a silent rejection, not an error.
    pub fn move_by(&mut self, id: usize, dx: i32, dy: i32)
        requires
            old(self).map_wf(),
            id < old(self).entities@.len(),
        ensures
            Game::move_by_rel(*old(self), *final(self), id as int, dx as int, dy as int),
            final(self).entities@.len() == old(self).entities@.len(),
            forall|j: int|
                0 <= j < old(self).entities@.len() ==> death_monotone(
                    #[trigger] old(self).entities@[j],
                    final(self).entities@[j],
                ),
    {
        let x: i32 = self.entities[id].x;
        let y: i32 = self.entities[id].y;
        let tx64: i64 = x as i64 + dx as i64;
        let ty64: i64 = y as i64 + dy as i64;
        if 0 <= tx64 && tx64 < MAP_WIDTH as i64 && 0 <= ty64 && ty64 < MAP_HEIGHT as i64 {
            let tx: i32 = tx64 as i32;
            let ty: i32 = ty64 as i32;
            if !self.is_tile_blocked(tx, ty) {
                let e = &mut self.entities[id];
                e.set_pos(tx, ty);
            }
        }
    }

    /// Straight-line approach movement, not pathfinding: each axis of the
    /// direction vector to the target is normalised and rounded to -1, 0 or
    /// 1, and the single resulting step is handed to `move_by`. It can
    /// stall against obstacles, since it does not route around blockers.
    pub fn move_towards(&mut self, id: usize, x: i32, y: i32)
        requires
            old(self).map_wf(),
            id < old(self).entities@.len(),
        ensures
            Game::move_by_rel(
                *old(self),
                *final(self),
                id as int,
                axis_step(
                    x - old(self).entities@[id as int].x,
                    y - old(self).entities@[id as int].y,
                ),
                axis_step(
                    y - old(self).entities@[id as int].y,
                    x - old(self).entities@[id as int].x,
                ),
            ),
            final(self).entities@.len() == old(self).entities@.len(),
            forall|j: int|
                0 <= j < old(self).entities@.len() ==> death_monotone(
                    #[trigger] old(self).entities@[j],
                    final(self).entities@[j],
                ),
    {
        let ex: i32 = self.entities[id].x;
        let ey: i32 = self.entities[id].y;
        let dx64: i64 = x as i64 - ex as i64;
        let dy64: i64 = y as i64 - ey as i64;
        proof {
            assert(0 <= dx64 * dx64 <= 0x1_0000_0000_0000_0000 && 0 <= dy64 * dy64
                <= 0x1_0000_0000_0000_0000) by (nonlinear_arith)
                requires
                    -0x1_0000_0000 <= dx64 <= 0x1_0000_0000,
                    -0x1_0000_0000 <= dy64 <= 0x1_0000_0000,
            ;
        }
        let dx2: i128 = (dx64 as i128) * (dx64 as i128);
        let dy2: i128 = (dy64 as i128) * (dy64 as i128);
        let sx: i32 = if 3 * dx2 >= dy2 {
            if dx64 > 0 {
                1
            } else if dx64 < 0 {
                -1
            } else {
                0
            }
        } else {
            0
        };
        let sy: i32 = if 3 * dy2 >= dx2 {
            if dy64 > 0 {
                1
            } else if dy64 < 0 {
                -1
            } else {
                0
            }
        } else {
            0
        };
        proof {
            assert(dx64 == x - ex && dy64 == y - ey);
            assert(dx2 == dx64 * dx64 && dy2 == dy64 * dy64);
            assert(sx as int == axis_step(x - ex, y - ey));
            assert(sy as int == axis_step(y - ey, x - ex));
        }
        self.move_by(id, sx, sy);
    }

    /// Populate a freshly carved room: sample how many monsters to spawn
    /// (up to ROOM_MAX_MONSTERS) and, for each, a uniformly random interior
    /// position; a position already tile-blocked or entity-blocked skips
    /// that monster rather than retrying. Roughly four out of five spawns
    /// are orcs, the rest trolls. A new monster therefore never stands on
    /// an impassable tile, on another new monster, or on any earlier
    /// blocking entity.
    pub fn spawn_entities(&mut self, room: Rect)
        requires
            old(self).map_wf(),
            room.x1 + 1 < room.x2,
            room.y1 + 1 < room.y2,
            room.x2 <= MAP_WIDTH,
            room.y2 <= MAP_HEIGHT,
        ensures
            final(self).map == old(self).map,
            old(self).entities@.len() <= final(self).entities@.len() <= old(
                self,
            ).entities@.len() + ROOM_MAX_MONSTERS,
            final(self).entities@.subrange(0, old(self).entities@.len() as int) == old(
                self,
            ).entities@,
            forall|j: int|
                old(self).entities@.len() <= j < final(self).entities@.len()
                    ==> spawned_monster_in(#[trigger] final(self).entities@[j], room),
            forall|j: int|
                old(self).entities@.len() <= j < final(self).entities@.len()
                    ==> final(self).tile_at(
                    (#[trigger] final(self).entities@[j]).x as int,
                    final(self).entities@[j].y as int,
                ).passable,
            forall|j: int, k: int|
                #![trigger final(self).entities@[j], final(self).entities@[k]]
                old(self).entities@.len() <= j < final(self).entities@.len() && 0 <= k < j
                    && final(self).entities@[k].blocking
                    ==> !(final(self).entities@[k].x == final(self).entities@[j].x
                    && final(self).entities@[k].y == final(self).entities@[j].y),
            old(self).blockers_separated() ==> final(self).blockers_separated(),
            old(self).blockers_on_passable() ==> final(self).blockers_on_passable(),
    {
        let count: i32 = crate::rng::rand_range_i32(0, ROOM_MAX_MONSTERS + 1);
        let mut k: i32 = 0;
        while k < count
            invariant
                0 <= k <= count <= ROOM_MAX_MONSTERS,
                room.x1 + 1 < room.x2,
                room.y1 + 1 < room.y2,
                room.x2 <= MAP_WIDTH,
                room.y2 <= MAP_HEIGHT,
                self.map == old(self).map,
                old(self).map_wf(),
                old(self).entities@.len() <= self.entities@.len() <= old(self).entities@.len() + k,
                self.entities@.subrange(0, old(self).entities@.len() as int) == old(
                    self,
                ).entities@,
                forall|j: int|
                    old(self).entities@.len() <= j < self.entities@.len() ==> spawned_monster_in(
                        #[trigger] self.entities@[j],
                        room,
                    ),
                forall|j: int|
                    old(self).entities@.len() <= j < self.entities@.len() ==> self.tile_at(
                        (#[trigger] self.entities@[j]).x as int,
                        self.entities@[j].y as int,
                    ).passable,
                forall|j: int, k: int|
                    #![trigger self.entities@[j], self.entities@[k]]
                    old(self).entities@.len() <= j < self.entities@.len() && 0 <= k < j
                        && self.entities@[k].blocking ==> !(self.entities@[k].x
                        == self.entities@[j].x && self.entities@[k].y == self.entities@[j].y),
            decreases count - k,
        {
            let x_us: usize = crate::rng::rand_range_usize(room.x1 + 1, room.x2);
            let y_us: usize = crate::rng::rand_range_usize(room.y1 + 1, room.y2);
            let x: i32 = x_us as i32;
            let y: i32 = y_us as i32;

            if !self.is_tile_blocked(x, y) {
                let roll: i32 = crate::rng::rand_range_i32(0, 10);
                let mut monster: Entity = if roll < 8 {
                    let mut orc = Entity::new(
                        "Orc",
                        EntityClass::Monster,
                        x,
                        y,
                        'o',
                        Color { r: 63, g: 127, b: 63 },
                        true,
                    );
                    orc.stats = Some(Stats { hp: 10, max_hp: 10, power: 3, defense: 0 });
                    orc.ai = Some(MonsterAi::Basic);
                    orc
                } else {
                    let mut troll = Entity::new(
                        "Troll",
                        EntityClass::Monster,
                        x,
                        y,
                        'T',
                        Color { r: 0, g: 127, b: 0 },
                        true,
                    );
                    troll.stats = Some(Stats { hp: 16, max_hp: 16, power: 4, defense: 1 });
                    troll.ai = Some(MonsterAi::Basic);
                    troll
                };
                monster.alive = true;
                let ghost s_chk = *self;
                let ghost pre = self.entities@;
                self.entities.push(monster);
                proof {
                    assert(self.entities@.subrange(0, old(self).entities@.len() as int)
                        =~= pre.subrange(0, old(self).entities@.len() as int));
                    // The cell passed the blocking check just taken on this
                    // very state: its tile is walkable and no blocking
                    // entity — old or newly spawned — stands on it.
                    let n = pre.len() as int;
                    assert forall|kk: int|
                        0 <= kk < n && (#[trigger] self.entities@[kk]).blocking implies !(
                    self.entities@[kk].x == self.entities@[n].x && self.entities@[kk].y
                        == self.entities@[n].y) by {
                        assert(self.entities@[kk] == pre[kk]);
                        if pre[kk].x == x && pre[kk].y == y {
                            assert(s_chk.entity_blocks(x as int, y as int));
                        }
                    }
                    assert(self.tile_at(
                        self.entities@[n].x as int,
                        self.entities@[n].y as int,
                    ).passable);
                }
            }
            k = k + 1;
        }
        proof {
            // The blocking-placement invariant is preserved: entities that
            // were there keep their cells and tiles, and every new monster
            // stands clear of all earlier blockers, on a walkable tile.
            let n0 = old(self).entities@.len() as int;
            assert forall|j: int| 0 <= j < n0 implies self.entities@[j] == old(
                self,
            ).entities@[j] by {
                assert(self.entities@.subrange(0, n0)[j] == self.entities@[j]);
            }
            if old(self).blockers_separated() {
                assert(self.blockers_separated());
            }
            if old(self).blockers_on_passable() {
                assert forall|i: int|
                    0 <= i < self.entities@.len() && (#[trigger] self.entities@[i]).blocking
                        implies 0 <= self.entities@[i].x < MAP_WIDTH && 0 <= self.entities@[i].y
                    < MAP_HEIGHT && self.tile_at(
                    self.entities@[i].x as int,
                    self.entities@[i].y as int,
                ).passable by {
                    if i < n0 {
                        assert(old(self).entities@[i].blocking);
                    }
                }
                assert(self.blockers_on_passable());
            }
        }
    }

    /// Entity `i` is a combat-capable entity standing exactly on `(tx, ty)`.
    pub open spec fn combat_target_at(self, tx: int, ty: int, i: int) -> bool {
        0 <= i < self.entities@.len() && self.entities@[i].stats is Some && self.entities@[i].x
            == tx && self.entities@[i].y == ty
    }

    /// Entity `i` is the lowest-index combat-capable entity on `(tx, ty)`:
    /// the one an attack is dispatched to.
    pub open spec fn is_first_combat_at(self, tx: int, ty: int, i: int) -> bool {
        self.combat_target_at(tx, ty, i) && forall|j: int|
            0 <= j < i ==> !self.combat_target_at(tx, ty, j)
    }

    /// Machine-limit bounds for any attack the player could dispatch.
    pub open spec fn player_attack_bounds(self) -> bool {
        forall|i: int|
            0 <= i < self.entities@.len() && (#[trigger] self.entities@[i]).stats is Some
                ==> attack_req(self.entities@[0], self.entities@[i])
    }

    /// What `move_player` does: when a combat-capable entity stands on the
    /// target cell, the player attacks it (and nobody moves); otherwise the
    /// step is handed to `move_by` for the player.
    pub open spec fn move_player_rel(pre: Game, post: Game, dx: int, dy: int) -> bool {
        let tx = pre.entities@[0].x + dx;
        let ty = pre.entities@[0].y + dy;
        &&& forall|i: int|
            pre.is_first_combat_at(tx, ty, i) ==> post.map == pre.map && post.entities@.len()
                == pre.entities@.len() && (forall|j: int|
                0 <= j < pre.entities@.len() && j != i ==> post.entities@[j] == pre.entities@[j])
                && attack_outcome(pre.entities@[0], pre.entities@[i], post.entities@[i])
        &&& (forall|i: int| !pre.combat_target_at(tx, ty, i)) ==> Game::move_by_rel(
            pre,
            post,
            0,
            dx,
            dy,
        )
    }

    /// Resolve one player step: if the destination holds a combat-capable
    /// entity, dispatch an attack with the player as aggressor instead of
    /// moving; otherwise try to move the player by `(dx, dy)`.
    pub fn move_player(&mut self, dx: i32, dy: i32)
        requires
            old(self).wf(),
            old(self).map_wf(),
            dx != 0 || dy != 0,
            old(self).player_attack_bounds(),
        ensures
            Game::move_player_rel(*old(self), *final(self), dx as int, dy as int),
            final(self).wf(),
            final(self).map_wf(),
            final(self).map == old(self).map,
            final(self).entities@.len() == old(self).entities@.len(),
            final(self).entities@[0] == (Entity {
                x: final(self).entities@[0].x,
                y: final(self).entities@[0].y,
                ..old(self).entities@[0]
            }),
            forall|j: int|
                1 <= j < old(self).entities@.len() ==> final(self).entities@[j] == old(
                    self,
                ).entities@[j] || attack_outcome(
                    old(self).entities@[0],
                    old(self).entities@[j],
                    final(self).entities@[j],
                ),
            forall|j: int|
                0 <= j < old(self).entities@.len() ==> death_monotone(
                    #[trigger] old(self).entities@[j],
                    final(self).entities@[j],
                ),
    {
        let px: i32 = self.entities[0].x;
        let py: i32 = self.entities[0].y;
        let tx64: i64 = px as i64 + dx as i64;
        let ty64: i64 = py as i64 + dy as i64;

        let mut enemy_id: usize = 0;
        let mut enemy_found: bool = false;
        let mut i: usize = 0;
        while i < self.entities.len()
            invariant
                *self == *old(self),
                old(self).wf(),
                tx64 == old(self).entities@[0].x + dx,
                ty64 == old(self).entities@[0].y + dy,
                i <= self.entities@.len(),
                !enemy_found ==> forall|j: int|
                    0 <= j < i ==> !old(self).combat_target_at(tx64 as int, ty64 as int, j),
                enemy_found ==> enemy_id < i && old(self).is_first_combat_at(
                    tx64 as int,
                    ty64 as int,
                    enemy_id as int,
                ),
            decreases self.entities@.len() - i,
        {
            if !enemy_found {
                let e = &self.entities[i];
                if e.stats.is_some() && e.x as i64 == tx64 && e.y as i64 == ty64 {
                    enemy_found = true;
                    enemy_id = i;
                }
            }
            i = i + 1;
        }

        if enemy_found {
            proof {
                // The player cannot be its own target: the step is non-zero,
                // so the target cell differs from the player's cell.
                assert(enemy_id != 0);
            }
            let mut defender = self.entities.remove(enemy_id);
            let mut player = self.entities.remove(0);
            player.attack(&mut defender);
            self.entities.insert(0, player);
            self.entities.insert(enemy_id, defender);
            proof {
                assert(self.entities@ =~= old(self).entities@.update(
                    enemy_id as int,
                    self.entities@[enemy_id as int],
                ));
                assert forall|i2: int|
                    old(self).is_first_combat_at(tx64 as int, ty64 as int, i2) implies i2
                    == enemy_id by {
                    assert(old(self).combat_target_at(tx64 as int, ty64 as int, enemy_id as int));
                    assert(old(self).combat_target_at(tx64 as int, ty64 as int, i2));
                }
            }
        } else {
            self.move_by(0, dx, dy);
        }
    }

    /// Every cell strictly inside `r` is walkable.
    pub open spec fn room_interior_passable(self, r: Rect) -> bool {
        forall|x: int, y: int|
            r.x1 < x < r.x2 && r.y1 < y < r.y2 ==> (#[trigger] self.tile_at(x, y)).passable
    }

    /// Generate a level: reset the grid to all walls, then attempt up to
    /// MAX_ROOMS random room placements. A candidate colliding with any
    /// accepted room is discarded (consuming its attempt); an accepted room
    /// is carved, populated with monsters, and connected to the previous
    /// room's centroid by an L-shaped corridor with a random bend. The
    /// player is placed at the first room's centroid. Returns the accepted
    /// rooms in placement order — at least one, since the first candidate
    /// has nothing to collide with. Every cell is a plain wall or a plain
    /// carved cell, and walkable cells exist only inside accepted rooms and
    /// on their connecting corridor sweeps, so together with the per-pair
    /// corridor clause every carved cell is connected to the player's
    /// starting room. Monsters never spawn on top of one another.
    pub fn create_map(&mut self) -> (rooms: Vec<Rect>)
        requires
            old(self).wf(),
        ensures
            final(self).map_wf(),
            final(self).wf(),
            1 <= rooms@.len() <= MAX_ROOMS,
            forall|x: int, y: int|
                0 <= x < MAP_WIDTH && 0 <= y < MAP_HEIGHT && !carved_cell(rooms@, x, y)
                    ==> #[trigger] final(self).tile_at(x, y) == Tile::wall_spec(),
            forall|x: int, y: int|
                0 <= x < MAP_WIDTH && 0 <= y < MAP_HEIGHT ==> #[trigger] final(self).tile_at(x, y)
                    == Tile::wall_spec() || final(self).tile_at(x, y) == Tile::empty_spec(),
            forall|x: int, y: int|
                0 <= x < MAP_WIDTH && 0 <= y < MAP_HEIGHT ==> !(#[trigger] final(self).tile_at(
                    x,
                    y,
                )).explored,
            forall|x: int, y: int|
                0 <= x < MAP_WIDTH && 0 <= y < MAP_HEIGHT && (#[trigger] final(self).tile_at(
                    x,
                    y,
                )).passable ==> carved_cell(rooms@, x, y),
            forall|j: int|
                old(self).entities@.len() <= j < final(self).entities@.len()
                    ==> final(self).tile_at(
                    (#[trigger] final(self).entities@[j]).x as int,
                    final(self).entities@[j].y as int,
                ).passable,
            forall|j: int, k: int|
                #![trigger final(self).entities@[j], final(self).entities@[k]]
                old(self).entities@.len() <= j < k < final(self).entities@.len()
                    ==> !(final(self).entities@[j].x == final(self).entities@[k].x
                    && final(self).entities@[j].y == final(self).entities@[k].y),
            forall|i: int|
                0 <= i < rooms@.len() ==> (#[trigger] rooms@[i]).wf() && rooms@[i].x2 < MAP_WIDTH
                    && rooms@[i].y2 < MAP_HEIGHT && ROOM_MIN_SIZE <= rooms@[i].x2 - rooms@[i].x1
                    <= ROOM_MAX_SIZE && ROOM_MIN_SIZE <= rooms@[i].y2 - rooms@[i].y1
                    <= ROOM_MAX_SIZE,
            forall|i: int, j: int|
                0 <= i < j < rooms@.len() ==> !(#[trigger] rooms@[i]).collides_spec(
                    #[trigger] rooms@[j],
                ),
            forall|i: int|
                0 <= i < rooms@.len() ==> final(self).room_interior_passable(#[trigger] rooms@[i]),
            forall|i: int|
                1 <= i < rooms@.len() ==> final(self).corridor_passable(
                    rooms@[i - 1].center_spec(),
                    (#[trigger] rooms@[i]).center_spec(),
                ),
            final(self).entities@.len() >= old(self).entities@.len(),
            forall|j: int|
                1 <= j < old(self).entities@.len() ==> final(self).entities@[j] == old(
                    self,
                ).entities@[j],
            final(self).entities@[0] == (Entity {
                x: rooms@[0].center_spec().0 as i32,
                y: rooms@[0].center_spec().1 as i32,
                ..old(self).entities@[0]
            }),
            forall|j: int|
                old(self).entities@.len() <= j < final(self).entities@.len() ==> generated_monster(
                    #[trigger] final(self).entities@[j],
                ),
    {
        // Reset the grid to all walls.
        let mut grid: Grid = Vec::new();
        let mut gx: usize = 0;
        while gx < 80
            invariant
                gx <= 80,
                grid@.len() == gx,
                forall|i: int| 0 <= i < gx ==> (#[trigger] grid@[i])@.len() == MAP_HEIGHT,
                forall|i: int, j: int|
                    0 <= i < gx && 0 <= j < MAP_HEIGHT ==> (#[trigger] grid@[i]@[j])
                        == Tile::wall_spec(),
            decreases 80 - gx,
        {
            let mut col: Vec<Tile> = Vec::new();
            let mut gy: usize = 0;
            while gy < 45
                invariant
                    gy <= 45,
                    col@.len() == gy,
                    forall|j: int| 0 <= j < gy ==> #[trigger] col@[j] == Tile::wall_spec(),
                decreases 45 - gy,
            {
                col.push(Tile::wall());
                gy = gy + 1;
            }
            grid.push(col);
            gx = gx + 1;
        }
        self.map = grid;

        let mut rooms: Vec<Rect> = Vec::new();
        let mut attempt: i32 = 0;
        while attempt < MAX_ROOMS
            invariant
                0 <= attempt <= MAX_ROOMS,
                attempt > 0 ==> rooms@.len() >= 1,
                rooms@.len() <= attempt,
                self.map_wf(),
                self.wf(),
                old(self).wf(),
                forall|a: int, b: int|
                    0 <= a < MAP_WIDTH && 0 <= b < MAP_HEIGHT && !carved_cell(rooms@, a, b)
                        ==> #[trigger] self.tile_at(a, b) == Tile::wall_spec(),
                forall|a: int, b: int|
                    0 <= a < MAP_WIDTH && 0 <= b < MAP_HEIGHT ==> #[trigger] self.tile_at(a, b)
                        == Tile::wall_spec() || self.tile_at(a, b) == Tile::empty_spec(),
                forall|j: int|
                    old(self).entities@.len() <= j < self.entities@.len() ==> self.tile_at(
                        (#[trigger] self.entities@[j]).x as int,
                        self.entities@[j].y as int,
                    ).passable,
                forall|j: int, k: int|
                    #![trigger self.entities@[j], self.entities@[k]]
                    old(self).entities@.len() <= j < k < self.entities@.len()
                        ==> !(self.entities@[j].x == self.entities@[k].x && self.entities@[j].y
                        == self.entities@[k].y),
                forall|i: int|
                    0 <= i < rooms@.len() ==> (#[trigger] rooms@[i]).wf() && rooms@[i].x2
                        < MAP_WIDTH && rooms@[i].y2 < MAP_HEIGHT && ROOM_MIN_SIZE <= rooms@[i].x2
                        - rooms@[i].x1 <= ROOM_MAX_SIZE && ROOM_MIN_SIZE <= rooms@[i].y2
                        - rooms@[i].y1 <= ROOM_MAX_SIZE,
                forall|i: int, j: int|
                    0 <= i < j < rooms@.len() ==> !(#[trigger] rooms@[i]).collides_spec(
                        #[trigger] rooms@[j],
                    ),
                forall|i: int|
                    0 <= i < rooms@.len() ==> self.room_interior_passable(#[trigger] rooms@[i]),
                forall|i: int|
                    1 <= i < rooms@.len() ==> self.corridor_passable(
                        rooms@[i - 1].center_spec(),
                        (#[trigger] rooms@[i]).center_spec(),
                    ),
                self.entities@.len() >= old(self).entities@.len(),
                forall|j: int|
                    1 <= j < old(self).entities@.len() ==> self.entities@[j] == old(
                        self,
                    ).entities@[j],
                rooms@.len() == 0 ==> self.entities@ == old(self).entities@,
                rooms@.len() >= 1 ==> self.entities@[0] == (Entity {
                    x: rooms@[0].center_spec().0 as i32,
                    y: rooms@[0].center_spec().1 as i32,
                    ..old(self).entities@[0]
                }),
                forall|j: int|
                    old(self).entities@.len() <= j < self.entities@.len() ==> generated_monster(
                        #[trigger] self.entities@[j],
                    ),
            decreases MAX_ROOMS - attempt,
        {
            let w: i32 = crate::rng::rand_range_i32(ROOM_MIN_SIZE, ROOM_MAX_SIZE + 1);
            let h: i32 = crate::rng::rand_range_i32(ROOM_MIN_SIZE, ROOM_MAX_SIZE + 1);
            let x: i32 = crate::rng::rand_range_i32(0, MAP_WIDTH - w);
            let y: i32 = crate::rng::rand_range_i32(0, MAP_HEIGHT - h);

            let new_room = Rect::new(x as usize, y as usize, w as usize, h as usize);

            let mut collide = false;
            let mut ri: usize = 0;
            while ri < rooms.len()
                invariant
                    ri <= rooms@.len(),
                    collide ==> rooms@.len() >= 1,
                    !collide ==> forall|j: int|
                        0 <= j < ri ==> !new_room.collides_spec(#[trigger] rooms@[j]),
                decreases rooms@.len() - ri,
            {
                if new_room.collides(&rooms[ri]) {
                    collide = true;
                }
                ri = ri + 1;
            }

            if !collide {
                let ghost g0 = *self;
                let ghost rooms0 = rooms@;
                self.create_room(new_room);
                let ghost g1 = *self;
                self.spawn_entities(new_room);
                let ghost g2 = *self;
                let (cx, cy) = new_room.center();

                if rooms.len() == 0 {
                    let p = &mut self.entities[0];
                    p.set_pos(cx as i32, cy as i32);
                } else {
                    let prev: Rect = rooms[rooms.len() - 1];
                    let (px, py) = prev.center();
                    if crate::rng::rand_bool() {
                        self.create_horizontal_tunnel(px, cx, py);
                        let ghost g3 = *self;
                        self.create_vertical_tunnel(py, cy, cx);
                        proof {
                            assert forall|a: int|
                                vstd::math::min(px as int, cx as int) <= a <= vstd::math::max(
                                    px as int,
                                    cx as int,
                                ) implies (#[trigger] self.tile_at(a, py as int)).passable by {
                                assert(g3.tile_at(a, py as int) == Tile::empty_spec());
                            }
                            assert(self.h_seg_passable(px as int, cx as int, py as int));
                            assert(self.v_seg_passable(py as int, cy as int, cx as int));
                            assert(self.corridor_passable(
                                prev.center_spec(),
                                new_room.center_spec(),
                            ));
                        }
                    } else {
                        self.create_vertical_tunnel(py, cy, px);
                        let ghost g3 = *self;
                        self.create_horizontal_tunnel(px, cx, cy);
                        proof {
                            assert forall|b: int|
                                vstd::math::min(py as int, cy as int) <= b <= vstd::math::max(
                                    py as int,
                                    cy as int,
                                ) implies (#[trigger] self.tile_at(px as int, b)).passable by {
                                assert(g3.tile_at(px as int, b) == Tile::empty_spec());
                            }
                            assert(self.v_seg_passable(py as int, cy as int, px as int));
                            assert(self.h_seg_passable(px as int, cx as int, cy as int));
                            assert(self.corridor_passable(
                                prev.center_spec(),
                                new_room.center_spec(),
                            ));
                        }
                    }
                }

                proof {
                    // Carving this room, its monsters and its corridor never
                    // fills a cell that was already walkable.
                    assert forall|a: int, b: int|
                        0 <= a < MAP_WIDTH && 0 <= b < MAP_HEIGHT && (#[trigger] g0.tile_at(
                            a,
                            b,
                        )).passable implies (#[trigger] self.tile_at(a, b)).passable by {
                        assert(g1.tile_at(a, b) == g0.tile_at(a, b) || g1.tile_at(a, b)
                            == Tile::empty_spec());
                        assert(g2.tile_at(a, b) == g1.tile_at(a, b));
                        assert(self.tile_at(a, b) == g2.tile_at(a, b) || self.tile_at(a, b)
                            == Tile::empty_spec());
                    }
                    // Every cell it does touch becomes a plain carved cell.
                    assert forall|a: int, b: int|
                        0 <= a < MAP_WIDTH && 0 <= b < MAP_HEIGHT implies (#[trigger] self.tile_at(
                        a,
                        b,
                    ) == g0.tile_at(a, b) || self.tile_at(a, b) == Tile::empty_spec()) by {
                        assert(g1.tile_at(a, b) == g0.tile_at(a, b) || g1.tile_at(a, b)
                            == Tile::empty_spec());
                        assert(g2.tile_at(a, b) == g1.tile_at(a, b));
                        assert(self.tile_at(a, b) == g2.tile_at(a, b) || self.tile_at(a, b)
                            == Tile::empty_spec());
                    }
                    assert forall|a: int, b: int|
                        0 <= a < MAP_WIDTH && 0 <= b < MAP_HEIGHT && (#[trigger] g2.tile_at(
                            a,
                            b,
                        )).passable implies (#[trigger] self.tile_at(a, b)).passable by {
                        assert(self.tile_at(a, b) == g2.tile_at(a, b) || self.tile_at(a, b)
                            == Tile::empty_spec());
                    }
                    // The new room's interior stays carved through the later
                    // corridor work.
                    assert forall|a: int, b: int|
                        new_room.x1 < a < new_room.x2 && new_room.y1 < b
                            < new_room.y2 implies (#[trigger] self.tile_at(a, b)).passable by {
                        assert(g1.tile_at(a, b) == Tile::empty_spec());
                        assert(g2.tile_at(a, b) == g1.tile_at(a, b));
                        assert(self.tile_at(a, b) == g2.tile_at(a, b) || self.tile_at(a, b)
                            == Tile::empty_spec());
                    }
                    assert(self.room_interior_passable(new_room));
                    // Older rooms stay carved.
                    assert forall|i: int|
                        0 <= i < rooms0.len() implies self.room_interior_passable(
                        #[trigger] rooms0[i],
                    ) by {
                        assert(g0.room_interior_passable(rooms0[i]));
                        assert forall|a: int, b: int|
                            rooms0[i].x1 < a < rooms0[i].x2 && rooms0[i].y1 < b
                                < rooms0[i].y2 implies (#[trigger] self.tile_at(a, b)).passable by {
                            assert((g0.tile_at(a, b)).passable);
                        }
                    }
                    // Older corridors stay carved.
                    assert forall|i: int|
                        1 <= i < rooms0.len() implies self.corridor_passable(
                        rooms0[i - 1].center_spec(),
                        (#[trigger] rooms0[i]).center_spec(),
                    ) by {
                        assert(g0.corridor_passable(
                            rooms0[i - 1].center_spec(),
                            rooms0[i].center_spec(),
                        ));
                        let c1 = rooms0[i - 1].center_spec();
                        let c2 = rooms0[i].center_spec();
                        assert(0 <= c1.0 < MAP_WIDTH && 0 <= c1.1 < MAP_HEIGHT);
                        assert(0 <= c2.0 < MAP_WIDTH && 0 <= c2.1 < MAP_HEIGHT);
                        if g0.h_seg_passable(c1.0, c2.0, c1.1) && g0.v_seg_passable(
                            c1.1,
                            c2.1,
                            c2.0,
                        ) {
                            assert forall|a: int|
                                vstd::math::min(c1.0, c2.0) <= a <= vstd::math::max(
                                    c1.0,
                                    c2.0,
                                ) implies (#[trigger] self.tile_at(a, c1.1)).passable by {
                                assert((g0.tile_at(a, c1.1)).passable);
                            }
                            assert forall|b: int|
                                vstd::math::min(c1.1, c2.1) <= b <= vstd::math::max(
                                    c1.1,
                                    c2.1,
                                ) implies (#[trigger] self.tile_at(c2.0, b)).passable by {
                                assert((g0.tile_at(c2.0, b)).passable);
                            }
                            assert(self.h_seg_passable(c1.0, c2.0, c1.1));
                            assert(self.v_seg_passable(c1.1, c2.1, c2.0));
                        } else {
                            assert forall|b: int|
                                vstd::math::min(c1.1, c2.1) <= b <= vstd::math::max(
                                    c1.1,
                                    c2.1,
                                ) implies (#[trigger] self.tile_at(c1.0, b)).passable by {
                                assert((g0.tile_at(c1.0, b)).passable);
                            }
                            assert forall|a: int|
                                vstd::math::min(c1.0, c2.0) <= a <= vstd::math::max(
                                    c1.0,
                                    c2.0,
                                ) implies (#[trigger] self.tile_at(a, c2.1)).passable by {
                                assert((g0.tile_at(a, c2.1)).passable);
                            }
                            assert(self.v_seg_passable(c1.1, c2.1, c1.0));
                            assert(self.h_seg_passable(c1.0, c2.0, c2.1));
                        }
                    }
                }

                proof {
                    // Entities: the monsters spawned this iteration carry
                    // their spawn shape; everything from slot 1 up that was
                    // already there is untouched.
                    assert forall|j: int|
                        1 <= j < g2.entities@.len() implies self.entities@[j]
                        == g2.entities@[j] by {}
                    assert forall|j: int|
                        0 <= j < g0.entities@.len() implies g2.entities@[j]
                        == g0.entities@[j] by {
                        assert(g2.entities@.subrange(0, g0.entities@.len() as int)[j]
                            == g2.entities@[j]);
                    }
                    assert forall|j: int|
                        old(self).entities@.len() <= j
                            < self.entities@.len() implies generated_monster(
                        #[trigger] self.entities@[j],
                    ) by {
                        if j < g0.entities@.len() {
                            assert(generated_monster(g0.entities@[j]));
                        } else {
                            assert(spawned_monster_in(g2.entities@[j], new_room));
                        }
                    }
                    // Every monster still stands on a walkable tile: the
                    // blocking check placed it on one, and carving only ever
                    // adds walkable cells.
                    assert forall|j: int|
                        old(self).entities@.len() <= j < self.entities@.len() implies self.tile_at(
                        (#[trigger] self.entities@[j]).x as int,
                        self.entities@[j].y as int,
                    ).passable by {
                        assert(self.entities@[j] == g2.entities@[j]);
                        if j < g0.entities@.len() {
                            assert(generated_monster(g0.entities@[j]));
                            assert(g0.tile_at(
                                g0.entities@[j].x as int,
                                g0.entities@[j].y as int,
                            ).passable);
                        } else {
                            assert(spawned_monster_in(g2.entities@[j], new_room));
                            assert(g2.tile_at(
                                g2.entities@[j].x as int,
                                g2.entities@[j].y as int,
                            ).passable);
                        }
                    }
                    // And no two monsters share a cell: each spawn was
                    // checked against every blocking entity already present.
                    assert forall|j: int, k: int|
                        #![trigger self.entities@[j], self.entities@[k]]
                        old(self).entities@.len() <= j < k
                            < self.entities@.len() implies !(self.entities@[j].x
                        == self.entities@[k].x && self.entities@[j].y
                        == self.entities@[k].y) by {
                        assert(self.entities@[j] == g2.entities@[j]);
                        assert(self.entities@[k] == g2.entities@[k]);
                        if k < g0.entities@.len() {
                            assert(g2.entities@[j] == g0.entities@[j]);
                            assert(g2.entities@[k] == g0.entities@[k]);
                        } else {
                            if j < g0.entities@.len() {
                                assert(g2.entities@[j] == g0.entities@[j]);
                                assert(generated_monster(g0.entities@[j]));
                            } else {
                                assert(spawned_monster_in(g2.entities@[j], new_room));
                            }
                            assert(g2.entities@[j].blocking);
                        }
                    }
                }
                rooms.push(new_room);
                proof {
                    // Pairwise separation, with the accepted candidate last.
                    assert forall|i: int, j: int|
                        0 <= i < j < rooms@.len() implies !(#[trigger] rooms@[i]).collides_spec(
                        #[trigger] rooms@[j],
                    ) by {
                        if j == rooms@.len() - 1 {
                            assert(!new_room.collides_spec(rooms0[i]));
                        }
                    }
                    // Cells that neither the accepted rooms nor their
                    // corridors touch keep their wall.
                    let n = rooms@.len() - 1;
                    assert(rooms@[n] == new_room);
                    assert forall|a: int, b: int|
                        0 <= a < MAP_WIDTH && 0 <= b < MAP_HEIGHT && !carved_cell(
                            rooms@,
                            a,
                            b,
                        ) implies #[trigger] self.tile_at(a, b) == Tile::wall_spec() by {
                        if in_room_interior(new_room, a, b) {
                            assert(carved_cell(rooms@, a, b));
                        }
                        if carved_cell(rooms0, a, b) {
                            if exists|i: int|
                                0 <= i < rooms0.len() && in_room_interior(
                                    #[trigger] rooms0[i],
                                    a,
                                    b,
                                ) {
                                let i = choose|i: int|
                                    0 <= i < rooms0.len() && in_room_interior(
                                        #[trigger] rooms0[i],
                                        a,
                                        b,
                                    );
                                assert(rooms@[i] == rooms0[i]);
                                assert(carved_cell(rooms@, a, b));
                            } else {
                                let i = choose|i: int|
                                    1 <= i < rooms0.len() && on_corridor_between(
                                        rooms0[i - 1].center_spec(),
                                        (#[trigger] rooms0[i]).center_spec(),
                                        a,
                                        b,
                                    );
                                assert(rooms@[i] == rooms0[i] && rooms@[i - 1] == rooms0[i - 1]);
                                assert(carved_cell(rooms@, a, b));
                            }
                        }
                        assert(!carved_cell(rooms0, a, b));
                        assert(g0.tile_at(a, b) == Tile::wall_spec());
                        assert(g1.tile_at(a, b) == g0.tile_at(a, b));
                        assert(g2.tile_at(a, b) == g1.tile_at(a, b));
                        if rooms0.len() >= 1 {
                            assert(rooms@[n - 1] == rooms0[rooms0.len() - 1]);
                            if on_corridor_between(
                                rooms@[n - 1].center_spec(),
                                new_room.center_spec(),
                                a,
                                b,
                            ) {
                                assert(carved_cell(rooms@, a, b));
                            }
                        }
                        assert(self.tile_at(a, b) == g2.tile_at(a, b));
                    }
                }
            }
            attempt = attempt + 1;
        }
        rooms
    }
}

} // verus!
