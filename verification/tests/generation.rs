use roguelike::game::rect::Rect;
use roguelike::game::tile::Tile;
use roguelike::game::{Game, MAP_HEIGHT, MAP_WIDTH, MAX_ROOMS, ROOM_MAX_SIZE, ROOM_MIN_SIZE};

fn walled_game() -> Game {
    let mut game = Game::new();
    game.map = vec![vec![Tile::wall(); MAP_HEIGHT as usize]; MAP_WIDTH as usize];
    game
}

#[test]
fn tile_empty_is_walkable() {
    let t = Tile::empty();
    assert!(t.passable);
    assert!(!t.blocks_sight);
    assert!(!t.explored);
}

#[test]
fn tile_wall_is_solid() {
    let t = Tile::wall();
    assert!(!t.passable);
    assert!(t.blocks_sight);
    assert!(!t.explored);
}

#[test]
fn rect_new_stores_corners() {
    let r = Rect::new(5, 10, 6, 7);
    assert_eq!(r.x1, 5);
    assert_eq!(r.y1, 10);
    assert_eq!(r.x2, 11);
    assert_eq!(r.y2, 17);
}

#[test]
fn rect_center_truncates() {
    let r = Rect::new(5, 10, 6, 7);
    assert_eq!(r.center(), (8, 13));
    let r2 = Rect::new(0, 0, 3, 3);
    assert_eq!(r2.center(), (1, 1));
}

#[test]
fn rect_touching_counts_as_collision() {
    let a = Rect::new(0, 0, 5, 5);
    let b = Rect::new(5, 0, 5, 5);
    assert!(a.collides(&b));
    assert!(b.collides(&a));
    let c = Rect::new(6, 0, 5, 5);
    assert!(!a.collides(&c));
    assert!(!c.collides(&a));
}

#[test]
fn create_room_carves_interior_only() {
    let mut game = walled_game();
    let room = Rect::new(10, 10, 6, 6);
    game.create_room(room);
    for x in 11..16 {
        for y in 11..16 {
            assert!(game.map[x][y].passable);
        }
    }
    // The boundary edges stay solid.
    for x in 10..17 {
        assert!(!game.map[x][10].passable);
        assert!(!game.map[x][16].passable);
    }
    for y in 10..17 {
        assert!(!game.map[10][y].passable);
        assert!(!game.map[16][y].passable);
    }
}

#[test]
fn horizontal_then_vertical_corridor_between_centers() {
    // Room A centered at (5, 5), room B centered at (15, 5): after the
    // horizontal-then-vertical choice every swept cell is passable.
    let mut game = walled_game();
    game.create_horizontal_tunnel(5, 15, 5);
    game.create_vertical_tunnel(5, 5, 15);
    for x in 5..=15 {
        assert!(game.map[x][5].passable);
    }
    assert!(game.map[15][5].passable);
}

#[test]
fn tunnels_accept_either_argument_order() {
    let mut game = walled_game();
    game.create_horizontal_tunnel(20, 8, 7);
    for x in 8..=20 {
        assert!(game.map[x][7].passable);
    }
    let mut game2 = walled_game();
    game2.create_vertical_tunnel(30, 12, 40);
    for y in 12..=30 {
        assert!(game2.map[40][y].passable);
    }
}

#[test]
fn generated_dungeon_rooms_are_carved_and_disjoint() {
    let mut game = Game::new();
    let rooms = game.create_map();

    assert!(rooms.len() >= 1);
    for r in rooms.iter() {
        assert!(r.x1 < r.x2 && r.y1 < r.y2);
        assert!(r.x2 < MAP_WIDTH as usize);
        assert!(r.y2 < MAP_HEIGHT as usize);
        let w = r.x2 - r.x1;
        let h = r.y2 - r.y1;
        assert!(w >= ROOM_MIN_SIZE as usize && w <= ROOM_MAX_SIZE as usize);
        assert!(h >= ROOM_MIN_SIZE as usize && h <= ROOM_MAX_SIZE as usize);
        // Every interior cell of an accepted room is passable.
        for x in (r.x1 + 1)..r.x2 {
            for y in (r.y1 + 1)..r.y2 {
                assert!(game.map[x][y].passable);
            }
        }
    }
    // No two accepted rooms' closed rectangles intersect.
    for i in 0..rooms.len() {
        for j in 0..rooms.len() {
            if i != j {
                assert!(!rooms[i].collides(&rooms[j]));
            }
        }
    }
}

#[test]
fn generated_dungeon_connects_consecutive_centroids() {
    let mut game = Game::new();
    let rooms = game.create_map();
    for i in 1..rooms.len() {
        let (px, py) = rooms[i - 1].center();
        let (cx, cy) = rooms[i].center();
        let (lo_x, hi_x) = (px.min(cx), px.max(cx));
        let (lo_y, hi_y) = (py.min(cy), py.max(cy));
        // One of the two L-shaped bends is fully carved.
        let h_first = (lo_x..=hi_x).all(|x| game.map[x][py].passable)
            && (lo_y..=hi_y).all(|y| game.map[cx][y].passable);
        let v_first = (lo_y..=hi_y).all(|y| game.map[px][y].passable)
            && (lo_x..=hi_x).all(|x| game.map[x][cy].passable);
        assert!(h_first || v_first);
    }
}

#[test]
fn generated_dungeon_places_player_at_first_centroid() {
    let mut game = Game::new();
    let rooms = game.create_map();
    let (cx, cy) = rooms[0].center();
    assert_eq!(game.get_player().pos(), (cx as i32, cy as i32));
    assert!(game.get_player().alive);
}

#[test]
fn generated_monsters_are_orcs_or_trolls_in_bounds() {
    let mut game = Game::new();
    game.create_map();
    for id in 1..game.get_entities_count() {
        let e = game.get_entity(id);
        let (x, y) = e.pos();
        assert!(x >= 0 && x < MAP_WIDTH && y >= 0 && y < MAP_HEIGHT);
        assert!(e.alive && e.blocking);
        assert!(e.ai.is_some());
        let stats = e.stats.expect("a generated monster has stats");
        if e.name == "Orc" {
            assert_eq!((stats.hp, stats.max_hp, stats.power, stats.defense), (10, 10, 3, 0));
        } else {
            assert_eq!(e.name, "Troll");
            assert_eq!((stats.hp, stats.max_hp, stats.power, stats.defense), (16, 16, 4, 1));
        }
    }
}

#[test]
fn spawned_monsters_sit_on_free_floor() {
    let mut game = walled_game();
    let room = Rect::new(20, 20, 8, 8);
    game.create_room(room);
    game.spawn_entities(room);
    assert!(game.get_entities_count() <= 1 + 3);
    for id in 1..game.get_entities_count() {
        let (x, y) = game.get_entity(id).pos();
        assert!(room.x1 < x as usize && (x as usize) < room.x2);
        assert!(room.y1 < y as usize && (y as usize) < room.y2);
        assert!(game.map[x as usize][y as usize].passable);
        for other in 0..id {
            if game.get_entity(other).blocking {
                assert_ne!(game.get_entity(other).pos(), (x, y));
            }
        }
    }
}

#[test]
fn generated_monsters_never_stack() {
    let mut game = Game::new();
    game.create_map();
    let n = game.get_entities_count();
    for id in 1..n {
        let (x, y) = game.get_entity(id).pos();
        assert!(game.map[x as usize][y as usize].passable);
        for other in 1..n {
            if other != id {
                assert_ne!(game.get_entity(other).pos(), (x, y));
            }
        }
    }
}

#[test]
fn uncarved_cells_stay_walls() {
    let mut game = Game::new();
    let rooms = game.create_map();
    assert!(rooms.len() <= MAX_ROOMS as usize);
    let wall = Tile::wall();
    let empty = Tile::empty();
    for x in 0..MAP_WIDTH as usize {
        for y in 0..MAP_HEIGHT as usize {
            let t = game.map[x][y];
            // Every cell is a plain wall or a plain carved cell, unexplored.
            assert!(t == wall || t == empty);
            assert!(!t.explored);
            if t.passable {
                // A walkable cell lies in a room interior or on a corridor
                // sweep between consecutive centroids.
                let in_room = rooms
                    .iter()
                    .any(|r| r.x1 < x && x < r.x2 && r.y1 < y && y < r.y2);
                let on_corridor = (1..rooms.len()).any(|i| {
                    let (px, py) = rooms[i - 1].center();
                    let (cx, cy) = rooms[i].center();
                    (px.min(cx) <= x && x <= px.max(cx) && (y == py || y == cy))
                        || (py.min(cy) <= y && y <= py.max(cy) && (x == px || x == cx))
                });
                assert!(in_room || on_corridor);
            }
        }
    }
}

#[test]
fn mark_explored_is_monotonic() {
    let mut game = walled_game();
    assert!(!game.map[3][4].explored);
    game.mark_explored(3, 4);
    assert!(game.map[3][4].explored);
    assert!(!game.map[3][4].passable);
    game.mark_explored(3, 4);
    assert!(game.map[3][4].explored);
}
