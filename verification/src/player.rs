use vstd::prelude::*;
use crate::components::{BelongsTo, Point, TargetedPosition};
use crate::constants::{MAP_HEIGHT, MAP_WIDTH};
use crate::gui::Key;
use crate::map::{in_bounds, tile_index, Place, TileType};
use crate::state::{RunState, State};
use crate::store::{first_entity, lemma_first_entity, lemma_first_found, lemma_no_first_entity};
use crate::world::{World, WorldView};

verus! {

/// `v` held to the range from 0 to `max`.
pub open spec fn clamped(v: int, max: int) -> int {
    if v < 0 {
        0
    } else if v > max {
        max
    } else {
        v
    }
}

/// The tile that a step by `(dx, dy)` leads to: the edge of the map holds the player back.
pub open spec fn step_target(w: WorldView, dx: int, dy: int) -> (int, int) {
    (clamped(w.player_pos.x + dx, MAP_WIDTH - 1), clamped(w.player_pos.y + dy, MAP_HEIGHT - 1))
}

/// Whether `e` is a portal of the current place on the tile `(x, y)` that is not locked.
pub open spec fn is_open_portal(w: WorldView, x: int, y: int, e: usize) -> bool {
    &&& w.belongs.contains_key(e)
    &&& w.positions.contains_key(e)
    &&& w.portals.contains_key(e)
    &&& !w.requires_item.contains_key(e)
    &&& w.belongs[e].domain == w.current_place
    &&& w.positions[e].x == x
    &&& w.positions[e].y == y
}

/// [`is_open_portal`] as a predicate on ids.
pub open spec fn open_portal_pred(w: WorldView, x: int, y: int) -> spec_fn(usize) -> bool {
    |e: usize| is_open_portal(w, x, y, e)
}

/// Where each entity is, once every player among them is in `place`.
pub open spec fn with_players_in(w: WorldView, place: Place) -> Map<usize, BelongsTo> {
    Map::new(
        |e: usize| w.belongs.contains_key(e),
        |e: usize|
            if w.players.contains_key(e) {
                BelongsTo { domain: place }
            } else {
                w.belongs[e]
            },
    )
}

/// The world after the player went through the portal `e`: the player stands at its far
/// end, and that place is the current one and the player's own.
pub open spec fn warped(w: WorldView, e: usize) -> WorldView {
    let portal = w.portals[e];
    WorldView {
        current_place: portal.target,
        player_pos: Point { x: portal.warp_place.0, y: portal.warp_place.1 },
        belongs: with_players_in(w, portal.target),
        ..w
    }
}

/// The world and the mode after a step.
pub ghost struct Move {
    pub world: WorldView,
    pub mode: RunState,
}

/// What a step by `(dx, dy)` does, by the tile that it leads to: the player walks on a
/// floor; a locked tile and an NPC become the target, and the mode changes to the
/// inventory and to the exchange; the first open portal on the tile takes the player to
/// its far end; anything else holds the player back.
pub open spec fn after_move(w: WorldView, dx: int, dy: int) -> Move {
    let (x, y) = step_target(w, dx, dy);
    let target = TargetedPosition { x: x as i32, y: y as i32 };
    match w.map.tiles[tile_index(x, y)] {
        TileType::Floor => Move {
            world: WorldView { player_pos: Point { x: x as i32, y: y as i32 }, ..w },
            mode: RunState::Game,
        },
        TileType::RequiresKey => Move {
            world: WorldView { targeted_pos: target, ..w },
            mode: RunState::UseInventory,
        },
        TileType::Portal => match first_entity(open_portal_pred(w, x, y)) {
            Some(e) => Move { world: warped(w, e), mode: RunState::Game },
            None => Move { world: w, mode: RunState::Game },
        },
        TileType::NPC => Move {
            world: WorldView { targeted_pos: target, ..w },
            mode: RunState::InteractNpc { index: 0 },
        },
        _ => Move { world: w, mode: RunState::Game },
    }
}

/// What a key does while the player walks: an arrow is a step, escape asks to save.
pub open spec fn after_input(w: WorldView, key: Option<Key>) -> Move {
    match key {
        Some(Key::Up) => after_move(w, 0, -1),
        Some(Key::Down) => after_move(w, 0, 1),
        Some(Key::Left) => after_move(w, -1, 0),
        Some(Key::Right) => after_move(w, 1, 0),
        Some(Key::Escape) => Move { world: w, mode: RunState::SaveGame },
        _ => Move { world: w, mode: RunState::Game },
    }
}

/// The edge of the map absorbs: a step from a floor tile that, on every axis on which it
/// moves, leads off the map from the edge, changes nothing, however long it is: the
/// player, the place, the target and every entity stay, and the game goes on.
pub proof fn lemma_edge_absorbs(w: WorldView, dx: int, dy: int)
    requires
        w.wf(),
        w.map.tiles[tile_index(w.player_pos.x as int, w.player_pos.y as int)] == TileType::Floor,
        dx != 0 ==> (w.player_pos.x == 0 && dx < 0) || (w.player_pos.x == MAP_WIDTH - 1 && dx > 0),
        dy != 0 ==> (w.player_pos.y == 0 && dy < 0) || (w.player_pos.y == MAP_HEIGHT - 1 && dy > 0),
    ensures
        after_move(w, dx, dy) == (Move { world: w, mode: RunState::Game }),
{
    let (x, y) = step_target(w, dx, dy);
    assert(x == w.player_pos.x && y == w.player_pos.y);
}

/// A step of one tile that leaves the map, made from a floor tile, changes nothing.
pub proof fn lemma_step_off_the_map_absorbs(w: WorldView, dx: int, dy: int)
    requires
        w.wf(),
        w.map.tiles[tile_index(w.player_pos.x as int, w.player_pos.y as int)] == TileType::Floor,
        -1 <= dx <= 1 && -1 <= dy <= 1,
        dx != 0 ==> !(0 <= w.player_pos.x + dx < MAP_WIDTH),
        dy != 0 ==> !(0 <= w.player_pos.y + dy < MAP_HEIGHT),
    ensures
        after_move(w, dx, dy) == (Move { world: w, mode: RunState::Game }),
{
    lemma_edge_absorbs(w, dx, dy);
}

/// Whatever the step, the player stays on the map.
pub proof fn lemma_move_stays_on_map(w: WorldView, dx: int, dy: int)
    requires
        w.wf(),
    ensures
        in_bounds(
            after_move(w, dx, dy).world.player_pos.x as int,
            after_move(w, dx, dy).world.player_pos.y as int,
        ),
{
    let (x, y) = step_target(w, dx, dy);
    assert(in_bounds(x, y));
    if w.map.tiles[tile_index(x, y)] == TileType::Portal {
        let p = open_portal_pred(w, x, y);
        if first_entity(p) is Some {
            lemma_first_found(p, first_entity(p)->0);
        }
    }
}

/// A portal keeps the place of the player and the current place in step: after the
/// player went through one, every player among the entities is in the current place, and
/// every other entity is where it was.
pub proof fn lemma_warp_keeps_the_player_in_place(w: WorldView, portal: usize, e: usize)
    requires
        w.belongs.contains_key(e),
    ensures
        warped(w, portal).current_place == w.portals[portal].target,
        w.players.contains_key(e) ==> warped(w, portal).belongs[e].domain == warped(
            w,
            portal,
        ).current_place,
        !w.players.contains_key(e) ==> warped(w, portal).belongs[e] == w.belongs[e],
{
}

/// Steps by `(delta_x, delta_y)` and returns the mode that the step leads to.
pub fn try_to_move_player(delta_x: i32, delta_y: i32, ecs: &mut World) -> (mode: RunState)
    requires
        old(ecs).wf(),
        i32::MIN <= old(ecs).player_pos.x + delta_x <= i32::MAX,
        i32::MIN <= old(ecs).player_pos.y + delta_y <= i32::MAX,
    ensures
        (Move { world: final(ecs)@, mode }) == after_move(
            old(ecs)@,
            delta_x as int,
            delta_y as int,
        ),
        final(ecs).wf(),
{
    let sum_x = ecs.player_pos.x + delta_x;
    let sum_y = ecs.player_pos.y + delta_y;
    let new_x = if sum_x < 0 {
        0
    } else if sum_x > MAP_WIDTH - 1 {
        MAP_WIDTH - 1
    } else {
        sum_x
    };
    let new_y = if sum_y < 0 {
        0
    } else if sum_y > MAP_HEIGHT - 1 {
        MAP_HEIGHT - 1
    } else {
        sum_y
    };
    match ecs.map.get_tile(new_x, new_y) {
        TileType::Floor => {
            ecs.player_pos = Point { x: new_x, y: new_y };
            RunState::Game
        },
        TileType::RequiresKey => {
            ecs.targeted_pos = TargetedPosition { x: new_x, y: new_y };
            RunState::UseInventory
        },
        TileType::Portal => {
            if let Some(e) = find_open_portal(ecs, new_x, new_y) {
                proof {
                    lemma_first_found(open_portal_pred(ecs@, new_x as int, new_y as int), e);
                }
                let portal = match ecs.portals.get(e) {
                    Some(portal) => *portal,
                    None => return RunState::Game,
                };
                ecs.current_place = portal.target;
                ecs.player_pos = Point { x: portal.warp_place.0, y: portal.warp_place.1 };
                move_players_to(ecs, portal.target);
            }
            RunState::Game
        },
        TileType::NPC => {
            ecs.targeted_pos = TargetedPosition { x: new_x, y: new_y };
            RunState::InteractNpc { index: 0 }
        },
        _ => RunState::Game,
    }
}

/// Acts on the key that was pressed while the player walks.
pub fn player_input(gs: &mut State, key: Option<Key>) -> (mode: RunState)
    requires
        old(gs).ecs.wf(),
    ensures
        (Move { world: final(gs).ecs@, mode }) == after_input(old(gs).ecs@, key),
        final(gs).ecs.wf(),
{
    match key {
        Some(Key::Up) => try_to_move_player(0, -1, &mut gs.ecs),
        Some(Key::Down) => try_to_move_player(0, 1, &mut gs.ecs),
        Some(Key::Left) => try_to_move_player(-1, 0, &mut gs.ecs),
        Some(Key::Right) => try_to_move_player(1, 0, &mut gs.ecs),
        Some(Key::Escape) => RunState::SaveGame,
        _ => RunState::Game,
    }
}

/// The first open portal of the current place on the tile `(x, y)`.
fn find_open_portal(ecs: &World, x: i32, y: i32) -> (found: Option<usize>)
    ensures
        found == first_entity(open_portal_pred(ecs@, x as int, y as int)),
{
    let ghost p = open_portal_pred(ecs@, x as int, y as int);
    let n = ecs.portals.bound();
    let mut e: usize = 0;
    while e < n
        invariant
            forall|f: usize| f < e ==> !#[trigger] p(f),
            forall|f: usize| ecs.portals@.contains_key(f) ==> f < n,
            p == open_portal_pred(ecs@, x as int, y as int),
        decreases n - e,
    {
        if ecs.portals.contains(e) && !ecs.requires_item.contains(e) {
            if let Some(bel) = ecs.belongs.get(e) {
                if let Some(pos) = ecs.positions.get(e) {
                    if bel.domain == ecs.current_place && pos.x == x && pos.y == y {
                        proof {
                            assert(p(e));
                            lemma_first_entity(p, e);
                        }
                        return Some(e);
                    }
                }
            }
        }
        e = e + 1;
    }
    proof {
        assert forall|f: usize| !#[trigger] p(f) by {
            if f >= n {
                assert(!ecs.portals@.contains_key(f));
            }
        }
        lemma_no_first_entity(p);
    }
    None
}

/// Moves every player among the entities to `place`.
fn move_players_to(ecs: &mut World, place: Place)
    ensures
        final(ecs)@ == (WorldView { belongs: with_players_in(old(ecs)@, place), ..old(ecs)@ }),
{
    let ghost w = ecs@;
    let n = ecs.players.bound();
    let mut e: usize = 0;
    while e < n
        invariant
            w == old(ecs)@,
            forall|f: usize| w.players.contains_key(f) ==> f < n,
            ecs@ == (WorldView { belongs: ecs@.belongs, ..w }),
            ecs@.belongs =~= Map::new(
                |k: usize| w.belongs.contains_key(k),
                |k: usize|
                    if k < e && w.players.contains_key(k) {
                        BelongsTo { domain: place }
                    } else {
                        w.belongs[k]
                    },
            ),
        decreases n - e,
    {
        if ecs.players.contains(e) && ecs.belongs.contains(e) {
            ecs.belongs.insert(e, BelongsTo { domain: place });
        }
        e = e + 1;
    }
    proof {
        assert(ecs@.belongs =~= with_players_in(w, place));
    }
}

} // verus!
