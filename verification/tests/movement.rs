use tarih_oyunu::components::{BelongsTo, Point, Position, TargetedPosition};
use tarih_oyunu::gui::Key;
use tarih_oyunu::items::ItemName;
use tarih_oyunu::map::{GameMap, Place, TileType};
use tarih_oyunu::player::{player_input, try_to_move_player};
use tarih_oyunu::spawner::{build_door, build_npc_human_one_liner, build_player, build_portal};
use tarih_oyunu::state::{RunState, State};
use tarih_oyunu::world::World;

fn home() -> State {
    let mut gs = State { ecs: World::new() };
    let player = build_player(&mut gs, String::from("Deniz"), (25, 20));
    gs.ecs.player_entity = player;
    gs.ecs.player_pos = Point { x: 25, y: 20 };
    gs.ecs.run_state = RunState::Game;
    gs.ecs.map = GameMap::new_map_rooms_and_corridors(&gs.ecs, Place::Home);
    gs
}

fn all_floor(gs: &mut State) {
    for tile in gs.ecs.map.tiles.iter_mut() {
        *tile = TileType::Floor;
    }
}

#[test]
fn step_onto_floor_moves_the_player() {
    let mut gs = home();
    assert_eq!(try_to_move_player(1, 0, &mut gs.ecs), RunState::Game);
    assert_eq!(gs.ecs.player_pos, Point { x: 26, y: 20 });
    assert_eq!(try_to_move_player(0, -1, &mut gs.ecs), RunState::Game);
    assert_eq!(gs.ecs.player_pos, Point { x: 26, y: 19 });
    assert_eq!(gs.ecs.targeted_pos, TargetedPosition { x: -1, y: -1 });
}

#[test]
fn wall_and_space_hold_the_player_back() {
    let mut gs = home();
    gs.ecs.player_pos = Point { x: 20, y: 15 };
    // (19, 15) is the wall of the room
    assert_eq!(try_to_move_player(-1, 0, &mut gs.ecs), RunState::Game);
    assert_eq!(gs.ecs.player_pos, Point { x: 20, y: 15 });
    gs.ecs.map.set_tile(20, 14, TileType::Space);
    assert_eq!(try_to_move_player(0, -1, &mut gs.ecs), RunState::Game);
    assert_eq!(gs.ecs.player_pos, Point { x: 20, y: 15 });
    assert_eq!(gs.ecs.targeted_pos, TargetedPosition { x: -1, y: -1 });
}

#[test]
fn every_edge_of_the_map_absorbs_the_step() {
    let mut gs = home();
    all_floor(&mut gs);
    let before = gs.ecs.map.tiles.clone();
    for (start, step) in [
        ((0, 7), (-1, 0)),
        ((54, 7), (1, 0)),
        ((7, 0), (0, -1)),
        ((7, 42), (0, 1)),
        ((0, 0), (-1, -1)),
        ((54, 42), (1, 1)),
    ] {
        gs.ecs.player_pos = Point { x: start.0, y: start.1 };
        let mode = try_to_move_player(step.0, step.1, &mut gs.ecs);
        assert_eq!(mode, RunState::Game);
        assert_eq!(gs.ecs.player_pos, Point { x: start.0, y: start.1 });
    }
    assert_eq!(gs.ecs.map.tiles, before);
    assert_eq!(gs.ecs.current_place, Place::Home);
    assert!(gs.ecs.log.entries.is_empty());
}

#[test]
fn long_step_is_held_at_the_edge() {
    let mut gs = home();
    all_floor(&mut gs);
    assert_eq!(try_to_move_player(1000, -1000, &mut gs.ecs), RunState::Game);
    assert_eq!(gs.ecs.player_pos, Point { x: 54, y: 0 });
    assert_eq!(try_to_move_player(-1000, 1000, &mut gs.ecs), RunState::Game);
    assert_eq!(gs.ecs.player_pos, Point { x: 0, y: 42 });
}

#[test]
fn portal_takes_the_player_to_its_far_end() {
    let mut gs = home();
    let portal = build_portal(
        &mut gs,
        String::from("Guney Kapisi"),
        Place::Home,
        (26, 20),
        Place::SchoolSouth,
        (12, 13),
    );
    gs.ecs.map = GameMap::new_map_rooms_and_corridors(&gs.ecs, Place::Home);

    let mode = try_to_move_player(1, 0, &mut gs.ecs);

    assert_eq!(mode, RunState::Game);
    assert_eq!(gs.ecs.current_place, Place::SchoolSouth);
    assert_eq!(gs.ecs.player_pos, Point { x: 12, y: 13 });
    let player = gs.ecs.player_entity;
    assert_eq!(gs.ecs.belongs.get(player), Some(&BelongsTo { domain: Place::SchoolSouth }));
    assert_eq!(gs.ecs.belongs.get(portal), Some(&BelongsTo { domain: Place::Home }));
    // the map is drawn anew by the next tick only
    assert_eq!(gs.ecs.map.place, Place::Home);
    gs.tick(None, false);
    assert_eq!(gs.ecs.map.place, Place::SchoolSouth);
    assert_eq!(gs.ecs.positions.get(player), Some(&Position { x: 12, y: 13 }));
}

#[test]
fn portal_tile_without_open_portal_changes_nothing() {
    let mut gs = home();
    // a portal of another place on the same tile, and a locked one of this place
    build_portal(&mut gs, String::from("Ev Kapisi"), Place::SchoolSouth, (26, 20), Place::Home, (21, 17));
    build_door(
        &mut gs,
        String::from("Bati Cikisi"),
        Place::Home,
        (26, 20),
        Place::Class,
        (21, 16),
        ItemName::OttomanKey1,
    );
    gs.ecs.map.set_tile(26, 20, TileType::Portal);

    let mode = try_to_move_player(1, 0, &mut gs.ecs);

    assert_eq!(mode, RunState::Game);
    assert_eq!(gs.ecs.current_place, Place::Home);
    assert_eq!(gs.ecs.player_pos, Point { x: 25, y: 20 });
    assert_eq!(gs.ecs.belongs.get(gs.ecs.player_entity), Some(&BelongsTo { domain: Place::Home }));
}

#[test]
fn first_open_portal_on_the_tile_is_taken() {
    let mut gs = home();
    build_portal(&mut gs, String::from("A"), Place::Home, (26, 20), Place::Class, (21, 16));
    build_portal(&mut gs, String::from("B"), Place::Home, (26, 20), Place::Library, (16, 16));
    gs.ecs.map = GameMap::new_map_rooms_and_corridors(&gs.ecs, Place::Home);
    try_to_move_player(1, 0, &mut gs.ecs);
    assert_eq!(gs.ecs.current_place, Place::Class);
    assert_eq!(gs.ecs.player_pos, Point { x: 21, y: 16 });
}

#[test]
fn npc_tile_starts_the_exchange() {
    let mut gs = home();
    build_npc_human_one_liner(&mut gs, "Efe", Place::Home, (25, 21), "Merhaba.");
    gs.ecs.map = GameMap::new_map_rooms_and_corridors(&gs.ecs, Place::Home);
    let mode = try_to_move_player(0, 1, &mut gs.ecs);
    assert_eq!(mode, RunState::InteractNpc { index: 0 });
    assert_eq!(gs.ecs.targeted_pos, TargetedPosition { x: 25, y: 21 });
    assert_eq!(gs.ecs.player_pos, Point { x: 25, y: 20 });
}

#[test]
fn keys_steer_the_player() {
    let mut gs = home();
    assert_eq!(player_input(&mut gs, Some(Key::Up)), RunState::Game);
    assert_eq!(gs.ecs.player_pos, Point { x: 25, y: 19 });
    assert_eq!(player_input(&mut gs, Some(Key::Down)), RunState::Game);
    assert_eq!(gs.ecs.player_pos, Point { x: 25, y: 20 });
    assert_eq!(player_input(&mut gs, Some(Key::Left)), RunState::Game);
    assert_eq!(gs.ecs.player_pos, Point { x: 24, y: 20 });
    assert_eq!(player_input(&mut gs, Some(Key::Right)), RunState::Game);
    assert_eq!(gs.ecs.player_pos, Point { x: 25, y: 20 });
    assert_eq!(player_input(&mut gs, Some(Key::Escape)), RunState::SaveGame);
    assert_eq!(player_input(&mut gs, Some(Key::Return)), RunState::Game);
    assert_eq!(player_input(&mut gs, Some(Key::Letter(3))), RunState::Game);
    assert_eq!(player_input(&mut gs, None), RunState::Game);
    assert_eq!(gs.ecs.player_pos, Point { x: 25, y: 20 });
}
