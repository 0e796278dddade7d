use tarih_oyunu::components::{
    Npc, Point, Position, SerializationHelper, SerializeMe, Stored, TargetedPosition,
};
use tarih_oyunu::items::ItemName;
use tarih_oyunu::map::{GameMap, Place, TileType};
use tarih_oyunu::npcs::NpcState;
use tarih_oyunu::save_load_system::{
    check_ids, export, export_plain, import, load_game, save_game, LoadError, Snapshot,
};
use tarih_oyunu::spawner::{
    build_active_item, build_door, build_dormant_door, build_dormant_item, build_npc_human,
    build_player,
};
use tarih_oyunu::state::{RunState, State};
use tarih_oyunu::store::Storage;
use tarih_oyunu::world::World;

fn game() -> State {
    let mut gs = State { ecs: World::new() };
    let player = build_player(&mut gs, String::from("Deniz"), (25, 20));
    gs.ecs.player_entity = player;
    gs.ecs.player_pos = Point { x: 25, y: 20 };
    build_door(
        &mut gs,
        String::from("Bati Cikisi"),
        Place::Home,
        (26, 20),
        Place::Class,
        (21, 16),
        ItemName::OttomanKey1,
    );
    build_dormant_door(
        &mut gs,
        String::from("Gizli Kapi"),
        Place::Home,
        (19, 20),
        Place::OttomanMain,
        (13, 11),
        ItemName::SecretGateKey,
        (20, 22),
        (19, 21),
        ItemName::SecretGateKey,
        TileType::Wall,
    );
    let npc = build_npc_human(
        &mut gs,
        "Taylan Hoca",
        Place::Home,
        (27, 20),
        vec![vec!["Merhabalar.", "Kitap?"], vec!["Tesekkurler!"]],
        Some(vec![ItemName::Book]),
        Some(vec![ItemName::SecretGateKey]),
        vec![0],
        vec![1],
        vec![1],
    );
    gs.ecs.npcs.insert(npc, Npc { state: NpcState::WantsItem });
    build_active_item(&mut gs, ItemName::Book, Place::Home, (24, 20), true);
    let key = build_dormant_item(&mut gs, ItemName::OttomanKey1);
    gs.ecs.stored.insert(key, Stored {});
    gs.ecs.map = GameMap::new_map_rooms_and_corridors(&gs.ecs, Place::Home);
    gs.ecs.run_state = RunState::Game;
    gs
}

fn components_of(world: &World, e: usize) -> String {
    format!(
        "{:?} {:?} {:?} {:?} {:?} {:?} {:?} {:?} {:?} {:?} {:?} {:?} {:?} {:?} {:?} {:?} {:?} {:?} {:?}",
        world.positions.get(e),
        world.renderables.get(e),
        world.players.get(e),
        world.names.get(e),
        world.items.get(e),
        world.stored.get(e),
        world.impassables.get(e),
        world.requires_item.get(e),
        world.contains_item.get(e),
        world.requires_items.get(e),
        world.contains_items.get(e),
        world.permanent_items.get(e),
        world.portals.get(e),
        world.belongs.get(e),
        world.npcs.get(e),
        world.interactions.get(e),
        world.dormant_positions.get(e),
        world.revealer_infos.get(e),
        world.markers.get(e),
    )
}

#[test]
fn save_lists_the_marked_entities_and_the_map() {
    let mut gs = game();
    let before: Vec<String> = (0..8).map(|e| components_of(&gs.ecs, e)).collect();
    let tiles = gs.ecs.map.tiles.clone();

    let snapshot = save_game(&mut gs.ecs);

    assert_eq!(
        snapshot.positions,
        vec![
            (0, Position { x: 25, y: 20 }),
            (1, Position { x: 26, y: 20 }),
            (3, Position { x: 27, y: 20 }),
            (4, Position { x: 24, y: 20 }),
        ]
    );
    assert_eq!(snapshot.stored, vec![(5, Stored {})]);
    assert_eq!(snapshot.names.len(), 6);
    assert_eq!(snapshot.names[3].0, 3);
    assert_eq!(snapshot.names[3].1.name, "Taylan Hoca");
    assert_eq!(snapshot.markers.len(), 7);
    assert_eq!(snapshot.markers[6], (6, SerializeMe {}));
    assert_eq!(snapshot.helpers.len(), 1);
    assert_eq!(snapshot.helpers[0].0, 6);
    assert_eq!(snapshot.helpers[0].1.map.tiles, tiles);
    assert_eq!(snapshot.helpers[0].1.map.place, Place::Home);
    assert_eq!(snapshot.interactions.len(), 1);
    assert_eq!(snapshot.interactions[0].1.dialogues.len(), 2);
    assert_eq!(snapshot.requires_items[0].1.items, vec![ItemName::Book]);
    assert!(snapshot.impassables.is_empty());

    // the world is as before: the entity that carried the map is gone, and its id is free
    let after: Vec<String> = (0..8).map(|e| components_of(&gs.ecs, e)).collect();
    assert_eq!(before, after);
    assert!(!gs.ecs.helpers.contains(6));
    assert!(!gs.ecs.markers.contains(6));
    assert!(!gs.ecs.belongs.contains(6));
    assert!(!gs.ecs.is_alive(6));
    assert_eq!(gs.ecs.entities, vec![true, true, true, true, true, true]);
    assert_eq!(gs.ecs.create_entity(), 6);
    assert_eq!(gs.ecs.map.tiles, tiles);
}

#[test]
fn unmarked_entities_are_not_saved() {
    let mut gs = game();
    let loose = gs.ecs.create_entity();
    gs.ecs.positions.insert(loose, Position { x: 1, y: 1 });
    let snapshot = save_game(&mut gs.ecs);
    assert!(snapshot.positions.iter().all(|(e, _)| *e != loose));
    assert_eq!(snapshot.helpers[0].0, loose + 1);
}

#[test]
fn world_comes_back_from_its_snapshot() {
    let mut gs = game();
    let snapshot = save_game(&mut gs.ecs);
    let saved: Vec<String> = (0..8).map(|e| components_of(&gs.ecs, e)).collect();
    let tiles = gs.ecs.map.tiles.clone();

    // play on: the player walks, takes the book and leaves home
    gs.tick(Some(tarih_oyunu::gui::Key::Left), false);
    gs.tick(None, false);
    assert!(gs.ecs.stored.contains(4));
    assert_eq!(gs.ecs.player_pos, Point { x: 24, y: 20 });
    gs.ecs.current_place = Place::Class;
    gs.tick(None, false);
    assert_eq!(gs.ecs.map.place, Place::Class);
    gs.ecs.targeted_pos = TargetedPosition { x: 3, y: 3 };
    let log = gs.ecs.log.entries.clone();
    assert_eq!(log, vec![String::from("Esyayi aldin: Kitap")]);

    assert_eq!(load_game(&mut gs.ecs, snapshot), Ok(()));

    let loaded: Vec<String> = (0..8).map(|e| components_of(&gs.ecs, e)).collect();
    assert_eq!(saved, loaded);
    assert_eq!(gs.ecs.current_place, Place::Home);
    assert_eq!(gs.ecs.map.place, Place::Home);
    assert_eq!(gs.ecs.map.tiles, tiles);
    assert_eq!((gs.ecs.map.width, gs.ecs.map.height), (55, 43));
    assert_eq!(gs.ecs.player_pos, Point { x: 25, y: 20 });
    assert_eq!(gs.ecs.player_entity, 0);
    assert_eq!(gs.ecs.entities, vec![true, true, true, true, true, true]);
    assert!(!gs.ecs.helpers.contains(6));
    // what is no component stays as it was
    assert_eq!(gs.ecs.log.entries, log);
    assert_eq!(gs.ecs.targeted_pos, TargetedPosition { x: 3, y: 3 });
    assert_eq!(gs.ecs.run_state, RunState::Game);
    assert!(gs.ecs.check());
}

#[test]
fn snapshot_loads_into_an_empty_world() {
    let mut gs = game();
    let snapshot = save_game(&mut gs.ecs);
    let mut fresh = World::new();
    assert_eq!(load_game(&mut fresh, snapshot), Ok(()));
    for e in 0..8 {
        assert_eq!(components_of(&fresh, e), components_of(&gs.ecs, e));
    }
    assert_eq!(fresh.player_pos, Point { x: 25, y: 20 });
    assert_eq!(fresh.map.tiles, gs.ecs.map.tiles);
    assert_eq!(fresh.entities, gs.ecs.entities);
    // a second save gives the same lists, and the map under the same id
    let again = save_game(&mut fresh);
    assert_eq!(again.helpers[0].0, 6);
    assert_eq!(again.positions.len(), 4);
}

#[test]
fn saving_again_and_again_uses_up_no_id() {
    let mut gs = game();
    for _ in 0..100 {
        let snapshot = save_game(&mut gs.ecs);
        assert_eq!(snapshot.helpers[0].0, 6);
        assert_eq!(load_game(&mut gs.ecs, snapshot), Ok(()));
        assert_eq!(gs.ecs.entities.len(), 6);
    }
    assert!(gs.ecs.check());
    assert_eq!(gs.ecs.players.ids(), vec![0]);
    assert!(gs.ecs.helpers.ids().is_empty());
}

#[test]
fn world_with_many_entities_comes_back() {
    let mut world = World::new();
    for _ in 0..70_000 {
        let e = world.create_entity();
        world.markers.insert(e, SerializeMe {});
    }
    world.positions.insert(69_999, Position { x: 3, y: 4 });
    world.players.insert(69_999, tarih_oyunu::components::Player {});
    let snapshot = save_game(&mut world);
    assert_eq!(snapshot.helpers[0].0, 70_000);
    assert_eq!(snapshot.markers.len(), 70_001);

    let mut fresh = World::new();
    fresh.positions.insert(5, Position { x: 1, y: 1 });
    assert_eq!(load_game(&mut fresh, snapshot), Ok(()));

    assert_eq!(fresh.entities.len(), 70_000);
    assert!(fresh.entities.iter().all(|alive| *alive));
    assert_eq!(fresh.markers.ids().len(), 70_000);
    assert_eq!(fresh.positions.ids(), vec![69_999]);
    assert_eq!(fresh.player_entity, 69_999);
    assert_eq!(fresh.player_pos, Point { x: 3, y: 4 });
    assert!(fresh.helpers.ids().is_empty());
    assert_eq!(world.entities.len(), 70_000);
}

fn snapshot_of_game() -> Snapshot {
    save_game(&mut game().ecs)
}

fn load_fails(snapshot: Snapshot, error: LoadError) {
    let mut gs = game();
    gs.ecs.log.push(String::from("x"));
    let before: Vec<String> = (0..8).map(|e| components_of(&gs.ecs, e)).collect();
    assert_eq!(load_game(&mut gs.ecs, snapshot), Err(error));
    let after: Vec<String> = (0..8).map(|e| components_of(&gs.ecs, e)).collect();
    assert_eq!(before, after);
    assert_eq!(gs.ecs.log.entries, vec![String::from("x")]);
    assert_eq!(gs.ecs.entities.len(), 6);
}

#[test]
fn snapshot_without_a_map_is_refused() {
    let mut snapshot = snapshot_of_game();
    snapshot.helpers.clear();
    load_fails(snapshot, LoadError::NoMap);
}

#[test]
fn snapshot_with_two_maps_is_refused() {
    let mut snapshot = snapshot_of_game();
    snapshot.helpers.push((2, SerializationHelper { map: GameMap::blank(Place::Class) }));
    load_fails(snapshot, LoadError::NoMap);
}

#[test]
fn snapshot_with_an_id_above_the_map_is_refused() {
    let mut snapshot = snapshot_of_game();
    snapshot.stored.push((7, Stored {}));
    load_fails(snapshot, LoadError::OutOfRange);
    let mut snapshot = snapshot_of_game();
    snapshot.helpers[0].0 = 5;
    load_fails(snapshot, LoadError::OutOfRange);
    // the map may stand at any id that is no lower than the others
    let mut snapshot = snapshot_of_game();
    snapshot.helpers[0].0 = 100_000;
    let mut fresh = World::new();
    assert_eq!(load_game(&mut fresh, snapshot), Ok(()));
    assert_eq!(fresh.entities.len(), 100_000);
    assert!(!fresh.helpers.contains(100_000));
    assert!(fresh.is_alive(5));
    // what was marked under the id 6 is an entity like any other now
    assert!(fresh.is_alive(6));
    assert!(!fresh.is_alive(7));
    assert!(!fresh.is_alive(99_999));
}

#[test]
fn snapshot_of_an_unsound_world_is_refused() {
    let mut snapshot = snapshot_of_game();
    snapshot.positions[1].1 = Position { x: 55, y: 0 };
    load_fails(snapshot, LoadError::Unsound);
    let mut snapshot = snapshot_of_game();
    snapshot.helpers[0].1.map.tiles.pop();
    load_fails(snapshot, LoadError::Unsound);
    let mut snapshot = snapshot_of_game();
    snapshot.names.remove(5);
    load_fails(snapshot, LoadError::Unsound);
}

#[test]
fn later_pair_overrules_an_earlier_one() {
    let mut storage: Storage<Position> = Storage::new();
    storage.insert(9, Position { x: 9, y: 9 });
    import(
        &mut storage,
        vec![
            (2, Position { x: 1, y: 1 }),
            (0, Position { x: 2, y: 2 }),
            (2, Position { x: 3, y: 3 }),
        ],
    );
    assert_eq!(storage.get(0), Some(&Position { x: 2, y: 2 }));
    assert_eq!(storage.get(2), Some(&Position { x: 3, y: 3 }));
    assert!(!storage.contains(1));
    assert!(!storage.contains(9));
}

#[test]
fn export_lists_marked_components_by_id() {
    let mut positions: Storage<Position> = Storage::new();
    let mut markers: Storage<SerializeMe> = Storage::new();
    positions.insert(4, Position { x: 4, y: 4 });
    positions.insert(1, Position { x: 1, y: 1 });
    positions.insert(2, Position { x: 2, y: 2 });
    markers.insert(4, SerializeMe {});
    markers.insert(1, SerializeMe {});
    markers.insert(3, SerializeMe {});
    assert_eq!(
        export_plain(&positions, &markers),
        vec![(1, Position { x: 1, y: 1 }), (4, Position { x: 4, y: 4 })]
    );
    let mut names: Storage<tarih_oyunu::components::Name> = Storage::new();
    names.insert(3, tarih_oyunu::components::Name { name: String::from("c") });
    names.insert(0, tarih_oyunu::components::Name { name: String::from("a") });
    let pairs = export(&names, &markers);
    assert_eq!(pairs.len(), 1);
    assert_eq!(pairs[0].0, 3);
    assert_eq!(pairs[0].1.name, "c");
}

#[test]
fn check_ids_compares_every_id() {
    let pairs = vec![(0, Stored {}), (5, Stored {}), (3, Stored {})];
    assert!(check_ids(&pairs, 5));
    assert!(check_ids(&pairs, usize::MAX));
    assert!(!check_ids(&pairs, 4));
    assert!(check_ids(&Vec::<(usize, Stored)>::new(), 0));
    let snapshot = snapshot_of_game();
    assert!(snapshot.check_ids(6));
    assert!(snapshot.check_ids(usize::MAX));
    assert!(!snapshot.check_ids(5));
}

#[test]
fn place_comes_back_though_the_map_is_of_another_place() {
    let mut gs = game();
    // the player went through a portal, and the map is not drawn anew yet
    gs.ecs.current_place = Place::Class;
    assert_eq!(gs.ecs.map.place, Place::Home);
    let tiles = gs.ecs.map.tiles.clone();
    let snapshot = save_game(&mut gs.ecs);
    assert_eq!(snapshot.belongs.last().map(|(e, b)| (*e, b.domain)), Some((6, Place::Class)));
    assert!(!gs.ecs.belongs.contains(6));

    let mut fresh = World::new();
    fresh.current_place = Place::Library;
    assert_eq!(load_game(&mut fresh, snapshot), Ok(()));

    assert_eq!(fresh.current_place, Place::Class);
    assert_eq!(fresh.map.place, Place::Home);
    assert_eq!(fresh.map.tiles, tiles);
    assert!(!fresh.belongs.contains(6));
    for e in 0..8 {
        assert_eq!(components_of(&fresh, e), components_of(&gs.ecs, e));
    }
}

#[test]
fn snapshot_without_a_place_takes_the_place_of_its_map() {
    let mut snapshot = snapshot_of_game();
    let helper = snapshot.helpers[0].0;
    snapshot.belongs.retain(|(e, _)| *e != helper);
    snapshot.helpers[0].1.map.place = Place::OttomanTop;
    let mut fresh = World::new();
    assert_eq!(load_game(&mut fresh, snapshot), Ok(()));
    assert_eq!(fresh.current_place, Place::OttomanTop);
}

#[test]
fn every_component_type_comes_back() {
    let mut gs = game();
    let door = 2;
    let npc = 3;
    assert!(gs.ecs.dormant_positions.contains(door));
    assert!(gs.ecs.revealer_infos.contains(door));
    let snapshot = save_game(&mut gs.ecs);
    let mut fresh = World::new();
    assert_eq!(load_game(&mut fresh, snapshot), Ok(()));
    assert_eq!(fresh.dormant_positions.get(door), gs.ecs.dormant_positions.get(door));
    assert_eq!(fresh.revealer_infos.get(door), gs.ecs.revealer_infos.get(door));
    assert_eq!(fresh.requires_items.get(npc).unwrap().items, vec![ItemName::Book]);
    assert_eq!(fresh.contains_items.get(npc).unwrap().items, vec![ItemName::SecretGateKey]);
    assert_eq!(fresh.interactions.get(npc).unwrap().give_item_indices, vec![1]);
    assert_eq!(fresh.player_entity, 0);
    assert_eq!(fresh.players.ids(), vec![0]);
    assert_eq!(fresh.markers.ids(), vec![0, 1, 2, 3, 4, 5]);
}

#[test]
fn unmarked_entity_does_not_come_back() {
    let mut gs = game();
    let loose = gs.ecs.create_entity();
    gs.ecs.positions.insert(loose, Position { x: 1, y: 1 });
    let snapshot = save_game(&mut gs.ecs);
    let mut fresh = World::new();
    assert_eq!(load_game(&mut fresh, snapshot), Ok(()));
    assert!(!fresh.positions.contains(loose));
    assert!(!fresh.is_alive(loose));
    for e in 0..6 {
        assert_eq!(components_of(&fresh, e), components_of(&gs.ecs, e));
    }
}
