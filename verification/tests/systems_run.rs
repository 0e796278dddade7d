use tarih_oyunu::components::{Point, Position, Renderable, Rgb, Stored, TargetedPosition};
use tarih_oyunu::items::ItemName;
use tarih_oyunu::map::{GameMap, Place, TileType};
use tarih_oyunu::spawner::{
    build_active_item, build_door, build_dormant_door, build_dormant_item,
    build_npc_human_one_liner, build_player, build_portal,
};
use tarih_oyunu::state::{RunState, State};
use tarih_oyunu::systems::{
    DoorRevealSystem, GameStateAdjustmentSystem, ItemAdjustmentSystem, ItemCollectionSystem,
    ItemCombinationSystem, Recipe,
};
use tarih_oyunu::world::World;

fn home() -> State {
    let mut gs = State { ecs: World::new() };
    let player = build_player(&mut gs, String::from("Deniz"), (25, 20));
    gs.ecs.player_entity = player;
    gs.ecs.player_pos = Point { x: 25, y: 20 };
    gs.ecs.run_state = RunState::Game;
    gs.ecs.map = GameMap::new_map_rooms_and_corridors(&gs.ecs, Place::Home);
    gs
}

#[test]
fn collection_takes_what_lies_under_the_player() {
    let mut gs = home();
    let here = build_active_item(&mut gs, ItemName::Book, Place::Home, (25, 20), true);
    let there = build_active_item(&mut gs, ItemName::Book, Place::Home, (26, 20), true);
    let elsewhere = build_active_item(&mut gs, ItemName::OttomanKey1, Place::Class, (25, 20), false);
    let also_here = build_active_item(&mut gs, ItemName::OttomanKey2, Place::Home, (25, 20), false);

    ItemCollectionSystem {}.run(&mut gs.ecs);

    assert!(gs.ecs.stored.contains(here));
    assert!(gs.ecs.stored.contains(also_here));
    assert!(!gs.ecs.positions.contains(here));
    assert!(!gs.ecs.positions.contains(also_here));
    assert!(!gs.ecs.stored.contains(there));
    assert!(!gs.ecs.stored.contains(elsewhere));
    assert_eq!(gs.ecs.positions.get(there), Some(&Position { x: 26, y: 20 }));
    assert_eq!(gs.ecs.positions.get(elsewhere), Some(&Position { x: 25, y: 20 }));
    assert_eq!(
        gs.ecs.log.entries,
        vec![String::from("Esyayi aldin: Kitap"), String::from("Esyayi aldin: Kuzey Anahtari")]
    );
    // the player is no item and stays on the map
    assert!(gs.ecs.positions.contains(gs.ecs.player_entity));
    assert!(gs.ecs.permanent_items.contains(here));
}

#[test]
fn adjustment_paints_open_portals_only() {
    let mut gs = home();
    let door = build_door(
        &mut gs,
        String::from("Bati Cikisi"),
        Place::Home,
        (26, 20),
        Place::Class,
        (21, 16),
        ItemName::OttomanKey1,
    );
    let portal = build_portal(&mut gs, String::from("Kapi"), Place::Home, (27, 20), Place::Class, (21, 16));
    let player_look = *gs.ecs.renderables.get(gs.ecs.player_entity).unwrap();
    assert_eq!(gs.ecs.renderables.get(door).unwrap().fg, Rgb { r: 70, g: 200, b: 200 });

    ItemAdjustmentSystem {}.run(&mut gs.ecs);
    assert_eq!(gs.ecs.renderables.get(door).unwrap().fg, Rgb { r: 70, g: 200, b: 200 });
    assert_eq!(gs.ecs.renderables.get(portal).unwrap().fg, Rgb { r: 21, g: 246, b: 111 });
    assert_eq!(gs.ecs.renderables.get(gs.ecs.player_entity), Some(&player_look));

    gs.ecs.requires_item.remove(door);
    ItemAdjustmentSystem {}.run(&mut gs.ecs);
    assert_eq!(
        gs.ecs.renderables.get(door),
        Some(&Renderable {
            glyph: 234,
            fg: Rgb { r: 21, g: 246, b: 111 },
            bg: Rgb { r: 0, g: 0, b: 0 },
            render_order: 1
        })
    );
}

fn with_secret_door(gs: &mut State) -> usize {
    build_dormant_door(
        gs,
        String::from("Gizli Kapi"),
        Place::Home,
        (19, 20),
        Place::OttomanMain,
        (13, 11),
        ItemName::SecretGateKey,
        (20, 22),
        (19, 21),
        ItemName::SecretGateKey,
        TileType::Wall,
    )
}

#[test]
fn reveal_needs_zone_and_item() {
    let mut gs = home();
    let door = with_secret_door(&mut gs);
    gs.ecs.map = GameMap::new_map_rooms_and_corridors(&gs.ecs, Place::Home);
    assert_eq!(gs.ecs.map.get_tile(19, 20), TileType::Wall);
    let key = build_dormant_item(&mut gs, ItemName::SecretGateKey);

    // in the zone, without the item
    gs.ecs.player_pos = Point { x: 21, y: 20 };
    DoorRevealSystem {}.run(&mut gs.ecs);
    assert!(!gs.ecs.positions.contains(door));
    assert_eq!(gs.ecs.map.get_tile(19, 20), TileType::Wall);

    // with the item, outside the zone
    gs.ecs.stored.insert(key, Stored {});
    gs.ecs.player_pos = Point { x: 23, y: 20 };
    DoorRevealSystem {}.run(&mut gs.ecs);
    assert!(!gs.ecs.positions.contains(door));

    // with the item, on each corner of the zone
    for (x, y) in [(20, 19), (22, 19), (20, 21), (22, 21)] {
        gs.ecs.positions.remove(door);
        gs.ecs.player_pos = Point { x, y };
        DoorRevealSystem {}.run(&mut gs.ecs);
        assert_eq!(gs.ecs.positions.get(door), Some(&Position { x: 19, y: 20 }));
        assert_eq!(gs.ecs.map.get_tile(19, 20), TileType::RequiresKey);
    }
    assert!(gs.ecs.dormant_positions.contains(door));
}

#[test]
fn revealed_door_hides_again() {
    let mut gs = home();
    let door = with_secret_door(&mut gs);
    gs.ecs.map = GameMap::new_map_rooms_and_corridors(&gs.ecs, Place::Home);
    let key = build_dormant_item(&mut gs, ItemName::SecretGateKey);
    gs.ecs.stored.insert(key, Stored {});
    gs.ecs.player_pos = Point { x: 20, y: 20 };
    DoorRevealSystem {}.run(&mut gs.ecs);
    assert!(gs.ecs.positions.contains(door));

    // a second run changes nothing
    let tiles = gs.ecs.map.tiles.clone();
    DoorRevealSystem {}.run(&mut gs.ecs);
    assert!(gs.ecs.positions.contains(door));
    assert_eq!(gs.ecs.map.tiles, tiles);

    // the player leaves the zone
    gs.ecs.player_pos = Point { x: 20, y: 22 };
    DoorRevealSystem {}.run(&mut gs.ecs);
    assert!(!gs.ecs.positions.contains(door));
    assert!(gs.ecs.dormant_positions.contains(door));
    assert_eq!(gs.ecs.map.get_tile(19, 20), TileType::Wall);

    // back in the zone, but the item is gone
    gs.ecs.player_pos = Point { x: 20, y: 20 };
    DoorRevealSystem {}.run(&mut gs.ecs);
    assert!(gs.ecs.positions.contains(door));
    gs.ecs.stored.remove(key);
    DoorRevealSystem {}.run(&mut gs.ecs);
    assert!(!gs.ecs.positions.contains(door));
    assert_eq!(gs.ecs.map.get_tile(19, 20), TileType::Wall);
}

#[test]
fn revealed_door_of_another_place_is_left_alone() {
    let mut gs = home();
    let door = with_secret_door(&mut gs);
    let key = build_dormant_item(&mut gs, ItemName::SecretGateKey);
    gs.ecs.stored.insert(key, Stored {});
    gs.ecs.player_pos = Point { x: 20, y: 20 };
    DoorRevealSystem {}.run(&mut gs.ecs);
    assert!(gs.ecs.positions.contains(door));

    // the player is in another place, outside the zone and without the item
    gs.ecs.current_place = Place::Class;
    gs.ecs.map = GameMap::new_map_rooms_and_corridors(&gs.ecs, Place::Class);
    gs.ecs.player_pos = Point { x: 30, y: 17 };
    gs.ecs.stored.remove(key);
    let tiles = gs.ecs.map.tiles.clone();
    DoorRevealSystem {}.run(&mut gs.ecs);
    assert_eq!(gs.ecs.positions.get(door), Some(&Position { x: 19, y: 20 }));
    assert_eq!(gs.ecs.map.tiles, tiles);
}

#[test]
fn door_of_another_place_stays_hidden() {
    let mut gs = home();
    let door = with_secret_door(&mut gs);
    let key = build_dormant_item(&mut gs, ItemName::SecretGateKey);
    gs.ecs.stored.insert(key, Stored {});
    gs.ecs.player_pos = Point { x: 20, y: 20 };
    gs.ecs.current_place = Place::Class;
    DoorRevealSystem {}.run(&mut gs.ecs);
    assert!(!gs.ecs.positions.contains(door));
}

#[test]
fn positions_are_exclusive_for_unseen_doors_after_a_tick() {
    let mut gs = home();
    let door = with_secret_door(&mut gs);
    // the door is on the map though nothing reveals it
    gs.ecs.positions.insert(door, Position { x: 19, y: 20 });
    gs.tick(None, false);
    assert!(gs.ecs.dormant_positions.contains(door));
    assert!(!gs.ecs.positions.contains(door));
}

fn hold(gs: &mut State, name: ItemName) -> usize {
    let e = build_dormant_item(gs, name);
    gs.ecs.stored.insert(e, Stored {});
    e
}

#[test]
fn combination_needs_every_part() {
    let mut gs = home();
    let poem = hold(&mut gs, ItemName::OttomanRewardPoem);
    let cover = hold(&mut gs, ItemName::OttomanRewardBookCover);
    let book = build_dormant_item(&mut gs, ItemName::OttomanCombinedRewardPoemBook);
    ItemCombinationSystem {}.run(&mut gs.ecs);
    assert!(gs.ecs.stored.contains(poem));
    assert!(gs.ecs.stored.contains(cover));
    assert!(!gs.ecs.stored.contains(book));
    assert!(gs.ecs.log.entries.is_empty());
}

#[test]
fn combination_twice_is_combination_once() {
    let mut gs = home();
    let parts = [
        hold(&mut gs, ItemName::OttomanRewardMosquePart1),
        hold(&mut gs, ItemName::OttomanRewardMosquePart2),
        hold(&mut gs, ItemName::OttomanRewardNotePaper),
        hold(&mut gs, ItemName::OttomanRewardCanvas),
        hold(&mut gs, ItemName::OttomanRewardClay),
    ];
    let glue = hold(&mut gs, ItemName::OttomanRewardGlue);
    let model = build_dormant_item(&mut gs, ItemName::OttomanCombinedRewardMosqueModel);
    let collage = build_dormant_item(&mut gs, ItemName::OttomanCombinedRewardWeirdCollage);
    let book = build_dormant_item(&mut gs, ItemName::OttomanCombinedRewardPoemBook);

    ItemCombinationSystem {}.run(&mut gs.ecs);

    let held = |gs: &State| -> Vec<usize> { (0..20).filter(|e| gs.ecs.stored.contains(*e)).collect() };
    assert_eq!(held(&gs), vec![glue, model, collage]);
    for part in parts {
        assert!(!gs.ecs.stored.contains(part));
    }
    assert!(!gs.ecs.stored.contains(book));
    assert_eq!(
        gs.ecs.log.entries,
        vec![
            String::from("Yeni Esya Urettin: Cami Maketi"),
            String::from("Yeni Esya Urettin: Garip Kolaj"),
        ]
    );

    ItemCombinationSystem {}.run(&mut gs.ecs);

    assert_eq!(held(&gs), vec![glue, model, collage]);
    assert_eq!(gs.ecs.log.entries.len(), 2);
}

#[test]
fn recipes_name_their_parts_and_products() {
    assert!(Recipe::PoemBook.is_part(ItemName::OttomanRewardPoem));
    assert!(Recipe::PoemBook.is_part(ItemName::OttomanRewardBookCover));
    assert!(Recipe::PoemBook.is_part(ItemName::OttomanRewardGlue));
    assert!(!Recipe::PoemBook.is_part(ItemName::OttomanRewardClay));
    assert!(!Recipe::PoemBook.is_part(ItemName::OttomanCombinedRewardPoemBook));
    assert!(Recipe::MosqueModel.is_part(ItemName::OttomanRewardMosquePart1));
    assert!(Recipe::MosqueModel.is_part(ItemName::OttomanRewardMosquePart2));
    assert!(!Recipe::MosqueModel.is_part(ItemName::OttomanRewardGlue));
    assert!(Recipe::WeirdCollage.is_part(ItemName::OttomanRewardNotePaper));
    assert!(Recipe::WeirdCollage.is_part(ItemName::OttomanRewardCanvas));
    assert!(Recipe::WeirdCollage.is_part(ItemName::OttomanRewardClay));
    assert!(!Recipe::WeirdCollage.is_part(ItemName::Book));
    assert_eq!(Recipe::PoemBook.result(), ItemName::OttomanCombinedRewardPoemBook);
    assert_eq!(Recipe::MosqueModel.result(), ItemName::OttomanCombinedRewardMosqueModel);
    assert_eq!(Recipe::WeirdCollage.result(), ItemName::OttomanCombinedRewardWeirdCollage);
}

#[test]
fn parts_in_any_order_over_several_ticks() {
    for order in [[0, 1, 2], [2, 0, 1], [1, 2, 0]] {
        let mut gs = home();
        let names =
            [ItemName::OttomanRewardNotePaper, ItemName::OttomanRewardCanvas, ItemName::OttomanRewardClay];
        let collage = build_dormant_item(&mut gs, ItemName::OttomanCombinedRewardWeirdCollage);
        let mut parts = Vec::new();
        for (k, i) in order.iter().enumerate() {
            let part = build_dormant_item(&mut gs, names[*i]);
            gs.ecs.stored.insert(part, Stored {});
            parts.push(part);
            gs.run_systems();
            assert_eq!(gs.ecs.stored.contains(collage), k == 2);
        }
        for part in parts {
            assert!(!gs.ecs.stored.contains(part));
        }
        assert_eq!(gs.ecs.log.entries, vec![String::from("Yeni Esya Urettin: Garip Kolaj")]);
    }
}

#[test]
fn engagement_begins_with_an_npc_on_the_target() {
    let mut gs = home();
    build_npc_human_one_liner(&mut gs, "Efe", Place::Home, (26, 20), "Merhaba.");
    GameStateAdjustmentSystem {}.run(&mut gs.ecs);
    assert_eq!(gs.ecs.run_state, RunState::Game);
    gs.ecs.targeted_pos = TargetedPosition { x: 27, y: 20 };
    GameStateAdjustmentSystem {}.run(&mut gs.ecs);
    assert_eq!(gs.ecs.run_state, RunState::Game);
    gs.ecs.targeted_pos = TargetedPosition { x: 26, y: 20 };
    GameStateAdjustmentSystem {}.run(&mut gs.ecs);
    assert_eq!(gs.ecs.run_state, RunState::InteractNpc { index: 0 });
}

#[test]
fn systems_run_in_their_order() {
    // the part that is picked up in this tick completes the recipe in this tick
    let mut gs = home();
    hold(&mut gs, ItemName::OttomanRewardMosquePart1);
    let part = build_active_item(&mut gs, ItemName::OttomanRewardMosquePart2, Place::Home, (25, 20), false);
    let model = build_dormant_item(&mut gs, ItemName::OttomanCombinedRewardMosqueModel);
    gs.run_systems();
    assert!(gs.ecs.stored.contains(model));
    assert!(!gs.ecs.stored.contains(part));
    assert_eq!(
        gs.ecs.log.entries,
        vec![
            String::from("Esyayi aldin: Cami Maketi Parcasi 2"),
            String::from("Yeni Esya Urettin: Cami Maketi"),
        ]
    );
}
