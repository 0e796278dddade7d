use tarih_oyunu::components::{
    BelongsTo, DormantPosition, Item, Npc, PermanentItem, Player, Point, Portal, Position,
    Renderable, RequiresItem, RevealerInformation, Rgb, SerializeMe, Stored,
};
use tarih_oyunu::gui::{
    draw_enter_name, draw_main_menu, draw_use_item, inventory, keycode_to_char, tooltips,
    ItemMenuResult, Key, MainMenuResult, MainMenuSelection,
};
use tarih_oyunu::items::ItemName;
use tarih_oyunu::map::{Place, TileType};
use tarih_oyunu::npcs::NpcState;
use tarih_oyunu::spawner::{
    build_active_item, build_active_item_with, build_door, build_door_or_portal, build_dormant_door,
    build_dormant_door_with, build_dormant_item, build_npc, build_npc_cat, build_npc_dog,
    build_npc_human, build_npc_human_one_liner, build_npc_one_liner, build_player,
    build_player_with, build_portal, DormantDoor, NpcKit,
};
use tarih_oyunu::state::{Request, RunState, State};
use tarih_oyunu::world::World;

fn empty() -> State {
    State { ecs: World::new() }
}

fn menu(selected: MainMenuSelection) -> State {
    let mut gs = empty();
    gs.ecs.run_state = RunState::Menu { menu_selection: selected };
    gs
}

const NEW: MainMenuSelection = MainMenuSelection::NewGame;
const LOAD: MainMenuSelection = MainMenuSelection::LoadGame;
const QUIT: MainMenuSelection = MainMenuSelection::QuitGame;
const CREDITS: MainMenuSelection = MainMenuSelection::Credits;

#[test]
fn menu_goes_round_without_a_save() {
    for (from, up, down) in [(NEW, CREDITS, QUIT), (QUIT, NEW, CREDITS), (CREDITS, QUIT, NEW)] {
        let gs = menu(from);
        assert_eq!(
            draw_main_menu(&gs, Some(Key::Up), false),
            MainMenuResult::NoSelection { selected: up }
        );
        assert_eq!(
            draw_main_menu(&gs, Some(Key::Down), false),
            MainMenuResult::NoSelection { selected: down }
        );
    }
}

#[test]
fn menu_goes_round_with_a_save() {
    for (from, up, down) in
        [(NEW, CREDITS, LOAD), (LOAD, NEW, QUIT), (QUIT, LOAD, CREDITS), (CREDITS, QUIT, NEW)]
    {
        let gs = menu(from);
        assert_eq!(
            draw_main_menu(&gs, Some(Key::Up), true),
            MainMenuResult::NoSelection { selected: up }
        );
        assert_eq!(
            draw_main_menu(&gs, Some(Key::Down), true),
            MainMenuResult::NoSelection { selected: down }
        );
    }
}

#[test]
fn menu_return_selects_and_other_keys_do_nothing() {
    let gs = menu(QUIT);
    assert_eq!(draw_main_menu(&gs, Some(Key::Return), true), MainMenuResult::Selected { selected: QUIT });
    assert_eq!(draw_main_menu(&gs, None, true), MainMenuResult::NoSelection { selected: QUIT });
    assert_eq!(
        draw_main_menu(&gs, Some(Key::Letter(0)), true),
        MainMenuResult::NoSelection { selected: QUIT }
    );
    let mut playing = empty();
    playing.ecs.run_state = RunState::Game;
    assert_eq!(
        draw_main_menu(&playing, Some(Key::Return), true),
        MainMenuResult::NoSelection { selected: NEW }
    );
}

#[test]
fn tick_in_the_menu_follows_the_selection() {
    let mut gs = menu(NEW);
    assert_eq!(gs.tick(Some(Key::Down), true), Request::Nothing);
    assert_eq!(gs.ecs.run_state, RunState::Menu { menu_selection: LOAD });
    assert_eq!(gs.tick(Some(Key::Return), true), Request::LoadGame);
    assert_eq!(gs.ecs.run_state, RunState::Game);

    let mut gs = menu(QUIT);
    assert_eq!(gs.tick(Some(Key::Return), false), Request::Quit);
    assert_eq!(gs.ecs.run_state, RunState::Menu { menu_selection: QUIT });

    let mut gs = menu(CREDITS);
    assert_eq!(gs.tick(Some(Key::Return), false), Request::Nothing);
    assert_eq!(gs.ecs.run_state, RunState::Credits);
    assert_eq!(gs.tick(None, false), Request::Nothing);
    assert_eq!(gs.ecs.run_state, RunState::Credits);
    assert_eq!(gs.tick(Some(Key::Other), false), Request::Nothing);
    assert_eq!(gs.ecs.run_state, RunState::Menu { menu_selection: CREDITS });

    let mut gs = menu(NEW);
    assert_eq!(gs.tick(Some(Key::Return), false), Request::Nothing);
    assert_eq!(gs.ecs.run_state, RunState::EnterName);
}

#[test]
fn tick_asks_to_save_and_returns_to_the_menu() {
    let mut gs = empty();
    gs.ecs.run_state = RunState::Game;
    assert_eq!(gs.tick(Some(Key::Escape), false), Request::Nothing);
    assert_eq!(gs.ecs.run_state, RunState::SaveGame);
    assert_eq!(gs.tick(None, false), Request::SaveGame);
    assert_eq!(gs.ecs.run_state, RunState::Menu { menu_selection: LOAD });
}

#[test]
fn letter_keys_give_upper_case_letters() {
    assert_eq!(keycode_to_char(Some(Key::Letter(0))), Some('A'));
    assert_eq!(keycode_to_char(Some(Key::Letter(7))), Some('H'));
    assert_eq!(keycode_to_char(Some(Key::Letter(25))), Some('Z'));
    assert_eq!(keycode_to_char(Some(Key::Letter(26))), None);
    assert_eq!(keycode_to_char(Some(Key::Letter(255))), None);
    assert_eq!(keycode_to_char(Some(Key::Return)), None);
    assert_eq!(keycode_to_char(Some(Key::Delete)), None);
    assert_eq!(keycode_to_char(None), None);
}

#[test]
fn name_is_typed_letter_by_letter() {
    let mut world = World::new();
    assert!(!draw_enter_name(&mut world, Some(Key::Letter(3))));
    assert!(!draw_enter_name(&mut world, Some(Key::Letter(4))));
    assert!(!draw_enter_name(&mut world, Some(Key::Letter(13))));
    assert_eq!(world.player_name.name, "DEN");
    assert!(!draw_enter_name(&mut world, Some(Key::Delete)));
    assert_eq!(world.player_name.name, "DE");
    assert!(!draw_enter_name(&mut world, Some(Key::Up)));
    assert!(!draw_enter_name(&mut world, Some(Key::Letter(26))));
    assert!(!draw_enter_name(&mut world, None));
    assert_eq!(world.player_name.name, "DE");
    assert!(draw_enter_name(&mut world, Some(Key::Return)));
    assert_eq!(world.player_name.name, "DE");
    draw_enter_name(&mut world, Some(Key::Delete));
    draw_enter_name(&mut world, Some(Key::Delete));
    assert_eq!(world.player_name.name, "");
    assert!(!draw_enter_name(&mut world, Some(Key::Delete)));
    assert_eq!(world.player_name.name, "");
}

#[test]
fn typed_name_is_given_to_the_player() {
    let mut gs = empty();
    let player = build_player(&mut gs, String::new(), (25, 20));
    let other = build_dormant_item(&mut gs, ItemName::Book);
    gs.ecs.run_state = RunState::EnterName;
    gs.tick(Some(Key::Letter(0)), false);
    gs.tick(Some(Key::Letter(11)), false);
    gs.tick(Some(Key::Letter(8)), false);
    assert_eq!(gs.ecs.run_state, RunState::EnterName);
    assert_eq!(gs.ecs.names.get(player).unwrap().name, "");
    gs.tick(Some(Key::Return), false);
    assert_eq!(gs.ecs.run_state, RunState::Game);
    assert_eq!(gs.ecs.names.get(player).unwrap().name, "ALI");
    assert_eq!(gs.ecs.names.get(other).unwrap().name, "Kitap");
}

fn with_three_items() -> (State, [usize; 3]) {
    let mut gs = empty();
    let a = build_dormant_item(&mut gs, ItemName::OttomanKey2);
    let b = build_dormant_item(&mut gs, ItemName::Book);
    let c = build_dormant_item(&mut gs, ItemName::OttomanRewardClay);
    let d = build_dormant_item(&mut gs, ItemName::Book);
    gs.ecs.stored.insert(d, Stored {});
    gs.ecs.stored.insert(a, Stored {});
    gs.ecs.stored.insert(c, Stored {});
    // stored, but no item
    gs.ecs.stored.insert(40, Stored {});
    let _ = b;
    (gs, [a, c, d])
}

#[test]
fn inventory_lists_held_items_by_id() {
    let (gs, _) = with_three_items();
    assert_eq!(
        inventory(&gs.ecs),
        vec![ItemName::OttomanKey2, ItemName::OttomanRewardClay, ItemName::Book]
    );
    assert!(inventory(&World::new()).is_empty());
}

#[test]
fn letter_selects_an_item_of_the_inventory() {
    let (gs, _) = with_three_items();
    assert_eq!(draw_use_item(&gs, None), (ItemMenuResult::NoResponse, None));
    assert_eq!(
        draw_use_item(&gs, Some(Key::Letter(0))),
        (ItemMenuResult::Selected, Some(ItemName::OttomanKey2))
    );
    assert_eq!(
        draw_use_item(&gs, Some(Key::Letter(2))),
        (ItemMenuResult::Selected, Some(ItemName::Book))
    );
    assert_eq!(draw_use_item(&gs, Some(Key::Letter(3))), (ItemMenuResult::Cancel, None));
    assert_eq!(draw_use_item(&gs, Some(Key::Letter(200))), (ItemMenuResult::Cancel, None));
    assert_eq!(draw_use_item(&gs, Some(Key::Escape)), (ItemMenuResult::Cancel, None));
    assert_eq!(draw_use_item(&gs, Some(Key::Return)), (ItemMenuResult::Cancel, None));
}

#[test]
fn tick_in_the_inventory_cancels_or_waits() {
    let (mut gs, _) = with_three_items();
    gs.ecs.run_state = RunState::UseInventory;
    assert_eq!(gs.tick(None, false), Request::Nothing);
    assert_eq!(gs.ecs.run_state, RunState::UseInventory);
    assert_eq!(gs.tick(Some(Key::Letter(1)), false), Request::Nothing);
    // nothing is locked on the targeted tile
    assert_eq!(gs.ecs.run_state, RunState::UseInventory);
    assert!(gs.ecs.log.entries.is_empty());
    assert_eq!(gs.tick(Some(Key::Escape), false), Request::Nothing);
    assert_eq!(gs.ecs.run_state, RunState::Game);
}

#[test]
fn used_item_opens_every_lock_it_fits() {
    let mut gs = empty();
    let door = build_door(
        &mut gs,
        String::from("Kapi"),
        Place::Home,
        (26, 20),
        Place::Class,
        (21, 16),
        ItemName::OttomanKey1,
    );
    let chest = build_active_item(&mut gs, ItemName::Book, Place::Home, (26, 20), false);
    gs.ecs.requires_item.insert(chest, RequiresItem { key: ItemName::OttomanKey1 });
    gs.ecs.stored.insert(chest, Stored {});
    let first_key = build_dormant_item(&mut gs, ItemName::OttomanKey1);
    let second_key = build_dormant_item(&mut gs, ItemName::OttomanKey1);
    gs.ecs.stored.insert(first_key, Stored {});
    gs.ecs.stored.insert(second_key, Stored {});
    let other = build_door(
        &mut gs,
        String::from("Kapi"),
        Place::Home,
        (26, 20),
        Place::Class,
        (21, 16),
        ItemName::OttomanKey2,
    );
    let far = build_door(
        &mut gs,
        String::from("Kapi"),
        Place::Home,
        (27, 20),
        Place::Class,
        (21, 16),
        ItemName::OttomanKey1,
    );
    gs.ecs.targeted_pos = tarih_oyunu::components::TargetedPosition { x: 26, y: 20 };
    gs.ecs.run_state = RunState::UseInventory;

    gs.use_item(ItemName::OttomanKey1);

    assert!(!gs.ecs.requires_item.contains(door));
    assert!(!gs.ecs.requires_item.contains(chest));
    assert!(gs.ecs.requires_item.contains(other));
    assert!(gs.ecs.requires_item.contains(far));
    // the last one that opened was no portal
    assert_eq!(gs.ecs.map.get_tile(26, 20), TileType::Floor);
    assert_eq!(gs.ecs.map.get_tile(27, 20), TileType::Space);
    // one item was used, the first of its kind; what was unlocked keeps what it had
    assert!(!gs.ecs.stored.contains(first_key));
    assert!(gs.ecs.stored.contains(second_key));
    assert!(gs.ecs.stored.contains(chest));
    assert_eq!(gs.ecs.run_state, RunState::Game);
    assert_eq!(
        gs.ecs.log.entries,
        vec![
            String::from("Esya kullanildi: Bati Anahtari"),
            String::from("Esya kullanildi: Bati Anahtari"),
            String::from("Yanlis esya"),
        ]
    );
}

#[test]
fn item_that_opens_nothing_is_not_consumed() {
    let mut gs = empty();
    let door = build_door(
        &mut gs,
        String::from("Kapi"),
        Place::Home,
        (26, 20),
        Place::Class,
        (21, 16),
        ItemName::OttomanKey1,
    );
    let book = build_dormant_item(&mut gs, ItemName::Book);
    gs.ecs.stored.insert(book, Stored {});
    gs.ecs.targeted_pos = tarih_oyunu::components::TargetedPosition { x: 26, y: 20 };
    gs.ecs.run_state = RunState::UseInventory;
    gs.use_item(ItemName::Book);
    assert!(gs.ecs.stored.contains(book));
    assert!(gs.ecs.requires_item.contains(door));
    assert_eq!(gs.ecs.run_state, RunState::UseInventory);
    // an identity that the player does not hold consumes nothing either
    gs.use_item(ItemName::OttomanKey1);
    assert!(!gs.ecs.requires_item.contains(door));
    assert!(gs.ecs.stored.contains(book));
}

#[test]
fn tooltips_name_what_is_on_the_tile() {
    let mut gs = empty();
    build_player(&mut gs, String::from("Deniz"), (26, 20));
    build_door(
        &mut gs,
        String::from("Bati Cikisi"),
        Place::Home,
        (26, 20),
        Place::Class,
        (21, 16),
        ItemName::OttomanKey1,
    );
    build_portal(&mut gs, String::from("Guney Kapisi"), Place::Home, (26, 20), Place::Class, (21, 16));
    build_portal(&mut gs, String::from("Ev Kapisi"), Place::SchoolSouth, (26, 20), Place::Home, (21, 16));
    build_active_item(&mut gs, ItemName::Book, Place::Home, (27, 20), true);

    assert_eq!(
        tooltips(&gs.ecs, 26, 20),
        vec![
            String::from("Deniz"),
            String::from("Bati Cikisi (Kapali)"),
            String::from("Guney Kapisi (Acik)"),
        ]
    );
    assert_eq!(tooltips(&gs.ecs, 27, 20), vec![String::from("Kitap")]);
    assert!(tooltips(&gs.ecs, 28, 20).is_empty());
    assert!(tooltips(&gs.ecs, 55, 20).is_empty());
    assert!(tooltips(&gs.ecs, 26, 43).is_empty());
}

#[test]
fn player_is_built_with_its_glyph() {
    let mut gs = empty();
    let player = build_player(&mut gs, String::from("Deniz"), (25, 20));
    assert_eq!(player, 0);
    assert_eq!(gs.ecs.names.get(player).unwrap().name, "Deniz");
    assert_eq!(gs.ecs.belongs.get(player), Some(&BelongsTo { domain: Place::Home }));
    assert_eq!(gs.ecs.positions.get(player), Some(&Position { x: 25, y: 20 }));
    assert_eq!(
        gs.ecs.renderables.get(player),
        Some(&Renderable {
            glyph: 2,
            fg: Rgb { r: 255, g: 50, b: 0 },
            bg: Rgb { r: 0, g: 0, b: 0 },
            render_order: 0
        })
    );
    assert_eq!(gs.ecs.players.get(player), Some(&Player {}));
    assert_eq!(gs.ecs.markers.get(player), Some(&SerializeMe {}));
    assert!(gs.ecs.is_alive(player));
    assert!(!gs.ecs.items.contains(player));
    let second = build_player_with(&mut gs, String::from("Can"), (1, 1), 77);
    assert_eq!(second, 1);
    assert_eq!(gs.ecs.renderables.get(second).unwrap().glyph, 77);
}

#[test]
fn items_are_built_on_the_map_or_nowhere() {
    let mut gs = empty();
    let book = build_active_item(&mut gs, ItemName::Book, Place::Library, (19, 19), true);
    let key = build_active_item_with(&mut gs, ItemName::OttomanKey1, Place::Class, (20, 20), false, 5);
    let poem = build_dormant_item(&mut gs, ItemName::OttomanRewardPoem);
    assert_eq!((book, key, poem), (0, 1, 2));
    assert_eq!(gs.ecs.items.get(book), Some(&Item { name: ItemName::Book }));
    assert_eq!(gs.ecs.names.get(book).unwrap().name, "Kitap");
    assert_eq!(gs.ecs.belongs.get(book), Some(&BelongsTo { domain: Place::Library }));
    assert_eq!(gs.ecs.positions.get(book), Some(&Position { x: 19, y: 19 }));
    assert_eq!(
        gs.ecs.renderables.get(book),
        Some(&Renderable {
            glyph: 13,
            fg: Rgb { r: 240, g: 250, b: 30 },
            bg: Rgb { r: 0, g: 0, b: 0 },
            render_order: 1
        })
    );
    assert_eq!(gs.ecs.permanent_items.get(book), Some(&PermanentItem {}));
    assert!(!gs.ecs.permanent_items.contains(key));
    assert_eq!(gs.ecs.renderables.get(key).unwrap().glyph, 5);
    assert_eq!(gs.ecs.items.get(poem), Some(&Item { name: ItemName::OttomanRewardPoem }));
    assert_eq!(gs.ecs.names.get(poem).unwrap().name, "Siir");
    assert!(gs.ecs.markers.contains(poem));
    assert!(!gs.ecs.positions.contains(poem));
    assert!(!gs.ecs.belongs.contains(poem));
    assert!(!gs.ecs.renderables.contains(poem));
    assert!(gs.ecs.check());
}

#[test]
fn doors_and_portals_differ_by_their_lock() {
    let mut gs = empty();
    let door = build_door(
        &mut gs,
        String::from("Bati Cikisi"),
        Place::OttomanMain,
        (12, 20),
        Place::OttomanLeft,
        (30, 20),
        ItemName::OttomanKey1,
    );
    let portal =
        build_portal(&mut gs, String::from("Meydan Kapisi"), Place::OttomanLeft, (35, 20), Place::OttomanMain, (13, 20));
    let plain = build_door_or_portal(
        &mut gs,
        String::from("Kapi"),
        Place::Home,
        (1, 2),
        Place::Class,
        (3, 4),
        Some(ItemName::Book),
        9,
    );
    assert_eq!(gs.ecs.requires_item.get(door), Some(&RequiresItem { key: ItemName::OttomanKey1 }));
    assert!(!gs.ecs.requires_item.contains(portal));
    assert_eq!(
        gs.ecs.portals.get(door),
        Some(&Portal { target: Place::OttomanLeft, warp_place: (30, 20) })
    );
    assert_eq!(
        gs.ecs.portals.get(portal),
        Some(&Portal { target: Place::OttomanMain, warp_place: (13, 20) })
    );
    assert_eq!(gs.ecs.renderables.get(door).unwrap().fg, Rgb { r: 70, g: 200, b: 200 });
    assert_eq!(gs.ecs.renderables.get(portal).unwrap().fg, Rgb { r: 21, g: 246, b: 111 });
    assert_eq!(gs.ecs.renderables.get(door).unwrap().glyph, 234);
    assert_eq!(gs.ecs.renderables.get(portal).unwrap().glyph, 234);
    assert_eq!(gs.ecs.renderables.get(plain).unwrap().glyph, 9);
    assert_eq!(gs.ecs.renderables.get(plain).unwrap().render_order, 1);
    assert_eq!(gs.ecs.positions.get(door), Some(&Position { x: 12, y: 20 }));
    assert_eq!(gs.ecs.belongs.get(portal), Some(&BelongsTo { domain: Place::OttomanLeft }));
    assert_eq!(gs.ecs.names.get(portal).unwrap().name, "Meydan Kapisi");
}

#[test]
fn dormant_door_is_built_off_the_map() {
    let mut gs = empty();
    let door = build_dormant_door(
        &mut gs,
        String::from("Gizli Kapi"),
        Place::SchoolSouth,
        (9, 20),
        Place::OttomanMain,
        (13, 11),
        ItemName::SecretGateKey,
        (7, 11),
        (20, 22),
        ItemName::Book,
        TileType::Wall,
    );
    assert!(!gs.ecs.positions.contains(door));
    assert_eq!(gs.ecs.dormant_positions.get(door), Some(&DormantPosition { x: 9, y: 20 }));
    assert_eq!(
        gs.ecs.revealer_infos.get(door),
        Some(&RevealerInformation {
            x_end_points: (7, 11),
            y_end_points: (20, 22),
            revealer_item: ItemName::Book,
            before_reveal: TileType::Wall,
        })
    );
    assert_eq!(gs.ecs.requires_item.get(door), Some(&RequiresItem { key: ItemName::SecretGateKey }));
    assert_eq!(
        gs.ecs.portals.get(door),
        Some(&Portal { target: Place::OttomanMain, warp_place: (13, 11) })
    );
    assert_eq!(gs.ecs.renderables.get(door).unwrap().glyph, 234);
    assert_eq!(gs.ecs.renderables.get(door).unwrap().fg, Rgb { r: 70, g: 200, b: 200 });
    let other = build_dormant_door_with(
        &mut gs,
        String::from("Zaman Kapisi"),
        DormantDoor {
            domain: Place::OttomanMain,
            coord: (20, 20),
            target: Place::SchoolSouth,
            warp_place: (12, 12),
            key: ItemName::OttomanKeyMain,
            x_end_points: (12, 42),
            y_end_points: (10, 32),
            revealer_item: ItemName::OttomanKeyMain,
            before_reveal: TileType::Floor,
        },
        3,
    );
    assert_eq!(gs.ecs.renderables.get(other).unwrap().glyph, 3);
    assert_eq!(gs.ecs.revealer_infos.get(other).unwrap().before_reveal, TileType::Floor);
}

#[test]
fn npcs_are_built_with_their_scripts() {
    let mut gs = empty();
    let human = build_npc_human(
        &mut gs,
        "Osman Bey",
        Place::OttomanLeft,
        (27, 20),
        vec![vec!["a", "b"], vec!["c"]],
        None,
        Some(vec![ItemName::OttomanRewardPoem]),
        vec![],
        vec![0],
        vec![1],
    );
    let script = gs.ecs.interactions.get(human).unwrap();
    assert_eq!(
        script.dialogues,
        vec![vec![String::from("a"), String::from("b")], vec![String::from("c")]]
    );
    assert_eq!(script.dialogue_index, 0);
    assert!(script.get_item_indices.is_empty());
    assert_eq!(script.give_item_indices, vec![0]);
    assert_eq!(script.change_objective_indices, vec![1]);
    assert!(!script.repeat);
    assert!(script.print_no_item);
    assert!(gs.ecs.requires_items.get(human).unwrap().items.is_empty());
    assert_eq!(gs.ecs.contains_items.get(human).unwrap().items, vec![ItemName::OttomanRewardPoem]);
    assert_eq!(gs.ecs.npcs.get(human), Some(&Npc { state: NpcState::HasDialogue }));
    assert_eq!(gs.ecs.names.get(human).unwrap().name, "Osman Bey");
    assert_eq!(
        gs.ecs.renderables.get(human),
        Some(&Renderable {
            glyph: 1,
            fg: Rgb { r: 255, g: 111, b: 0 },
            bg: Rgb { r: 0, g: 0, b: 0 },
            render_order: 1
        })
    );
    assert_eq!(gs.ecs.positions.get(human), Some(&Position { x: 27, y: 20 }));
    assert_eq!(gs.ecs.belongs.get(human), Some(&BelongsTo { domain: Place::OttomanLeft }));
}

#[test]
fn one_liners_have_one_page_of_one_line() {
    let mut gs = empty();
    let efe = build_npc_human_one_liner(&mut gs, "Efe", Place::SchoolSouth, (17, 14), "Merhaba.");
    let dog = build_npc_dog(&mut gs, "Karbeyaz", Place::SchoolNorth, (31, 22), Rgb { r: 10, g: 10, b: 10 }, "HAV HAV");
    let cat = build_npc_cat(&mut gs, "Deli", Place::SchoolNorth, (34, 24), Rgb { r: 228, g: 228, b: 49 }, "Miav");
    let bird = build_npc_one_liner(&mut gs, "Kus", Place::Home, (1, 1), 42, Rgb { r: 1, g: 2, b: 3 }, "Cik");
    for (e, line) in [(efe, "Merhaba."), (dog, "HAV HAV"), (cat, "Miav"), (bird, "Cik")] {
        let script = gs.ecs.interactions.get(e).unwrap();
        assert_eq!(script.dialogues, vec![vec![String::from(line)]]);
        assert!(script.get_item_indices.is_empty());
        assert!(script.give_item_indices.is_empty());
        assert!(script.change_objective_indices.is_empty());
        assert!(gs.ecs.requires_items.get(e).unwrap().items.is_empty());
        assert!(gs.ecs.contains_items.get(e).unwrap().items.is_empty());
    }
    assert_eq!(gs.ecs.renderables.get(efe).unwrap().glyph, 1);
    assert_eq!(gs.ecs.renderables.get(dog).unwrap().glyph, 100);
    assert_eq!(gs.ecs.renderables.get(cat).unwrap().glyph, 99);
    assert_eq!(gs.ecs.renderables.get(bird).unwrap().glyph, 42);
    assert_eq!(gs.ecs.renderables.get(dog).unwrap().fg, Rgb { r: 10, g: 10, b: 10 });
    assert_eq!(gs.ecs.renderables.get(cat).unwrap().fg, Rgb { r: 228, g: 228, b: 49 });
    assert_eq!(gs.ecs.names.get(dog).unwrap().name, "Karbeyaz");
}

#[test]
fn npc_kit_is_taken_as_it_is() {
    let mut gs = empty();
    let kit = NpcKit {
        domain: Place::Class,
        coord: (30, 17),
        glyph: 64,
        fg: Rgb { r: 9, g: 8, b: 7 },
        requires_item: Some(vec![ItemName::Book, ItemName::Book]),
        contains_item: None,
        get_item_indices: vec![1, 2],
        give_item_indices: vec![],
        change_objective_indices: vec![1, 4],
    };
    let npc = build_npc(&mut gs, "Taylan Hoca", kit, vec![vec!["x"], vec![], vec!["y", "z"]]);
    assert_eq!(gs.ecs.requires_items.get(npc).unwrap().items, vec![ItemName::Book, ItemName::Book]);
    assert_eq!(gs.ecs.interactions.get(npc).unwrap().get_item_indices, vec![1, 2]);
    assert_eq!(gs.ecs.interactions.get(npc).unwrap().dialogues[1], Vec::<String>::new());
    assert_eq!(gs.ecs.interactions.get(npc).unwrap().dialogues[2].len(), 2);
    assert_eq!(gs.ecs.renderables.get(npc).unwrap().glyph, 64);
    assert_eq!(gs.ecs.player_pos, Point { x: 0, y: 0 });
}
