use tarih_oyunu::components::{Npc, Point, Stored, TargetedPosition};
use tarih_oyunu::dialogue::{can_interact, find_targeted_npc};
use tarih_oyunu::gui::{draw_npc_interaction, Key, NpcInteractionResult};
use tarih_oyunu::items::ItemName;
use tarih_oyunu::map::Place;
use tarih_oyunu::npcs::NpcState;
use tarih_oyunu::spawner::{
    build_dormant_item, build_npc_human, build_npc_human_one_liner, build_player,
};
use tarih_oyunu::state::{RunState, State};
use tarih_oyunu::world::{find_item, World};

struct Talk {
    gs: State,
    npc: usize,
    books: [usize; 2],
    gate_key: usize,
}

fn talk() -> Talk {
    let mut gs = State { ecs: World::new() };
    let player = build_player(&mut gs, String::from("Deniz"), (25, 20));
    gs.ecs.player_entity = player;
    gs.ecs.player_pos = Point { x: 25, y: 20 };
    gs.ecs.run_state = RunState::InteractNpc { index: 0 };
    let npc = build_npc_human(
        &mut gs,
        "Taylan Hoca",
        Place::Home,
        (26, 20),
        vec![
            vec!["Merhabalar.", "Kitaplari kutuphanede unutmusum."],
            vec!["Kitaplari getirebilir misiniz?"],
            vec!["Super, bir tane daha olmali."],
            vec!["Cok tesekkurler!", "Sonuncuyu da alabilir miyim?"],
            vec!["O zaman size bu anahtari veriyorum."],
            vec!["Iyi gunler."],
        ],
        Some(vec![ItemName::Book, ItemName::Book]),
        Some(vec![ItemName::SecretGateKey]),
        vec![1, 2],
        vec![4],
        vec![1, 4],
    );
    let books = [
        build_dormant_item(&mut gs, ItemName::Book),
        build_dormant_item(&mut gs, ItemName::Book),
    ];
    let gate_key = build_dormant_item(&mut gs, ItemName::SecretGateKey);
    gs.ecs.targeted_pos = TargetedPosition { x: 26, y: 20 };
    gs.ecs.objective.objectives = vec![
        String::from("Taylan Hoca ile konus"),
        String::from("Kitaplari getir"),
        String::from("Gizli gecidi bul"),
    ];
    Talk { gs, npc, books, gate_key }
}

fn state_of(t: &Talk) -> NpcState {
    t.gs.ecs.npcs.get(t.npc).unwrap().state
}

fn page_of(t: &Talk) -> usize {
    t.gs.ecs.interactions.get(t.npc).unwrap().dialogue_index
}

fn step(t: &mut Talk, key: Option<Key>, index: usize) -> NpcInteractionResult {
    assert!(can_interact(&t.gs.ecs, index));
    draw_npc_interaction(&mut t.gs.ecs, key, index)
}

#[test]
fn targeted_npc_is_found_by_place_and_tile() {
    let mut t = talk();
    assert_eq!(find_targeted_npc(&t.gs.ecs), Some(t.npc));
    t.gs.ecs.targeted_pos = TargetedPosition { x: 27, y: 20 };
    assert_eq!(find_targeted_npc(&t.gs.ecs), None);
    t.gs.ecs.targeted_pos = TargetedPosition { x: 26, y: 20 };
    t.gs.ecs.current_place = Place::Class;
    assert_eq!(find_targeted_npc(&t.gs.ecs), None);
    assert_eq!(step(&mut t, Some(Key::Return), 0), NpcInteractionResult::NoResponse);
    assert_eq!(page_of(&t), 0);
    assert!(t.gs.ecs.log.entries.is_empty());
}

#[test]
fn confirm_reveals_the_next_line_then_turns_the_page() {
    let mut t = talk();
    assert_eq!(step(&mut t, None, 0), NpcInteractionResult::NoResponse);
    assert_eq!(step(&mut t, Some(Key::Up), 0), NpcInteractionResult::NoResponse);
    assert_eq!(step(&mut t, Some(Key::Return), 0), NpcInteractionResult::NextDialogue { index: 1 });
    assert_eq!(page_of(&t), 0);
    assert_eq!(t.gs.ecs.objective.index, 0);
    assert_eq!(step(&mut t, Some(Key::Return), 1), NpcInteractionResult::NextDialogue { index: 0 });
    assert_eq!(page_of(&t), 1);
    assert_eq!(state_of(&t), NpcState::HasDialogue);
    // page 1 is marked for the quest, which moves on in the frame that turns to it
    assert_eq!(t.gs.ecs.objective.index, 1);
    assert_eq!(t.gs.ecs.interactions.get(t.npc).unwrap().change_objective_indices, vec![4]);
}

#[test]
fn marked_page_moves_the_quest_on_once() {
    let mut t = talk();
    step(&mut t, Some(Key::Return), 0);
    step(&mut t, Some(Key::Return), 1);
    assert_eq!(page_of(&t), 1);
    assert_eq!(step(&mut t, None, 0), NpcInteractionResult::NoResponse);
    assert_eq!(t.gs.ecs.objective.index, 1);
    assert_eq!(t.gs.ecs.interactions.get(t.npc).unwrap().change_objective_indices, vec![4]);
    assert_eq!(step(&mut t, None, 0), NpcInteractionResult::NoResponse);
    assert_eq!(t.gs.ecs.objective.index, 1);
}

#[test]
fn request_takes_the_item_from_the_front_of_the_list() {
    let mut t = talk();
    t.gs.ecs.stored.insert(t.books[1], Stored {});
    step(&mut t, Some(Key::Return), 0);
    step(&mut t, Some(Key::Return), 1);
    // page 1 is marked for a request
    assert_eq!(step(&mut t, Some(Key::Return), 0), NpcInteractionResult::NextDialogue { index: 0 });
    assert_eq!(state_of(&t), NpcState::WantsItem);
    assert_eq!(page_of(&t), 1);

    assert_eq!(step(&mut t, None, 0), NpcInteractionResult::NoResponse);

    assert_eq!(state_of(&t), NpcState::HasDialogue);
    assert_eq!(page_of(&t), 2);
    assert_eq!(t.gs.ecs.requires_items.get(t.npc).unwrap().items, vec![ItemName::Book]);
    assert_eq!(t.gs.ecs.interactions.get(t.npc).unwrap().get_item_indices, vec![2]);
    assert!(!t.gs.ecs.stored.contains(t.books[1]));
    assert!(!t.gs.ecs.stored.contains(t.books[0]));
    assert_eq!(t.gs.ecs.log.entries, vec![String::from("Esya kullanildi: Kitap")]);
    assert!(!t.gs.ecs.interactions.get(t.npc).unwrap().repeat);
}

#[test]
fn request_keeps_the_order_of_what_is_left() {
    let mut gs = State { ecs: World::new() };
    let npc = build_npc_human(
        &mut gs,
        "Gizemli Karakter",
        Place::Home,
        (26, 20),
        vec![vec!["a"], vec!["b"], vec!["c"]],
        Some(vec![
            ItemName::OttomanCombinedRewardPoemBook,
            ItemName::OttomanCombinedRewardMosqueModel,
            ItemName::OttomanCombinedRewardWeirdCollage,
        ]),
        None,
        vec![0, 1],
        vec![],
        vec![],
    );
    let collage = build_dormant_item(&mut gs, ItemName::OttomanCombinedRewardWeirdCollage);
    let book = build_dormant_item(&mut gs, ItemName::OttomanCombinedRewardPoemBook);
    gs.ecs.stored.insert(collage, Stored {});
    gs.ecs.stored.insert(book, Stored {});
    gs.ecs.targeted_pos = TargetedPosition { x: 26, y: 20 };
    gs.ecs.npcs.insert(npc, Npc { state: NpcState::WantsItem });

    assert_eq!(draw_npc_interaction(&mut gs.ecs, None, 0), NpcInteractionResult::NoResponse);

    assert_eq!(
        gs.ecs.requires_items.get(npc).unwrap().items,
        vec![ItemName::OttomanCombinedRewardMosqueModel, ItemName::OttomanCombinedRewardWeirdCollage]
    );
    assert!(gs.ecs.stored.contains(collage));
    assert!(!gs.ecs.stored.contains(book));

    // the next request is for the model, which the player does not hold
    gs.ecs.npcs.insert(npc, Npc { state: NpcState::WantsItem });
    assert_eq!(draw_npc_interaction(&mut gs.ecs, None, 0), NpcInteractionResult::Done);
    assert_eq!(
        gs.ecs.requires_items.get(npc).unwrap().items,
        vec![ItemName::OttomanCombinedRewardMosqueModel, ItemName::OttomanCombinedRewardWeirdCollage]
    );
    assert!(gs.ecs.stored.contains(collage));
}

#[test]
fn gift_stores_the_first_item_of_its_kind() {
    let mut t = talk();
    t.gs.ecs.npcs.insert(t.npc, Npc { state: NpcState::WillGiveItem });
    let second_key = build_dormant_item(&mut t.gs, ItemName::SecretGateKey);

    assert_eq!(step(&mut t, None, 0), NpcInteractionResult::NoResponse);

    assert!(t.gs.ecs.stored.contains(t.gate_key));
    assert!(!t.gs.ecs.stored.contains(second_key));
    assert!(t.gs.ecs.contains_items.get(t.npc).unwrap().items.is_empty());
    assert!(t.gs.ecs.interactions.get(t.npc).unwrap().give_item_indices.is_empty());
    assert_eq!(t.gs.ecs.log.entries, vec![String::from("Esya alindi: Gizli Kapi Anahtari")]);
    assert_eq!(state_of(&t), NpcState::HasDialogue);
    // the script went from page 0 to page 1, which is marked for the quest
    assert_eq!(page_of(&t), 1);
    assert_eq!(t.gs.ecs.objective.index, 1);
}

#[test]
fn whole_script_runs_to_its_end() {
    let mut t = talk();
    t.gs.ecs.stored.insert(t.books[0], Stored {});
    t.gs.ecs.stored.insert(t.books[1], Stored {});
    let mut index = 0;
    let mut frames = 0;
    // confirm every third frame
    loop {
        frames += 1;
        assert!(frames < 100);
        let key = if frames % 3 == 0 { Some(Key::Return) } else { None };
        match step(&mut t, key, index) {
            NpcInteractionResult::NoResponse => {}
            NpcInteractionResult::NextDialogue { index: next } => index = next,
            NpcInteractionResult::Done => break,
        }
    }
    assert_eq!(state_of(&t), NpcState::Done);
    assert_eq!(page_of(&t), 5);
    assert!(t.gs.ecs.requires_items.get(t.npc).unwrap().items.is_empty());
    assert!(t.gs.ecs.contains_items.get(t.npc).unwrap().items.is_empty());
    assert!(t.gs.ecs.stored.contains(t.gate_key));
    assert!(!t.gs.ecs.stored.contains(t.books[0]));
    assert!(!t.gs.ecs.stored.contains(t.books[1]));
    assert_eq!(t.gs.ecs.objective.index, 2);
    assert_eq!(
        t.gs.ecs.log.entries,
        vec![
            String::from("Esya kullanildi: Kitap"),
            String::from("Esya kullanildi: Kitap"),
            String::from("Esya alindi: Gizli Kapi Anahtari"),
        ]
    );
    // a done NPC shows its last page again and changes nothing
    assert_eq!(step(&mut t, None, 0), NpcInteractionResult::NoResponse);
    assert_eq!(step(&mut t, Some(Key::Return), 0), NpcInteractionResult::Done);
    assert_eq!(state_of(&t), NpcState::Done);
    assert_eq!(page_of(&t), 5);
    assert_eq!(t.gs.ecs.log.entries.len(), 3);
    assert_eq!(t.gs.ecs.targeted_pos, TargetedPosition { x: 26, y: 20 });
}

#[test]
fn confirming_as_the_last_page_first_shows_stays_on_that_page() {
    let mut gs = State { ecs: World::new() };
    let npc = build_npc_human_one_liner(&mut gs, "Efe", Place::Home, (17, 14), "Merhaba.");
    gs.ecs.targeted_pos = TargetedPosition { x: 17, y: 14 };
    assert!(can_interact(&gs.ecs, 0));
    let result = draw_npc_interaction(&mut gs.ecs, Some(Key::Return), 0);
    assert_eq!(result, NpcInteractionResult::NextDialogue { index: 0 });
    assert_eq!(gs.ecs.npcs.get(npc), Some(&Npc { state: NpcState::Done }));
    assert_eq!(gs.ecs.interactions.get(npc).unwrap().dialogue_index, 0);
    // the last page is shown again, and a confirmation ends the exchange
    assert!(can_interact(&gs.ecs, 0));
    assert_eq!(draw_npc_interaction(&mut gs.ecs, None, 0), NpcInteractionResult::NoResponse);
    assert_eq!(draw_npc_interaction(&mut gs.ecs, Some(Key::Return), 0), NpcInteractionResult::Done);
    assert_eq!(gs.ecs.interactions.get(npc).unwrap().dialogue_index, 0);
}

#[test]
fn script_runs_to_its_end_under_a_key_in_every_frame() {
    let mut t = talk();
    t.gs.ecs.stored.insert(t.books[0], Stored {});
    t.gs.ecs.stored.insert(t.books[1], Stored {});
    let mut index = 0;
    let mut frames = 0;
    loop {
        frames += 1;
        assert!(frames < 100);
        match step(&mut t, Some(Key::Return), index) {
            NpcInteractionResult::NoResponse => {}
            NpcInteractionResult::NextDialogue { index: next } => index = next,
            NpcInteractionResult::Done => break,
        }
    }
    assert_eq!(state_of(&t), NpcState::Done);
    assert_eq!(page_of(&t), 5);
    assert!(t.gs.ecs.stored.contains(t.gate_key));
    // the quest moved on once for each of the two marks
    assert_eq!(t.gs.ecs.objective.index, 2);
    assert!(t.gs.ecs.interactions.get(t.npc).unwrap().change_objective_indices.is_empty());
    assert!(can_interact(&t.gs.ecs, 0));
}

#[test]
fn quest_mark_of_the_page_is_the_one_that_is_taken() {
    let mut t = talk();
    let mut script = t.gs.ecs.interactions.remove(t.npc).unwrap();
    script.change_objective_indices = vec![4, 0, 3, 0];
    t.gs.ecs.interactions.insert(t.npc, script);
    assert_eq!(step(&mut t, None, 0), NpcInteractionResult::NoResponse);
    assert_eq!(t.gs.ecs.objective.index, 1);
    assert_eq!(t.gs.ecs.interactions.get(t.npc).unwrap().change_objective_indices, vec![4, 3, 0]);
    assert_eq!(step(&mut t, None, 0), NpcInteractionResult::NoResponse);
    assert_eq!(t.gs.ecs.objective.index, 2);
    assert_eq!(t.gs.ecs.interactions.get(t.npc).unwrap().change_objective_indices, vec![4, 3]);
    assert_eq!(step(&mut t, None, 0), NpcInteractionResult::NoResponse);
    assert_eq!(t.gs.ecs.objective.index, 2);
    assert_eq!(t.gs.ecs.interactions.get(t.npc).unwrap().change_objective_indices, vec![4, 3]);
}

#[test]
fn request_on_the_last_page_leaves_the_script_there() {
    let mut gs = State { ecs: World::new() };
    let npc = build_npc_human(
        &mut gs,
        "Taylan Hoca",
        Place::Home,
        (26, 20),
        vec![vec!["a"], vec!["b"]],
        Some(vec![ItemName::Book]),
        Some(vec![ItemName::SecretGateKey]),
        vec![1],
        vec![1],
        vec![],
    );
    let book = build_dormant_item(&mut gs, ItemName::Book);
    gs.ecs.stored.insert(book, Stored {});
    gs.ecs.targeted_pos = TargetedPosition { x: 26, y: 20 };
    let mut script = gs.ecs.interactions.remove(npc).unwrap();
    script.dialogue_index = 1;
    gs.ecs.interactions.insert(npc, script);
    for state in [NpcState::WantsItem, NpcState::WillGiveItem] {
        gs.ecs.npcs.insert(npc, Npc { state });
        assert!(can_interact(&gs.ecs, 0));
        assert_eq!(draw_npc_interaction(&mut gs.ecs, None, 0), NpcInteractionResult::NoResponse);
        assert_eq!(gs.ecs.interactions.get(npc).unwrap().dialogue_index, 1);
        assert_eq!(gs.ecs.npcs.get(npc), Some(&Npc { state: NpcState::HasDialogue }));
        assert!(can_interact(&gs.ecs, 0));
    }
}

#[test]
fn one_liner_is_done_at_once() {
    let mut gs = State { ecs: World::new() };
    let npc = build_npc_human_one_liner(&mut gs, "Efe", Place::Home, (17, 14), "Merhaba.");
    gs.ecs.targeted_pos = TargetedPosition { x: 17, y: 14 };
    assert!(can_interact(&gs.ecs, 0));
    assert_eq!(draw_npc_interaction(&mut gs.ecs, None, 0), NpcInteractionResult::NoResponse);
    assert_eq!(gs.ecs.npcs.get(npc), Some(&Npc { state: NpcState::Done }));
    assert_eq!(draw_npc_interaction(&mut gs.ecs, Some(Key::Return), 0), NpcInteractionResult::Done);
    assert_eq!(gs.ecs.interactions.get(npc).unwrap().dialogue_index, 0);
}

#[test]
fn can_interact_refuses_frames_that_do_not_exist() {
    let mut t = talk();
    assert!(can_interact(&t.gs.ecs, 0));
    assert!(can_interact(&t.gs.ecs, 1));
    // page 0 has two lines
    assert!(!can_interact(&t.gs.ecs, 2));
    assert!(!can_interact(&t.gs.ecs, usize::MAX));
    // an NPC that gives needs a gift and its mark
    t.gs.ecs.npcs.insert(t.npc, Npc { state: NpcState::WillGiveItem });
    assert!(can_interact(&t.gs.ecs, 7));
    let mut script = t.gs.ecs.interactions.remove(t.npc).unwrap();
    script.give_item_indices.clear();
    t.gs.ecs.interactions.insert(t.npc, script);
    assert!(!can_interact(&t.gs.ecs, 0));
    // an NPC that asks needs a request while there are items
    t.gs.ecs.npcs.insert(t.npc, Npc { state: NpcState::WantsItem });
    assert!(can_interact(&t.gs.ecs, 0));
    let mut wanted = t.gs.ecs.requires_items.remove(t.npc).unwrap();
    wanted.items.clear();
    t.gs.ecs.requires_items.insert(t.npc, wanted);
    assert!(!can_interact(&t.gs.ecs, 0));
    // without a targeted NPC every frame can be played
    t.gs.ecs.targeted_pos = TargetedPosition { x: -1, y: -1 };
    assert!(can_interact(&t.gs.ecs, 5));
}

#[test]
fn find_item_prefers_the_lowest_id() {
    let t = talk();
    assert_eq!(find_item(&t.gs.ecs, ItemName::Book, false), Some(t.books[0]));
    assert_eq!(find_item(&t.gs.ecs, ItemName::Book, true), None);
    assert_eq!(find_item(&t.gs.ecs, ItemName::OttomanKey1, false), None);
    let mut t = t;
    t.gs.ecs.stored.insert(t.books[1], Stored {});
    assert_eq!(find_item(&t.gs.ecs, ItemName::Book, true), Some(t.books[1]));
}
