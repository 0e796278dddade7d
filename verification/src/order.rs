use vstd::prelude::*;
use crate::dialogue::{
    after_dialogue, after_exchange, after_farewell, after_gift, after_request, item_for,
    targeted_npc, targeted_npc_pred,
};
use crate::gui::Key;
use crate::items::ItemName;
use crate::map::Place;
use crate::npcs::NpcState;
use crate::player::{after_input, open_portal_pred, step_target};
use crate::save_load_system::{
    after_load, after_save, lemma_load_restores_what_was_saved, lemma_save_keeps_the_world,
    marks_in_order, player_pred, restorable, snapshot_of, with_helper, with_session_of, LoadError,
};
use crate::spawner::{
    with_active_item, with_door_or_portal, with_dormant_door, with_dormant_item, with_marked,
    with_npc, with_one_liner, with_player, DormantDoor, NpcKit,
};
use crate::components::Rgb;
use crate::state::{
    after_tick, lemma_shown_keeps_sound, named, shown, tick_mode, Request, RunState,
};
use crate::store::{first_entity, is_last, lemma_first_found, lemma_last_entity};
use crate::systems::{after_systems, collected, combined, recolored, revealed};
use crate::world::{item_pred, stored_item_pred, WorldView};

verus! {

/// Whether the tracked player is the one player of the world, stands on the map, and is
/// neither an item nor hidden.
pub open spec fn player_in_order(w: WorldView) -> bool {
    &&& forall|e: usize| #[trigger] w.players.contains_key(e) <==> e == w.player_entity
    &&& w.positions.contains_key(w.player_entity)
    &&& !w.items.contains_key(w.player_entity)
    &&& !w.dormant_positions.contains_key(w.player_entity)
}

/// What play keeps of a world: its marks are in order, and it has one player, which is
/// the tracked one.
pub open spec fn tidy(w: WorldView) -> bool {
    marks_in_order(w) && player_in_order(w)
}

/// The systems keep a world tidy.
pub proof fn lemma_systems_keep_tidy(w: WorldView)
    requires
        tidy(w),
    ensures
        tidy(after_systems(w)),
{
    let a = collected(w);
    assert(tidy(a));
    let b = recolored(a);
    assert(tidy(b));
    let c = revealed(b);
    assert(tidy(c));
    let d = combined(c);
    assert(d.items == c.items);
    assert(tidy(d));
}

/// A key that is acted on while the player walks keeps a world tidy.
pub proof fn lemma_input_keeps_tidy(w: WorldView, key: Option<Key>)
    requires
        tidy(w),
    ensures
        tidy(after_input(w, key).world),
{
    let dx: int = match key {
        Some(Key::Left) => -1,
        Some(Key::Right) => 1,
        _ => 0,
    };
    let dy: int = match key {
        Some(Key::Up) => -1,
        Some(Key::Down) => 1,
        _ => 0,
    };
    let (x, y) = step_target(w, dx, dy);
    let p = open_portal_pred(w, x, y);
    if first_entity(p) is Some {
        lemma_first_found(p, first_entity(p)->0);
    }
}

/// A frame of an exchange keeps a world tidy.
pub proof fn lemma_exchange_keeps_tidy(w: WorldView, key: Option<Key>, index: usize)
    requires
        tidy(w),
    ensures
        tidy(after_exchange(w, key, index).world),
{
    match targeted_npc(w) {
        None => {},
        Some(n) => {
            lemma_first_found(targeted_npc_pred(w), n);
            match w.npcs[n].state {
                NpcState::HasDialogue => {
                    assert(tidy(after_dialogue(w, n, key, index).world));
                },
                NpcState::WantsItem => {
                    if item_for(w, n) is Some {
                        let name = w.requires_items[n][0];
                        lemma_first_found(stored_item_pred(w, name), item_for(w, n)->0);
                    }
                    assert(tidy(after_request(w, n, key).world));
                },
                NpcState::WillGiveItem => {
                    let name = w.contains_items[n][0];
                    let q = item_pred(w, name);
                    if first_entity(q) is Some {
                        lemma_first_found(q, first_entity(q)->0);
                    }
                    assert(tidy(after_gift(w, n).world));
                },
                NpcState::Done => {
                    assert(tidy(after_farewell(w, n, key).world));
                },
            }
        },
    }
}

/// To show a world keeps it tidy.
pub proof fn lemma_shown_keeps_tidy(w: WorldView)
    requires
        tidy(w),
    ensures
        tidy(shown(w)),
{
}

/// Play keeps a world tidy: whatever the mode and the key, the world has after the tick
/// the one player that it had, its marks are in order, and no entity was made.
pub proof fn lemma_tick_keeps_tidy(w: WorldView, key: Option<Key>, save_exists: bool)
    requires
        tidy(w),
    ensures
        tidy(after_tick(w, key, save_exists).world),
{
    let s = shown(w);
    lemma_shown_keeps_tidy(w);
    match tick_mode(w) {
        RunState::Game => {
            lemma_systems_keep_tidy(s);
            lemma_input_keeps_tidy(after_systems(s), key);
        },
        RunState::InteractNpc { index } => {
            lemma_exchange_keeps_tidy(s, key, index);
        },
        RunState::EnterName => {
            assert(tidy(named(s)));
        },
        RunState::UseInventory => {},
        _ => {},
    }
}

/// The world that a tick asks to save comes back from its snapshot: where play begins
/// with a sound and tidy world, every world that is saved is restorable.
pub proof fn lemma_saved_world_is_restorable(w: WorldView, key: Option<Key>, save_exists: bool)
    requires
        w.wf(),
        tidy(w),
        after_tick(w, key, save_exists).request == Request::SaveGame,
    ensures
        restorable(after_tick(w, key, save_exists).world),
{
    let s = shown(w);
    let after = after_tick(w, key, save_exists).world;
    lemma_tick_keeps_tidy(w, key, save_exists);
    assert(tick_mode(w) == RunState::SaveGame);
    lemma_shown_keeps_sound(w);
    assert(is_last(player_pred(after), after.player_entity));
    lemma_last_entity(player_pred(after), after.player_entity);
}

/// A world without entities has its marks in order.
pub proof fn lemma_empty_world_has_its_marks_in_order(w: WorldView)
    requires
        w.entities.len() == 0,
        w.markers == Map::<usize, crate::components::SerializeMe>::empty(),
        w.helpers == Map::<usize, crate::map::GameMapView>::empty(),
        w.positions.dom() =~= Set::empty(),
        w.renderables.dom() =~= Set::empty(),
        w.players.dom() =~= Set::empty(),
        w.names.dom() =~= Set::empty(),
        w.items.dom() =~= Set::empty(),
        w.stored.dom() =~= Set::empty(),
        w.impassables.dom() =~= Set::empty(),
        w.requires_item.dom() =~= Set::empty(),
        w.contains_item.dom() =~= Set::empty(),
        w.requires_items.dom() =~= Set::empty(),
        w.contains_items.dom() =~= Set::empty(),
        w.permanent_items.dom() =~= Set::empty(),
        w.portals.dom() =~= Set::empty(),
        w.belongs.dom() =~= Set::empty(),
        w.npcs.dom() =~= Set::empty(),
        w.interactions.dom() =~= Set::empty(),
        w.dormant_positions.dom() =~= Set::empty(),
        w.revealer_infos.dom() =~= Set::empty(),
    ensures
        marks_in_order(w),
{
}

/// Whatever is built keeps the marks in order: the new entity is marked, and it alone
/// gets components.
pub proof fn lemma_building_keeps_the_marks(w: WorldView)
    requires
        marks_in_order(w),
        w.entities.len() < usize::MAX,
    ensures
        forall|name: Seq<char>, domain: Place| #[trigger]
            marks_in_order(with_marked(w, name, domain)),
        forall|name: Seq<char>, coord: (i32, i32), glyph: u16| #[trigger]
            marks_in_order(with_player(w, name, coord, glyph)),
        forall|name: ItemName, domain: Place, coord: (i32, i32), permanent: bool, glyph: u16|
            #[trigger] marks_in_order(with_active_item(w, name, domain, coord, permanent, glyph)),
        forall|
            name: Seq<char>,
            domain: Place,
            coord: (i32, i32),
            target: Place,
            warp_place: (i32, i32),
            key: Option<ItemName>,
            glyph: u16,
        | #[trigger]
            marks_in_order(
                with_door_or_portal(w, name, domain, coord, target, warp_place, key, glyph),
            ),
        forall|name: Seq<char>, door: DormantDoor, glyph: u16| #[trigger]
            marks_in_order(with_dormant_door(w, name, door, glyph)),
        forall|name: ItemName| #[trigger] marks_in_order(with_dormant_item(w, name)),
        forall|name: Seq<char>, kit: NpcKit, script: Seq<Seq<Seq<char>>>| #[trigger]
            marks_in_order(with_npc(w, name, kit, script)),
        forall|
            name: Seq<char>,
            domain: Place,
            coord: (i32, i32),
            glyph: u16,
            fg: Rgb,
            line: Seq<char>,
        | #[trigger] marks_in_order(with_one_liner(w, name, domain, coord, glyph, fg, line)),
{
    let e = w.entities.len() as usize;
    assert(!w.markers.contains_key(e));
}

/// The first player that is built is the one player of the world, once it is the
/// tracked one.
pub proof fn lemma_first_player_is_in_order(
    w: WorldView,
    name: Seq<char>,
    coord: (i32, i32),
    glyph: u16,
)
    requires
        marks_in_order(w),
        w.entities.len() < usize::MAX,
        forall|e: usize| !w.players.contains_key(e),
    ensures
        player_in_order(
            WorldView {
                player_entity: w.entities.len() as usize,
                ..with_player(w, name, coord, glyph)
            },
        ),
{
    let e = w.entities.len() as usize;
    assert(!w.markers.contains_key(e));
}

/// Saving keeps a world tidy: it leaves a restorable world as it is.
pub proof fn lemma_saving_keeps_tidy(w: WorldView)
    requires
        restorable(w),
        tidy(w),
    ensures
        after_save(w) == w,
        tidy(after_save(w)),
{
    lemma_save_keeps_the_world(w);
}

/// A world that was saved is tidy when it is loaded again.
pub proof fn lemma_loaded_world_is_tidy(w: WorldView, other: WorldView)
    requires
        restorable(w),
        tidy(w),
    ensures
        after_load(other, snapshot_of(with_helper(w))) matches Ok(loaded) && tidy(loaded),
{
    lemma_load_restores_what_was_saved(w, other);
    let loaded = with_session_of(w, other);
    assert(marks_in_order(loaded));
    assert(player_in_order(loaded));
}

} // verus!
