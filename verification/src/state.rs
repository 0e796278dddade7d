use vstd::prelude::*;
use vstd::string::StringExecFns;
use crate::components::{Name, Position, Stored};
use crate::constants::{CONSOLE_ITEM_USED, CONSOLE_WRONG_ITEM, MAP_HEIGHT, MAP_WIDTH};
use crate::dialogue::{
    after_exchange, can_interact, exchange_ready, lemma_exchange_keeps_the_places,
    lemma_exchange_stays_in_the_script, used_line,
};
use crate::gamelog::{
    lemma_lines_below_bound, lemma_lines_below_none, lemma_lines_below_single, lines_below,
    lines_of_all,
};
use crate::gui::{
    draw_enter_name, draw_main_menu, draw_npc_interaction, draw_use_item, inventory_of, item_choice,
    lemma_inventory_of_same_items, menu_result, typed_name, ItemMenuResult, Key, MainMenuResult,
    MainMenuSelection, NpcInteractionResult,
};
use crate::items::ItemName;
use crate::map::{lemma_overlaid_len, overlaid, tile_index, GameMap, GameMapView, Place, TileType};
use crate::player::{after_input, player_input};
use crate::store::{first_entity, lemma_first_found, lemma_views_insert};
use crate::systems::{
    after_systems, collected, holds, is_dormant_here, recolored, reveal_condition, revealed,
    DoorRevealSystem, ItemAdjustmentSystem, ItemCollectionSystem, ItemCombinationSystem,
};
use crate::world::{find_item, stored_item_pred, World, WorldView};

verus! {

/// The mode that the game is in.
#[derive(PartialEq, Eq, Structural, Copy, Clone, Debug)]
pub enum RunState {
    Menu { menu_selection: MainMenuSelection },
    EnterName,
    Game,
    SaveGame,
    UseInventory,
    InteractNpc { index: usize },
    Credits,
    GameOver,
}

/// What the caller is asked to do after a tick, because it takes the world outside.
#[derive(PartialEq, Eq, Structural, Copy, Clone, Debug)]
pub enum Request {
    Nothing,
    LoadGame,
    SaveGame,
    Quit,
}

/// The game: the world that every system works on.
pub struct State {
    pub ecs: World,
}

/// Whether `e` is a locked entity of the current place on the targeted tile.
pub open spec fn is_barrier(w: WorldView, e: usize) -> bool {
    &&& w.positions.contains_key(e)
    &&& w.requires_item.contains_key(e)
    &&& w.belongs.contains_key(e)
    &&& w.belongs[e].domain == w.current_place
    &&& w.positions[e].x == w.targeted_pos.x
    &&& w.positions[e].y == w.targeted_pos.y
}

/// [`is_barrier`] as a predicate on ids.
pub open spec fn barrier_pred(w: WorldView) -> spec_fn(usize) -> bool {
    |e: usize| is_barrier(w, e)
}

/// Whether `item` opens the locked entity `e` on the targeted tile.
pub open spec fn opens(w: WorldView, item: ItemName, e: usize) -> bool {
    is_barrier(w, e) && w.requires_item[e].key == item
}

/// The line that is logged when `item` is tried on the locked entity `e`.
pub open spec fn trial_line_of(w: WorldView, item: ItemName) -> spec_fn(usize) -> Seq<char> {
    |e: usize|
        if w.requires_item[e].key == item {
            used_line(item)
        } else {
            CONSOLE_WRONG_ITEM@
        }
}

/// The tiles after `item` was tried on the locked entities below `n`, by ascending id:
/// the tile of one that opens becomes a portal where the entity is one, else floor.
pub open spec fn unlocked_tiles(w: WorldView, item: ItemName, n: nat) -> Seq<TileType>
    decreases n,
{
    if n == 0 {
        w.map.tiles
    } else {
        let rest = unlocked_tiles(w, item, (n - 1) as nat);
        let e = (n - 1) as usize;
        if n - 1 <= usize::MAX && opens(w, item, e) {
            rest.update(
                tile_index(w.positions[e].x as int, w.positions[e].y as int),
                if w.portals.contains_key(e) {
                    TileType::Portal
                } else {
                    TileType::Floor
                },
            )
        } else {
            rest
        }
    }
}

/// Ids that carry no lock leave the tiles as they are.
pub proof fn lemma_unlocked_tiles_bound(w: WorldView, item: ItemName, n: nat, m: nat)
    requires
        n <= m,
        forall|e: usize| e >= n ==> !#[trigger] w.requires_item.contains_key(e),
    ensures
        unlocked_tiles(w, item, m) == unlocked_tiles(w, item, n),
    decreases m,
{
    if m > n {
        lemma_unlocked_tiles_bound(w, item, n, (m - 1) as nat);
    }
}

/// Where nothing opens, the tiles stay as they are.
pub proof fn lemma_unlocked_tiles_same(w: WorldView, item: ItemName, n: nat)
    requires
        forall|e: usize| !opens(w, item, e),
    ensures
        unlocked_tiles(w, item, n) == w.map.tiles,
    decreases n,
{
    if n > 0 {
        lemma_unlocked_tiles_same(w, item, (n - 1) as nat);
    }
}

/// The item that is used when the player chooses the identity `item` in the inventory:
/// the first item of that identity that the player holds.
pub open spec fn used_item(w: WorldView, item: ItemName) -> Option<usize> {
    first_entity(stored_item_pred(w, item))
}

/// What the player holds after `item` was tried: where a lock opened, the item that was
/// used is consumed, unless it is marked as permanent.
pub open spec fn stored_after_use(w: WorldView, item: ItemName) -> Map<usize, Stored> {
    match used_item(w, item) {
        Some(k) => if (exists|e: usize| opens(w, item, e)) && !w.permanent_items.contains_key(k) {
            w.stored.remove(k)
        } else {
            w.stored
        },
        None => w.stored,
    }
}

/// The world after `item` was tried on the targeted tile. Every locked entity of the
/// current place there logs a line. One whose key is `item` loses its lock, and its tile
/// opens: it becomes a portal where the entity is one, else floor. Where a lock opened,
/// the item that was used leaves the inventory, unless it is marked as permanent, and the
/// game goes on.
pub open spec fn after_use(w: WorldView, item: ItemName) -> WorldView {
    WorldView {
        log: w.log + lines_of_all(barrier_pred(w), trial_line_of(w, item)),
        stored: stored_after_use(w, item),
        map: GameMapView { tiles: unlocked_tiles(w, item, (usize::MAX + 1) as nat), ..w.map },
        requires_item: Map::new(
            |e: usize| w.requires_item.contains_key(e) && !opens(w, item, e),
            |e: usize| w.requires_item[e],
        ),
        run_state: if exists|e: usize| opens(w, item, e) {
            RunState::Game
        } else {
            w.run_state
        },
        ..w
    }
}

/// An item that opens nothing on the targeted tile changes only the log: every lock
/// stays, the map and the inventory stay, and so does the mode.
pub proof fn lemma_wrong_item_changes_only_the_log(w: WorldView, item: ItemName)
    requires
        forall|e: usize| !opens(w, item, e),
    ensures
        after_use(w, item) == (WorldView { log: after_use(w, item).log, ..w }),
{
    let after = after_use(w, item);
    lemma_unlocked_tiles_same(w, item, (usize::MAX + 1) as nat);
    assert(after.requires_item =~= w.requires_item);
}

/// The item that a lock asks for takes the lock away and leaves every other lock.
pub proof fn lemma_right_item_takes_the_lock(w: WorldView, item: ItemName, e: usize)
    requires
        opens(w, item, e),
    ensures
        !after_use(w, item).requires_item.contains_key(e),
        after_use(w, item).run_state == RunState::Game,
        forall|f: usize|
            w.requires_item.contains_key(f) && !opens(w, item, f) ==> after_use(
                w,
                item,
            ).requires_item.contains_key(f) && after_use(w, item).requires_item[f]
                == w.requires_item[f],
{
}

/// Where a lock opens, the item that was used is consumed unless it is marked as
/// permanent, and nothing else enters or leaves the inventory: the entity that was
/// unlocked keeps what it had.
pub proof fn lemma_used_item_is_consumed(w: WorldView, item: ItemName, e: usize, k: usize)
    requires
        opens(w, item, e),
        used_item(w, item) == Some(k),
    ensures
        w.stored.contains_key(k),
        after_use(w, item).stored.contains_key(k) == w.permanent_items.contains_key(k),
        forall|f: usize|
            f != k ==> after_use(w, item).stored.contains_key(f) == w.stored.contains_key(f),
{
    lemma_first_found(stored_item_pred(w, item), k);
}

/// A locked entity of another place stays locked whatever is tried on the targeted tile,
/// though it may stand at the same coordinates.
pub proof fn lemma_lock_of_another_place_stays(w: WorldView, item: ItemName, e: usize)
    requires
        w.requires_item.contains_key(e),
        !w.belongs.contains_key(e) || w.belongs[e].domain != w.current_place,
    ensures
        after_use(w, item).requires_item.contains_key(e),
        after_use(w, item).requires_item[e] == w.requires_item[e],
{
}

/// Where the targeted tile holds no locked entity of the current place, nothing changes
/// when an item is tried: no line is logged, no tile changes, nothing is consumed.
pub proof fn lemma_nothing_locked_changes_nothing(w: WorldView, item: ItemName)
    requires
        forall|e: usize| !is_barrier(w, e),
    ensures
        after_use(w, item) == w,
{
    assert forall|e: usize| !#[trigger] barrier_pred(w)(e) by {
        assert(!is_barrier(w, e));
    }
    lemma_lines_below_none(barrier_pred(w), trial_line_of(w, item), (usize::MAX + 1) as nat);
    lemma_unlocked_tiles_same(w, item, (usize::MAX + 1) as nat);
    let after = after_use(w, item);
    assert(after.requires_item =~= w.requires_item);
    assert(after.log =~= w.log);
}

/// Whether the player has won: they are back at the school with the main key.
pub open spec fn has_won(w: WorldView) -> bool {
    w.current_place == Place::SchoolSouth && holds(w, ItemName::OttomanKeyMain)
}

/// The world with the map of the current place: it is drawn anew where the map is that of
/// another place.
pub open spec fn remapped(w: WorldView) -> WorldView {
    if w.map.place != w.current_place {
        WorldView {
            map: GameMapView {
                tiles: overlaid(w, w.current_place.bare_tiles()),
                width: MAP_WIDTH,
                height: MAP_HEIGHT,
                place: w.current_place,
            },
            ..w
        }
    } else {
        w
    }
}

/// The world in which the entity of the player stands on the tracked tile.
pub open spec fn synced(w: WorldView) -> WorldView {
    if w.positions.contains_key(w.player_entity) {
        WorldView {
            positions: w.positions.insert(
                w.player_entity,
                Position { x: w.player_pos.x, y: w.player_pos.y },
            ),
            ..w
        }
    } else {
        w
    }
}

/// The world in which every player among the entities bears the name that was typed.
pub open spec fn named(w: WorldView) -> WorldView {
    WorldView {
        names: Map::new(
            |e: usize| w.names.contains_key(e),
            |e: usize|
                if w.players.contains_key(e) {
                    w.player_name
                } else {
                    w.names[e]
                },
        ),
        ..w
    }
}

/// The world in the mode `mode`.
pub open spec fn in_mode(w: WorldView, mode: RunState) -> WorldView {
    WorldView { run_state: mode, ..w }
}

/// The world after a tick, and what the caller is asked to do.
pub ghost struct Tick {
    pub world: WorldView,
    pub request: Request,
}

/// The mode in which a tick is played: the end of the game where the player has won.
pub open spec fn tick_mode(w: WorldView) -> RunState {
    if has_won(w) {
        RunState::GameOver
    } else {
        w.run_state
    }
}

/// Whether `mode` shows the map.
pub open spec fn shows_map(mode: RunState) -> bool {
    !(mode is Menu || mode is Credits || mode is EnterName || mode is GameOver)
}

/// The world as a tick shows it: in a mode with a map, the map is that of the current
/// place and the entity of the player stands on the tracked tile.
pub open spec fn shown(w: WorldView) -> WorldView {
    if shows_map(tick_mode(w)) {
        synced(remapped(w))
    } else {
        w
    }
}

/// A tick in the main menu: the selection moves, or what was selected begins.
pub open spec fn tick_menu(s: WorldView, key: Option<Key>, save_exists: bool) -> Tick {
    match menu_result(s.run_state, key, save_exists) {
        MainMenuResult::NoSelection { selected } => Tick {
            world: in_mode(s, RunState::Menu { menu_selection: selected }),
            request: Request::Nothing,
        },
        MainMenuResult::Selected { selected } => match selected {
            MainMenuSelection::NewGame => Tick {
                world: in_mode(s, RunState::EnterName),
                request: Request::Nothing,
            },
            MainMenuSelection::LoadGame => Tick {
                world: in_mode(s, RunState::Game),
                request: Request::LoadGame,
            },
            MainMenuSelection::QuitGame => Tick { world: s, request: Request::Quit },
            MainMenuSelection::Credits => Tick {
                world: in_mode(s, RunState::Credits),
                request: Request::Nothing,
            },
        },
    }
}

/// A tick while the player types their name: once it is complete the players bear it and
/// the game begins.
pub open spec fn tick_enter_name(s: WorldView, key: Option<Key>) -> Tick {
    let typed = WorldView { player_name: typed_name(s.player_name, key), ..s };
    if key == Some(Key::Return) {
        Tick { world: in_mode(named(typed), RunState::Game), request: Request::Nothing }
    } else {
        Tick { world: in_mode(typed, RunState::EnterName), request: Request::Nothing }
    }
}

/// A tick while the player walks: the systems run, then the key is acted on.
pub open spec fn tick_game(s: WorldView, key: Option<Key>) -> Tick {
    let moved = after_input(after_systems(s), key);
    Tick { world: in_mode(moved.world, moved.mode), request: Request::Nothing }
}

/// A tick in the inventory: the item that was chosen is tried on the targeted tile.
pub open spec fn tick_use_inventory(s: WorldView, key: Option<Key>) -> Tick {
    let choice = item_choice(inventory_of(s), key);
    match choice.0 {
        ItemMenuResult::NoResponse => Tick {
            world: in_mode(s, RunState::UseInventory),
            request: Request::Nothing,
        },
        ItemMenuResult::Cancel => Tick { world: in_mode(s, RunState::Game), request: Request::Nothing },
        ItemMenuResult::Selected => Tick {
            world: after_use(in_mode(s, RunState::UseInventory), choice.1->0),
            request: Request::Nothing,
        },
    }
}

/// A tick in an exchange: one frame of it is played from the line `index`.
pub open spec fn tick_interact(s: WorldView, key: Option<Key>, index: usize) -> Tick {
    let step = after_exchange(s, key, index);
    Tick {
        world: in_mode(
            step.world,
            match step.result {
                NpcInteractionResult::NoResponse => RunState::InteractNpc { index },
                NpcInteractionResult::Done => RunState::Game,
                NpcInteractionResult::NextDialogue { index } => RunState::InteractNpc { index },
            },
        ),
        request: Request::Nothing,
    }
}

/// One tick, by the mode in which it is played.
pub open spec fn after_tick(w: WorldView, key: Option<Key>, save_exists: bool) -> Tick {
    let s = shown(w);
    match tick_mode(w) {
        RunState::Menu { menu_selection } => tick_menu(s, key, save_exists),
        RunState::EnterName => tick_enter_name(s, key),
        RunState::Credits => Tick {
            world: if key is Some {
                in_mode(s, RunState::Menu { menu_selection: MainMenuSelection::Credits })
            } else {
                in_mode(s, RunState::Credits)
            },
            request: Request::Nothing,
        },
        RunState::Game => tick_game(s, key),
        RunState::SaveGame => Tick {
            world: in_mode(s, RunState::Menu { menu_selection: MainMenuSelection::LoadGame }),
            request: Request::SaveGame,
        },
        RunState::UseInventory => tick_use_inventory(s, key),
        RunState::InteractNpc { index } => tick_interact(s, key, index),
        RunState::GameOver => Tick {
            world: in_mode(s, RunState::GameOver),
            request: if key is Some {
                Request::Quit
            } else {
                Request::Nothing
            },
        },
    }
}

/// Whether a tick can be played: the world is sound, and in an exchange the frame to
/// play exists.
pub open spec fn tick_ready(w: WorldView) -> bool {
    &&& w.wf()
    &&& match tick_mode(w) {
        RunState::InteractNpc { index } => exchange_ready(shown(w), index),
        _ => true,
    }
}

/// The player who has won sees the end of the game after the tick, whatever the mode and
/// the key were.
pub proof fn lemma_win_overrides_every_mode(w: WorldView, key: Option<Key>, save_exists: bool)
    requires
        has_won(w),
    ensures
        after_tick(w, key, save_exists).world == in_mode(w, RunState::GameOver),
{
}

/// What a tick shows, it shows again when that is shown; the mode in which the tick is
/// played does not depend on it.
pub proof fn lemma_shown_is_idempotent(w: WorldView)
    ensures
        shown(shown(w)) == shown(w),
        tick_mode(shown(w)) == tick_mode(w),
{
    let s = shown(w);
    assert(stored_item_pred(s, ItemName::OttomanKeyMain) =~= stored_item_pred(
        w,
        ItemName::OttomanKeyMain,
    ));
    assert(tick_mode(s) == tick_mode(w));
    if shows_map(tick_mode(w)) {
        assert(remapped(s) == s);
        if s.positions.contains_key(s.player_entity) {
            assert(s.positions.insert(
                s.player_entity,
                Position { x: s.player_pos.x, y: s.player_pos.y },
            ) =~= s.positions);
        }
    }
}

/// To show a sound world leaves it sound.
pub proof fn lemma_shown_keeps_sound(w: WorldView)
    requires
        w.wf(),
    ensures
        shown(w).wf(),
{
    if shows_map(tick_mode(w)) {
        let r = remapped(w);
        if w.map.place != w.current_place {
            lemma_overlaid_len(w, w.current_place.bare_tiles());
        }
        assert(r.wf());
    }
}

/// A tick plays on what it shows: to show the world first changes nothing of the tick.
pub proof fn lemma_tick_of_shown(w: WorldView, key: Option<Key>, save_exists: bool)
    ensures
        after_tick(shown(w), key, save_exists) == after_tick(w, key, save_exists),
        tick_ready(w) ==> tick_ready(shown(w)),
{
    lemma_shown_is_idempotent(w);
    let s = shown(w);
    if shows_map(tick_mode(w)) {
        assert(s.run_state == w.run_state);
    }
    if tick_ready(w) && shows_map(tick_mode(w)) {
        lemma_shown_keeps_sound(w);
    }
}

impl State {
    /// The mode in which the next tick is played.
    pub fn mode(&self) -> (mode: RunState)
        ensures
            mode == tick_mode(self.ecs@),
    {
        if self.has_won() {
            RunState::GameOver
        } else {
            self.ecs.run_state
        }
    }

    /// Brings the map and the entity of the player up to date, as a tick does before it
    /// plays, and says whether a tick can be played then, see [`tick_ready`]. A world that
    /// is not sound is left as it is.
    pub fn ready(&mut self) -> (b: bool)
        ensures
            b == tick_ready(final(self).ecs@),
            old(self).ecs.wf() ==> final(self).ecs@ == shown(old(self).ecs@),
            !old(self).ecs.wf() ==> final(self).ecs@ == old(self).ecs@,
    {
        if !self.ecs.check() {
            return false;
        }
        let mode = self.mode();
        proof {
            lemma_shown_is_idempotent(self.ecs@);
        }
        match mode {
            RunState::Menu { .. } | RunState::Credits | RunState::EnterName | RunState::GameOver => {},
            _ => {
                self.remap();
                self.sync_player();
            },
        }
        match mode {
            RunState::InteractNpc { index } => can_interact(&self.ecs, index),
            _ => true,
        }
    }

    /// Plays one tick where one can be played, see [`tick_ready`], and returns what it asks
    /// for. Where none can be played nothing is asked for, and the world is left as
    /// [`State::ready`] leaves it.
    pub fn advance(&mut self, key: Option<Key>, save_exists: bool) -> (answer: Option<Request>)
        ensures
            tick_ready(old(self).ecs@) ==> answer is Some && (Tick {
                world: final(self).ecs@,
                request: answer->0,
            }) == after_tick(old(self).ecs@, key, save_exists),
            !tick_ready(old(self).ecs@) ==> answer is None,
            !tick_ready(old(self).ecs@) && old(self).ecs.wf() ==> final(self).ecs@ == shown(
                old(self).ecs@,
            ),
            !old(self).ecs.wf() ==> final(self).ecs@ == old(self).ecs@,
    {
        proof {
            lemma_tick_of_shown(self.ecs@, key, save_exists);
            lemma_shown_is_idempotent(self.ecs@);
        }
        if self.ready() {
            Some(self.tick(key, save_exists))
        } else {
            None
        }
    }

    /// Plays one tick: `key` is the key that was pressed in this frame, `save_exists` says
    /// whether there is a saved game. Returns what the caller is to do with the world
    /// before the next tick.
    pub fn tick(&mut self, key: Option<Key>, save_exists: bool) -> (request: Request)
        requires
            tick_ready(old(self).ecs@),
        ensures
            (Tick { world: final(self).ecs@, request }) == after_tick(
                old(self).ecs@,
                key,
                save_exists,
            ),
            final(self).ecs.wf(),
    {
        let run_state = self.mode();
        match run_state {
            RunState::Menu { .. } | RunState::Credits | RunState::EnterName | RunState::GameOver => {},
            _ => {
                self.remap();
                self.sync_player();
            },
        }
        match run_state {
            RunState::Menu { .. } => self.tick_menu(key, save_exists),
            RunState::EnterName => self.tick_enter_name(key),
            RunState::Credits => {
                if key.is_some() {
                    self.ecs.run_state = RunState::Menu { menu_selection: MainMenuSelection::Credits };
                }
                Request::Nothing
            },
            RunState::Game => self.tick_game(key),
            RunState::SaveGame => {
                self.ecs.run_state = RunState::Menu { menu_selection: MainMenuSelection::LoadGame };
                Request::SaveGame
            },
            RunState::UseInventory => self.tick_use_inventory(key),
            RunState::InteractNpc { index } => self.tick_interact(key, index),
            RunState::GameOver => {
                self.ecs.run_state = RunState::GameOver;
                if key.is_some() {
                    Request::Quit
                } else {
                    Request::Nothing
                }
            },
        }
    }

    /// Runs the systems of one tick in their order: collection, painting, reveal,
    /// combination.
    pub fn run_systems(&mut self)
        requires
            old(self).ecs.wf(),
        ensures
            final(self).ecs@ == after_systems(old(self).ecs@),
            final(self).ecs.wf(),
    {
        let mut item_collection_system = ItemCollectionSystem {  };
        item_collection_system.run(&mut self.ecs);
        let mut item_adjustment_system = ItemAdjustmentSystem {  };
        item_adjustment_system.run(&mut self.ecs);
        let mut door_reveal_system = DoorRevealSystem {  };
        door_reveal_system.run(&mut self.ecs);
        let mut item_combination_system = ItemCombinationSystem {  };
        item_combination_system.run(&mut self.ecs);
    }

    /// Tries `item` on the targeted tile.
    pub fn use_item(&mut self, item: ItemName)
        requires
            old(self).ecs.wf(),
        ensures
            final(self).ecs@ == after_use(old(self).ecs@, item),
            final(self).ecs.wf(),
    {
        let world = &mut self.ecs;
        let ghost w = world@;
        let ghost p = barrier_pred(w);
        let ghost line = trial_line_of(w, item);
        let n = world.requires_item.bound();
        let mut opened = false;
        let mut e: usize = 0;
        while e < n
            invariant
                e <= n,
                w == old(self).ecs@,
                w.wf(),
                world.wf(),
                p == barrier_pred(w),
                line == trial_line_of(w, item),
                forall|f: usize| w.requires_item.contains_key(f) ==> f < n,
                world@ == (WorldView {
                    log: world@.log,
                    map: world@.map,
                    requires_item: world@.requires_item,
                    ..w
                }),
                world@.map == (GameMapView { tiles: world@.map.tiles, ..w.map }),
                world@.log =~= w.log + lines_below(p, line, e as nat),
                world@.map.tiles == unlocked_tiles(w, item, e as nat),
                world@.requires_item =~= Map::new(
                    |k: usize| w.requires_item.contains_key(k) && !(k < e && opens(w, item, k)),
                    |k: usize| w.requires_item[k],
                ),
                opened == (exists|k: usize| k < e && opens(w, item, k)),
            decreases n - e,
        {
            let joined = match (
                world.positions.get(e),
                world.requires_item.get(e),
                world.belongs.get(e),
            ) {
                (Some(pos), Some(req), Some(bel)) => Some((*pos, *req, *bel)),
                _ => None,
            };
            if let Some((pos, req, bel)) = joined {
                if bel.domain == world.current_place && pos.x == world.targeted_pos.x && pos.y
                    == world.targeted_pos.y {
                    if req.key == item {
                        world.log.push(
                            String::from_str(CONSOLE_ITEM_USED).concat(item.to_string().as_str()),
                        );
                        let tile = if world.portals.contains(e) {
                            TileType::Portal
                        } else {
                            TileType::Floor
                        };
                        world.map.set_tile(pos.x, pos.y, tile);
                        world.requires_item.remove(e);
                        opened = true;
                        proof {
                            assert(opens(w, item, e));
                        }
                    } else {
                        world.log.push(String::from_str(CONSOLE_WRONG_ITEM));
                    }
                }
            }
            e = e + 1;
        }
        proof {
            assert(stored_item_pred(world@, item) =~= stored_item_pred(w, item));
            if exists|k: usize| opens(w, item, k) {
                let k = choose|k: usize| opens(w, item, k);
                assert(w.requires_item.contains_key(k));
                assert(k < e && opens(w, item, k));
            }
            assert(opened == (exists|k: usize| opens(w, item, k)));
        }
        let ghost at_end = world@;
        if opened {
            if let Some(used) = find_item(world, item, true) {
                if !world.permanent_items.contains(used) {
                    world.stored.remove(used);
                }
            }
            world.run_state = RunState::Game;
        }
        proof {
            assert forall|f: usize| f >= n implies !#[trigger] p(f) by {
                assert(!w.requires_item.contains_key(f));
            }
            lemma_lines_below_bound(p, line, n as nat, (usize::MAX + 1) as nat);
            lemma_unlocked_tiles_bound(w, item, n as nat, (usize::MAX + 1) as nat);
            assert(world@.requires_item =~= after_use(w, item).requires_item);
            assert(world@.log =~= after_use(w, item).log);
            assert(at_end.stored == w.stored);
            assert(world@.stored =~= after_use(w, item).stored);
        }
    }

    /// Whether the player has won.
    fn has_won(&self) -> (b: bool)
        ensures
            b == has_won(self.ecs@),
    {
        self.ecs.current_place == Place::SchoolSouth && find_item(
            &self.ecs,
            ItemName::OttomanKeyMain,
            true,
        ).is_some()
    }

    /// Draws the map anew where it is that of another place than the current one.
    fn remap(&mut self)
        requires
            old(self).ecs.wf(),
        ensures
            final(self).ecs@ == remapped(old(self).ecs@),
            final(self).ecs.wf(),
    {
        if self.ecs.map.place != self.ecs.current_place {
            let new_map = GameMap::new_map_rooms_and_corridors(&self.ecs, self.ecs.current_place);
            self.ecs.map = new_map;
        }
    }

    /// Puts the entity of the player on the tracked tile.
    fn sync_player(&mut self)
        requires
            old(self).ecs.wf(),
        ensures
            final(self).ecs@ == synced(old(self).ecs@),
            final(self).ecs.wf(),
    {
        if self.ecs.positions.contains(self.ecs.player_entity) {
            self.ecs.positions.insert(
                self.ecs.player_entity,
                Position { x: self.ecs.player_pos.x, y: self.ecs.player_pos.y },
            );
        }
    }

    /// Gives every player among the entities the name that was typed.
    fn name_players(&mut self)
        requires
            old(self).ecs.wf(),
        ensures
            final(self).ecs@ == named(old(self).ecs@),
            final(self).ecs.wf(),
    {
        let world = &mut self.ecs;
        let ghost w = world@;
        let n = world.players.bound();
        let mut e: usize = 0;
        while e < n
            invariant
                w == old(self).ecs@,
                forall|f: usize| w.players.contains_key(f) ==> f < n,
                world@ == (WorldView { names: world@.names, ..w }),
                world@.names =~= Map::new(
                    |k: usize| w.names.contains_key(k),
                    |k: usize|
                        if k < e && w.players.contains_key(k) {
                            w.player_name
                        } else {
                            w.names[k]
                        },
                ),
            decreases n - e,
        {
            if world.players.contains(e) && world.names.contains(e) {
                let ghost before = world.names;
                let name = Name { name: world.player_name.name.clone() };
                world.names.insert(e, name);
                proof {
                    lemma_views_insert(before, world.names, e, name);
                }
            }
            e = e + 1;
        }
        proof {
            assert(world@.names =~= named(w).names);
        }
    }

    /// Plays a tick in the main menu.
    fn tick_menu(&mut self, key: Option<Key>, save_exists: bool) -> (request: Request)
        requires
            old(self).ecs.wf(),
        ensures
            (Tick { world: final(self).ecs@, request }) == tick_menu(
                old(self).ecs@,
                key,
                save_exists,
            ),
            final(self).ecs.wf(),
    {
        match draw_main_menu(self, key, save_exists) {
            MainMenuResult::NoSelection { selected } => {
                self.ecs.run_state = RunState::Menu { menu_selection: selected };
                Request::Nothing
            },
            MainMenuResult::Selected { selected } => {
                match selected {
                    MainMenuSelection::NewGame => {
                        self.ecs.run_state = RunState::EnterName;
                        Request::Nothing
                    },
                    MainMenuSelection::LoadGame => {
                        self.ecs.run_state = RunState::Game;
                        Request::LoadGame
                    },
                    MainMenuSelection::QuitGame => Request::Quit,
                    MainMenuSelection::Credits => {
                        self.ecs.run_state = RunState::Credits;
                        Request::Nothing
                    },
                }
            },
        }
    }

    /// Plays a tick while the player types their name.
    fn tick_enter_name(&mut self, key: Option<Key>) -> (request: Request)
        requires
            old(self).ecs.wf(),
        ensures
            (Tick { world: final(self).ecs@, request }) == tick_enter_name(old(self).ecs@, key),
            final(self).ecs.wf(),
    {
        let done = draw_enter_name(&mut self.ecs, key);
        if done {
            self.name_players();
            self.ecs.run_state = RunState::Game;
        } else {
            self.ecs.run_state = RunState::EnterName;
        }
        Request::Nothing
    }

    /// Plays a tick while the player walks.
    fn tick_game(&mut self, key: Option<Key>) -> (request: Request)
        requires
            old(self).ecs.wf(),
        ensures
            (Tick { world: final(self).ecs@, request }) == tick_game(old(self).ecs@, key),
            final(self).ecs.wf(),
    {
        self.run_systems();
        let mode = player_input(self, key);
        self.ecs.run_state = mode;
        Request::Nothing
    }

    /// Plays a tick in the inventory.
    fn tick_use_inventory(&mut self, key: Option<Key>) -> (request: Request)
        requires
            old(self).ecs.wf(),
        ensures
            (Tick { world: final(self).ecs@, request }) == tick_use_inventory(old(self).ecs@, key),
            final(self).ecs.wf(),
    {
        let (result, item) = draw_use_item(self, key);
        self.ecs.run_state = RunState::UseInventory;
        match (result, item) {
            (ItemMenuResult::Cancel, _) => {
                self.ecs.run_state = RunState::Game;
            },
            (ItemMenuResult::Selected, Some(item)) => {
                self.use_item(item);
            },
            _ => {},
        }
        Request::Nothing
    }

    /// Plays a tick in an exchange.
    fn tick_interact(&mut self, key: Option<Key>, index: usize) -> (request: Request)
        requires
            old(self).ecs.wf(),
            exchange_ready(old(self).ecs@, index),
        ensures
            (Tick { world: final(self).ecs@, request }) == tick_interact(
                old(self).ecs@,
                key,
                index,
            ),
            final(self).ecs.wf(),
    {
        match draw_npc_interaction(&mut self.ecs, key, index) {
            NpcInteractionResult::NoResponse => {
                self.ecs.run_state = RunState::InteractNpc { index };
            },
            NpcInteractionResult::Done => {
                self.ecs.run_state = RunState::Game;
            },
            NpcInteractionResult::NextDialogue { index } => {
                self.ecs.run_state = RunState::InteractNpc { index };
            },
        }
        Request::Nothing
    }
}

/// Whether every player among the entities is in the current place.
pub open spec fn players_in_place(w: WorldView) -> bool {
    forall|e: usize|
        w.players.contains_key(e) && #[trigger] w.belongs.contains_key(e) ==> w.belongs[e].domain
            == w.current_place
}

/// A tick makes no player and takes none away, and it keeps the players in the current
/// place: where a portal changes the place, it takes the players along.
pub proof fn lemma_tick_keeps_the_players(w: WorldView, key: Option<Key>, save_exists: bool)
    ensures
        after_tick(w, key, save_exists).world.players == w.players,
        players_in_place(w) ==> players_in_place(after_tick(w, key, save_exists).world),
{
    let s = shown(w);
    assert(s.players == w.players && s.belongs == w.belongs && s.current_place == w.current_place);
    match tick_mode(w) {
        RunState::Game => {
            let ran = after_systems(s);
            assert(ran.players == w.players && ran.belongs == w.belongs && ran.current_place
                == w.current_place);
            lemma_input_keeps_the_players(ran, key);
        },
        RunState::InteractNpc { index } => {
            lemma_exchange_keeps_the_places(s, key, index);
        },
        _ => {},
    }
}

/// A key makes no player and takes none away, and it keeps the players in the current
/// place.
pub proof fn lemma_input_keeps_the_players(w: WorldView, key: Option<Key>)
    ensures
        after_input(w, key).world.players == w.players,
        players_in_place(w) ==> players_in_place(after_input(w, key).world),
{
}

/// After a tick of play, an entity of the current place that is hidden until a zone
/// reveals it has a position exactly where the reveal of that tick found it to be seen:
/// every other such entity has a hidden position and no position.
pub proof fn lemma_hidden_is_on_the_map_exactly_if_seen(
    w: WorldView,
    key: Option<Key>,
    save_exists: bool,
    e: usize,
)
    requires
        tick_mode(w) == RunState::Game,
        is_dormant_here(w, e),
    ensures
        ({
            let after = after_tick(w, key, save_exists).world;
            let seen = recolored(collected(shown(w)));
            &&& after.dormant_positions.contains_key(e)
            &&& after.positions.contains_key(e) == reveal_condition(seen, e)
        }),
{
    let seen = recolored(collected(shown(w)));
    assert(is_dormant_here(seen, e));
    let ran = after_systems(shown(w));
    assert(ran.positions == revealed(seen).positions);
    assert(after_input(ran, key).world.positions == ran.positions);
    assert(after_input(ran, key).world.dormant_positions == w.dormant_positions);
}

/// A tick keeps every script within its pages: a script that stands at one of its pages
/// stands at one of them after the tick, whatever the mode and the key were.
pub proof fn lemma_tick_stays_in_the_script(
    w: WorldView,
    key: Option<Key>,
    save_exists: bool,
    m: usize,
)
    requires
        w.interactions.contains_key(m),
        w.interactions[m].dialogue_index < w.interactions[m].dialogues.len(),
    ensures
        ({
            let after = after_tick(w, key, save_exists).world;
            &&& after.interactions.contains_key(m)
            &&& after.interactions[m].dialogues == w.interactions[m].dialogues
            &&& after.interactions[m].dialogue_index < after.interactions[m].dialogues.len()
        }),
{
    let s = shown(w);
    assert(s.interactions == w.interactions);
    match tick_mode(w) {
        RunState::Game => {
            let ran = after_systems(s);
            assert(ran.interactions == w.interactions);
            assert(after_input(ran, key).world.interactions == w.interactions);
        },
        RunState::InteractNpc { index } => {
            lemma_exchange_stays_in_the_script(s, key, index, m);
        },
        _ => {},
    }
}

/// Where one entity alone opens, the tile on which it stands becomes a portal or floor,
/// and every other tile stays as it is.
pub proof fn lemma_unlocked_tiles_single(w: WorldView, item: ItemName, n: nat, g: usize)
    requires
        forall|e: usize| opens(w, item, e) <==> e == g,
    ensures
        unlocked_tiles(w, item, n) == (if g < n {
            w.map.tiles.update(
                tile_index(w.positions[g].x as int, w.positions[g].y as int),
                if w.portals.contains_key(g) {
                    TileType::Portal
                } else {
                    TileType::Floor
                },
            )
        } else {
            w.map.tiles
        }),
    decreases n,
{
    if n > 0 {
        lemma_unlocked_tiles_single(w, item, (n - 1) as nat, g);
    }
}

/// The right item opens the barrier: where one locked entity of the current place stands on
/// the targeted tile and `item` is its key, it loses its lock, its tile becomes a portal
/// where it is one and floor where not, every other tile stays, one line is logged, which
/// names the item, and the game goes on.
pub proof fn lemma_right_item_opens_the_barrier(w: WorldView, item: ItemName, g: usize)
    requires
        forall|e: usize| is_barrier(w, e) <==> e == g,
        w.requires_item[g].key == item,
    ensures
        ({
            let after = after_use(w, item);
            &&& !after.requires_item.contains_key(g)
            &&& forall|e: usize|
                e != g ==> after.requires_item.contains_key(e) == w.requires_item.contains_key(e)
            &&& after.run_state == RunState::Game
            &&& after.log == w.log.push(used_line(item))
            &&& after.map.tiles == w.map.tiles.update(
                tile_index(w.targeted_pos.x as int, w.targeted_pos.y as int),
                if w.portals.contains_key(g) {
                    TileType::Portal
                } else {
                    TileType::Floor
                },
            )
        }),
{
    assert(is_barrier(w, g));
    assert(opens(w, item, g));
    assert forall|e: usize| opens(w, item, e) <==> e == g by {
        assert(opens(w, item, e) ==> is_barrier(w, e));
    }
    lemma_unlocked_tiles_single(w, item, (usize::MAX + 1) as nat, g);
    let p = barrier_pred(w);
    assert forall|e: usize| #[trigger] p(e) <==> e == g by {
        assert(p(e) == is_barrier(w, e));
    }
    lemma_lines_below_single(p, trial_line_of(w, item), (usize::MAX + 1) as nat, g);
    assert(w.log + seq![used_line(item)] =~= w.log.push(used_line(item)));
}

/// A tick in the inventory opens the barrier: where the player has not won, the key that is
/// pressed chooses an item that is the key of a locked entity of the current place on
/// the targeted tile, and that entity is not the player, the entity has no lock after
/// the tick and the game goes on.
pub proof fn lemma_tick_opens_the_barrier(
    w: WorldView,
    key: Option<Key>,
    save_exists: bool,
    item: ItemName,
    g: usize,
)
    requires
        tick_mode(w) == RunState::UseInventory,
        item_choice(inventory_of(w), key) == (ItemMenuResult::Selected, Some(item)),
        is_barrier(w, g),
        w.requires_item[g].key == item,
        g != w.player_entity,
    ensures
        !after_tick(w, key, save_exists).world.requires_item.contains_key(g),
        after_tick(w, key, save_exists).world.run_state == RunState::Game,
        after_tick(w, key, save_exists).request == Request::Nothing,
{
    let s = shown(w);
    lemma_inventory_of_same_items(s, w, (usize::MAX + 1) as nat);
    let used = in_mode(s, RunState::UseInventory);
    assert(is_barrier(used, g));
    assert(opens(used, item, g));
}

/// A tick in the inventory opens the one barrier on the targeted tile as
/// [`lemma_right_item_opens_the_barrier`] says, where the map is that of the current place
/// and the player is no locked entity: the tile of the barrier opens, every other tile
/// stays, and the log gains the one line that names the item.
pub proof fn lemma_tick_opens_the_one_barrier(
    w: WorldView,
    key: Option<Key>,
    save_exists: bool,
    item: ItemName,
    g: usize,
)
    requires
        tick_mode(w) == RunState::UseInventory,
        item_choice(inventory_of(w), key) == (ItemMenuResult::Selected, Some(item)),
        forall|e: usize| is_barrier(w, e) <==> e == g,
        w.requires_item[g].key == item,
        !w.requires_item.contains_key(w.player_entity),
        w.map.place == w.current_place,
    ensures
        ({
            let after = after_tick(w, key, save_exists).world;
            &&& !after.requires_item.contains_key(g)
            &&& after.run_state == RunState::Game
            &&& after.log == w.log.push(used_line(item))
            &&& after.map.tiles == w.map.tiles.update(
                tile_index(w.targeted_pos.x as int, w.targeted_pos.y as int),
                if w.portals.contains_key(g) {
                    TileType::Portal
                } else {
                    TileType::Floor
                },
            )
        }),
{
    let s = shown(w);
    lemma_inventory_of_same_items(s, w, (usize::MAX + 1) as nat);
    let used = in_mode(s, RunState::UseInventory);
    assert forall|e: usize| is_barrier(used, e) <==> e == g by {
        if e != w.player_entity {
            assert(is_barrier(used, e) == is_barrier(w, e));
        } else {
            assert(!is_barrier(w, e));
        }
    }
    lemma_right_item_opens_the_barrier(used, item, g);
}

} // verus!
