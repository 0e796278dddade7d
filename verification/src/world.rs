use vstd::prelude::*;
use crate::components::{
    BelongsTo, ContainsItem, ContainsItems, DormantPosition, Impassable, Interaction,
    InteractionView, Item, Name, Npc, Objective, ObjectiveView, PermanentItem, Player, PlayerName,
    Point, Portal, Position, Renderable, RequiresItem, RequiresItems, RevealerInformation,
    SerializationHelper, SerializeMe, Stored, TargetedPosition,
};
use crate::constants::{MAP_HEIGHT, MAP_TILES, MAP_WIDTH};
use crate::gamelog::GameLog;
use crate::gui::MainMenuSelection;
use crate::items::ItemName;
use crate::map::{in_bounds, GameMap, GameMapView, Place};
use crate::state::RunState;
use crate::store::{
    first_entity, lemma_first_entity, lemma_no_first_entity, lemma_views_remove, Storage,
};

verus! {

/// The entities with their components, and the resources of the game.
pub struct World {
    /// One flag for each entity that was ever made: whether it still exists.
    pub entities: Vec<bool>,
    /// Where the entities on the map stand.
    pub positions: Storage<Position>,
    /// How entities are painted.
    pub renderables: Storage<Renderable>,
    /// The entity that the player steers.
    pub players: Storage<Player>,
    /// The labels of entities.
    pub names: Storage<Name>,
    /// The entities that are items.
    pub items: Storage<Item>,
    /// The items that the player holds.
    pub stored: Storage<Stored>,
    /// The entities that cannot be walked through.
    pub impassables: Storage<Impassable>,
    /// The keys of the barriers that are still locked.
    pub requires_item: Storage<RequiresItem>,
    /// The items that entities hold for the player.
    pub contains_item: Storage<ContainsItem>,
    /// The items that NPCs ask for.
    pub requires_items: Storage<RequiresItems>,
    /// The items that NPCs hand out.
    pub contains_items: Storage<ContainsItems>,
    /// The items that are not consumed when they open a barrier.
    pub permanent_items: Storage<PermanentItem>,
    /// The map as it travels in a snapshot.
    pub helpers: Storage<SerializationHelper>,
    /// The passages between places.
    pub portals: Storage<Portal>,
    /// The place of each entity.
    pub belongs: Storage<BelongsTo>,
    /// The states of the NPCs.
    pub npcs: Storage<Npc>,
    /// The scripts of the NPCs.
    pub interactions: Storage<Interaction>,
    /// Where the hidden entities will stand.
    pub dormant_positions: Storage<DormantPosition>,
    /// What reveals the hidden entities.
    pub revealer_infos: Storage<RevealerInformation>,
    /// The entities that are written to a snapshot, each under its id.
    pub markers: Storage<SerializeMe>,
    /// The place that the player is in.
    pub current_place: Place,
    /// The name that the player typed.
    pub player_name: PlayerName,
    /// The map of the place that was last drawn.
    pub map: GameMap,
    /// The console.
    pub log: GameLog,
    /// The entity that the player steers.
    pub player_entity: usize,
    /// The tile of the player.
    pub player_pos: Point,
    /// The tile that the player faces in an exchange.
    pub targeted_pos: TargetedPosition,
    /// The mode of the game.
    pub run_state: RunState,
    /// The quest.
    pub objective: Objective,
}

/// The world as plain values.
pub ghost struct WorldView {
    pub entities: Seq<bool>,
    pub positions: Map<usize, Position>,
    pub renderables: Map<usize, Renderable>,
    pub players: Map<usize, Player>,
    pub names: Map<usize, Seq<char>>,
    pub items: Map<usize, Item>,
    pub stored: Map<usize, Stored>,
    pub impassables: Map<usize, Impassable>,
    pub requires_item: Map<usize, RequiresItem>,
    pub contains_item: Map<usize, ContainsItem>,
    pub requires_items: Map<usize, Seq<ItemName>>,
    pub contains_items: Map<usize, Seq<ItemName>>,
    pub permanent_items: Map<usize, PermanentItem>,
    pub helpers: Map<usize, GameMapView>,
    pub portals: Map<usize, Portal>,
    pub belongs: Map<usize, BelongsTo>,
    pub npcs: Map<usize, Npc>,
    pub interactions: Map<usize, InteractionView>,
    pub dormant_positions: Map<usize, DormantPosition>,
    pub revealer_infos: Map<usize, RevealerInformation>,
    pub markers: Map<usize, SerializeMe>,
    pub current_place: Place,
    pub player_name: Seq<char>,
    pub map: GameMapView,
    pub log: Seq<Seq<char>>,
    pub player_entity: usize,
    pub player_pos: Point,
    pub targeted_pos: TargetedPosition,
    pub run_state: RunState,
    pub objective: ObjectiveView,
}

impl View for World {
    type V = WorldView;

    open spec fn view(&self) -> WorldView {
        WorldView {
            entities: self.entities@,
            positions: self.positions@,
            renderables: self.renderables@,
            players: self.players@,
            names: self.names.views(),
            items: self.items@,
            stored: self.stored@,
            impassables: self.impassables@,
            requires_item: self.requires_item@,
            contains_item: self.contains_item@,
            requires_items: self.requires_items.views(),
            contains_items: self.contains_items.views(),
            permanent_items: self.permanent_items@,
            helpers: self.helpers.views(),
            portals: self.portals@,
            belongs: self.belongs@,
            npcs: self.npcs@,
            interactions: self.interactions.views(),
            dormant_positions: self.dormant_positions@,
            revealer_infos: self.revealer_infos@,
            markers: self.markers@,
            current_place: self.current_place,
            player_name: self.player_name@,
            map: self.map@,
            log: self.log@,
            player_entity: self.player_entity,
            player_pos: self.player_pos,
            targeted_pos: self.targeted_pos,
            run_state: self.run_state,
            objective: self.objective@,
        }
    }
}

impl WorldView {
    /// What the game relies on when it reads the map at the tile of an entity and when it
    /// logs the name of an item:
    /// the map has the size of every place; the player, every entity on the map, every
    /// hidden entity and the far end of every portal stand on a tile of the map; every item
    /// has a name.
    pub open spec fn wf(self) -> bool {
        &&& self.map.tiles.len() == MAP_TILES
        &&& self.map.width == MAP_WIDTH
        &&& self.map.height == MAP_HEIGHT
        &&& in_bounds(self.player_pos.x as int, self.player_pos.y as int)
        &&& forall|e: usize| #[trigger]
            self.positions.contains_key(e) ==> in_bounds(
                self.positions[e].x as int,
                self.positions[e].y as int,
            )
        &&& forall|e: usize| #[trigger]
            self.dormant_positions.contains_key(e) ==> in_bounds(
                self.dormant_positions[e].x as int,
                self.dormant_positions[e].y as int,
            )
        &&& forall|e: usize| #[trigger]
            self.portals.contains_key(e) ==> in_bounds(
                self.portals[e].warp_place.0 as int,
                self.portals[e].warp_place.1 as int,
            )
        &&& forall|e: usize| #[trigger] self.items.contains_key(e) ==> self.names.contains_key(e)
    }

    /// The world without the entity `e`: it carries no component any more.
    pub open spec fn without(self, e: usize) -> WorldView {
        WorldView {
            entities: if e < self.entities.len() {
                self.entities.update(e as int, false)
            } else {
                self.entities
            },
            positions: self.positions.remove(e),
            renderables: self.renderables.remove(e),
            players: self.players.remove(e),
            names: self.names.remove(e),
            items: self.items.remove(e),
            stored: self.stored.remove(e),
            impassables: self.impassables.remove(e),
            requires_item: self.requires_item.remove(e),
            contains_item: self.contains_item.remove(e),
            requires_items: self.requires_items.remove(e),
            contains_items: self.contains_items.remove(e),
            permanent_items: self.permanent_items.remove(e),
            helpers: self.helpers.remove(e),
            portals: self.portals.remove(e),
            belongs: self.belongs.remove(e),
            npcs: self.npcs.remove(e),
            interactions: self.interactions.remove(e),
            dormant_positions: self.dormant_positions.remove(e),
            revealer_infos: self.revealer_infos.remove(e),
            markers: self.markers.remove(e),
            ..self
        }
    }
}

/// Whether `(x, y)` is a tile of the map.
pub fn on_map(x: i32, y: i32) -> (b: bool)
    ensures
        b == in_bounds(x as int, y as int),
{
    0 <= x && x < MAP_WIDTH && 0 <= y && y < MAP_HEIGHT
}

impl World {
    /// See [`WorldView::wf`].
    pub open spec fn wf(&self) -> bool {
        self@.wf()
    }

    /// A world without entities, in the main menu, at home on a map that is all space.
    pub fn new() -> (world: World)
        ensures
            world@.entities == Seq::<bool>::empty(),
            world@.positions == Map::<usize, Position>::empty(),
            world@.renderables == Map::<usize, Renderable>::empty(),
            world@.players == Map::<usize, Player>::empty(),
            world@.names == Map::<usize, Seq<char>>::empty(),
            world@.items == Map::<usize, Item>::empty(),
            world@.stored == Map::<usize, Stored>::empty(),
            world@.impassables == Map::<usize, Impassable>::empty(),
            world@.requires_item == Map::<usize, RequiresItem>::empty(),
            world@.contains_item == Map::<usize, ContainsItem>::empty(),
            world@.requires_items == Map::<usize, Seq<ItemName>>::empty(),
            world@.contains_items == Map::<usize, Seq<ItemName>>::empty(),
            world@.permanent_items == Map::<usize, PermanentItem>::empty(),
            world@.helpers == Map::<usize, GameMapView>::empty(),
            world@.portals == Map::<usize, Portal>::empty(),
            world@.belongs == Map::<usize, BelongsTo>::empty(),
            world@.npcs == Map::<usize, Npc>::empty(),
            world@.interactions == Map::<usize, InteractionView>::empty(),
            world@.dormant_positions == Map::<usize, DormantPosition>::empty(),
            world@.revealer_infos == Map::<usize, RevealerInformation>::empty(),
            world@.markers == Map::<usize, SerializeMe>::empty(),
            world@.current_place == Place::Home,
            world@.player_name == Seq::<char>::empty(),
            world.map.wf(),
            world.map.place == Place::Home,
            forall|i: int| 0 <= i < MAP_TILES ==> world.map.tiles@[i] == crate::map::TileType::Space,
            world@.log == Seq::<Seq<char>>::empty(),
            world@.player_entity == 0,
            world@.player_pos == (Point { x: 0, y: 0 }),
            world@.targeted_pos == (TargetedPosition { x: -1i32, y: -1i32 }),
            world@.run_state == (RunState::Menu { menu_selection: MainMenuSelection::NewGame }),
            world@.objective == (ObjectiveView { objectives: Seq::<Seq<char>>::empty(), index: 0 }),
            world.wf(),
    {
        let world = World {
            entities: Vec::new(),
            positions: Storage::new(),
            renderables: Storage::new(),
            players: Storage::new(),
            names: Storage::new(),
            items: Storage::new(),
            stored: Storage::new(),
            impassables: Storage::new(),
            requires_item: Storage::new(),
            contains_item: Storage::new(),
            requires_items: Storage::new(),
            contains_items: Storage::new(),
            permanent_items: Storage::new(),
            helpers: Storage::new(),
            portals: Storage::new(),
            belongs: Storage::new(),
            npcs: Storage::new(),
            interactions: Storage::new(),
            dormant_positions: Storage::new(),
            revealer_infos: Storage::new(),
            markers: Storage::new(),
            current_place: Place::Home,
            player_name: PlayerName { name: String::new() },
            map: GameMap::blank(Place::Home),
            log: GameLog::new(Vec::new()),
            player_entity: 0,
            player_pos: Point { x: 0, y: 0 },
            targeted_pos: TargetedPosition { x: -1, y: -1 },
            run_state: RunState::Menu { menu_selection: MainMenuSelection::NewGame },
            objective: Objective { objectives: Vec::new(), index: 0 },
        };
        proof {
            assert(world.names.views() =~= Map::<usize, Seq<char>>::empty());
            assert(world.requires_items.views() =~= Map::<usize, Seq<ItemName>>::empty());
            assert(world.contains_items.views() =~= Map::<usize, Seq<ItemName>>::empty());
            assert(world.helpers.views() =~= Map::<usize, GameMapView>::empty());
            assert(world.interactions.views() =~= Map::<usize, InteractionView>::empty());
            assert(world.log@ =~= Seq::<Seq<char>>::empty());
            assert(world.objective@.objectives =~= Seq::<Seq<char>>::empty());
        }
        world
    }

    /// Makes an entity without components and returns its id: the next free one.
    pub fn create_entity(&mut self) -> (e: usize)
        ensures
            e == old(self)@.entities.len(),
            final(self)@ == (WorldView { entities: old(self)@.entities.push(true), ..old(self)@ }),
    {
        let e = self.entities.len();
        self.entities.push(true);
        e
    }

    /// Whether `e` was made and not deleted since.
    pub fn is_alive(&self, e: usize) -> (b: bool)
        ensures
            b == (e < self@.entities.len() && self@.entities[e as int]),
    {
        e < self.entities.len() && self.entities[e]
    }

    /// Deletes the entity `e` with all its components.
    pub fn delete_entity(&mut self, e: usize)
        ensures
            final(self)@ == old(self)@.without(e),
    {
        if e < self.entities.len() {
            self.entities[e] = false;
        }
        self.positions.remove(e);
        self.renderables.remove(e);
        self.players.remove(e);
        self.names.remove(e);
        self.items.remove(e);
        self.stored.remove(e);
        self.impassables.remove(e);
        self.requires_item.remove(e);
        self.contains_item.remove(e);
        self.requires_items.remove(e);
        self.contains_items.remove(e);
        self.permanent_items.remove(e);
        self.helpers.remove(e);
        self.portals.remove(e);
        self.belongs.remove(e);
        self.npcs.remove(e);
        self.interactions.remove(e);
        self.dormant_positions.remove(e);
        self.revealer_infos.remove(e);
        self.markers.remove(e);
        proof {
            lemma_views_remove(old(self).names, self.names, e);
            lemma_views_remove(old(self).requires_items, self.requires_items, e);
            lemma_views_remove(old(self).contains_items, self.contains_items, e);
            lemma_views_remove(old(self).helpers, self.helpers, e);
            lemma_views_remove(old(self).interactions, self.interactions, e);
        }
    }

    /// Whether the world is sound, see [`WorldView::wf`].
    pub fn check(&self) -> (sound: bool)
        ensures
            sound == self.wf(),
    {
        if self.map.tiles.len() != MAP_TILES as usize || self.map.width != MAP_WIDTH
            || self.map.height != MAP_HEIGHT {
            return false;
        }
        if !on_map(self.player_pos.x, self.player_pos.y) {
            return false;
        }
        let n = self.positions.bound();
        let mut e: usize = 0;
        while e < n
            invariant
                forall|f: usize| self@.positions.contains_key(f) ==> f < n,
                forall|f: usize|
                    f < e && #[trigger] self@.positions.contains_key(f) ==> in_bounds(
                        self@.positions[f].x as int,
                        self@.positions[f].y as int,
                    ),
            decreases n - e,
        {
            if let Some(pos) = self.positions.get(e) {
                if !on_map(pos.x, pos.y) {
                    assert(self@.positions.contains_key(e));
                    return false;
                }
            }
            e = e + 1;
        }
        let n = self.dormant_positions.bound();
        let mut e: usize = 0;
        while e < n
            invariant
                forall|f: usize| self@.dormant_positions.contains_key(f) ==> f < n,
                forall|f: usize|
                    f < e && #[trigger] self@.dormant_positions.contains_key(f) ==> in_bounds(
                        self@.dormant_positions[f].x as int,
                        self@.dormant_positions[f].y as int,
                    ),
            decreases n - e,
        {
            if let Some(pos) = self.dormant_positions.get(e) {
                if !on_map(pos.x, pos.y) {
                    assert(self@.dormant_positions.contains_key(e));
                    return false;
                }
            }
            e = e + 1;
        }
        let n = self.portals.bound();
        let mut e: usize = 0;
        while e < n
            invariant
                forall|f: usize| self@.portals.contains_key(f) ==> f < n,
                forall|f: usize|
                    f < e && #[trigger] self@.portals.contains_key(f) ==> in_bounds(
                        self@.portals[f].warp_place.0 as int,
                        self@.portals[f].warp_place.1 as int,
                    ),
            decreases n - e,
        {
            if let Some(portal) = self.portals.get(e) {
                if !on_map(portal.warp_place.0, portal.warp_place.1) {
                    assert(self@.portals.contains_key(e));
                    return false;
                }
            }
            e = e + 1;
        }
        let n = self.items.bound();
        let mut e: usize = 0;
        while e < n
            invariant
                forall|f: usize| self@.items.contains_key(f) ==> f < n,
                forall|f: usize|
                    f < e && #[trigger] self@.items.contains_key(f) ==> self@.names.contains_key(f),
            decreases n - e,
        {
            if self.items.contains(e) && !self.names.contains(e) {
                assert(self@.items.contains_key(e));
                return false;
            }
            e = e + 1;
        }
        true
    }
}

/// Whether `e` is an item of identity `name`.
pub open spec fn is_item(w: WorldView, name: ItemName, e: usize) -> bool {
    w.items.contains_key(e) && w.items[e].name == name
}

/// [`is_item`] as a predicate on ids.
pub open spec fn item_pred(w: WorldView, name: ItemName) -> spec_fn(usize) -> bool {
    |e: usize| is_item(w, name, e)
}

/// Whether `e` is an item of identity `name` that the player holds.
pub open spec fn is_stored_item(w: WorldView, name: ItemName, e: usize) -> bool {
    is_item(w, name, e) && w.stored.contains_key(e)
}

/// [`is_stored_item`] as a predicate on ids.
pub open spec fn stored_item_pred(w: WorldView, name: ItemName) -> spec_fn(usize) -> bool {
    |e: usize| is_stored_item(w, name, e)
}

/// The first item of identity `name`; with `held`, the first one that the player holds.
pub fn find_item(ecs: &World, name: ItemName, held: bool) -> (found: Option<usize>)
    ensures
        found == (if held {
            first_entity(stored_item_pred(ecs@, name))
        } else {
            first_entity(item_pred(ecs@, name))
        }),
{
    let ghost p = if held {
        stored_item_pred(ecs@, name)
    } else {
        item_pred(ecs@, name)
    };
    let n = ecs.items.bound();
    let mut e: usize = 0;
    while e < n
        invariant
            forall|f: usize| f < e ==> !#[trigger] p(f),
            forall|f: usize| ecs.items@.contains_key(f) ==> f < n,
            p == (if held {
                stored_item_pred(ecs@, name)
            } else {
                item_pred(ecs@, name)
            }),
        decreases n - e,
    {
        if let Some(item) = ecs.items.get(e) {
            if item.name == name && (!held || ecs.stored.contains(e)) {
                proof {
                    assert(p(e));
                    lemma_first_entity(p, e);
                }
                return Some(e);
            }
        }
        e = e + 1;
    }
    proof {
        assert forall|f: usize| !#[trigger] p(f) by {
            if f >= n {
                assert(!ecs.items@.contains_key(f));
            }
        }
        lemma_no_first_entity(p);
    }
    None
}

} // verus!
