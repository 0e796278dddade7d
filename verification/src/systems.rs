use vstd::prelude::*;
use vstd::string::StringExecFns;
use crate::components::{Position, Renderable, Stored};
use crate::constants::{item_portal_color, CONSOLE_ITEM_CRAFTED, CONSOLE_ITEM_PICKED_UP};
use crate::gamelog::{
    lemma_lines_below_bound, lemma_lines_below_single, lines_below, lines_of_all,
};
use crate::items::ItemName;
use crate::map::{lemma_tile_index_injective, tile_index, GameMapView, TileType};
use crate::state::RunState;
use crate::store::{first_entity, lemma_first_found, lemma_some_first_entity};
use crate::world::{
    find_item, is_item, is_stored_item, item_pred, stored_item_pred, World, WorldView,
};

verus! {

/// Whether the player holds an item of identity `name`.
pub open spec fn holds(w: WorldView, name: ItemName) -> bool {
    first_entity(stored_item_pred(w, name)) is Some
}

/// The player holds an item of identity `name` exactly where some stored entity is one.
pub proof fn lemma_holds(w: WorldView, name: ItemName)
    ensures
        holds(w, name) <==> exists|e: usize| is_stored_item(w, name, e),
{
    let p = stored_item_pred(w, name);
    if holds(w, name) {
        lemma_first_found(p, first_entity(p)->0);
        assert(is_stored_item(w, name, first_entity(p)->0));
    }
    if exists|e: usize| is_stored_item(w, name, e) {
        let e = choose|e: usize| is_stored_item(w, name, e);
        assert(p(e));
        lemma_some_first_entity(p, e);
    }
}

/// Whether `e` is an item of the current place that lies on the tile of the player.
pub open spec fn is_pickup(w: WorldView, e: usize) -> bool {
    &&& w.positions.contains_key(e)
    &&& w.items.contains_key(e)
    &&& w.belongs.contains_key(e)
    &&& w.positions[e].x == w.player_pos.x
    &&& w.positions[e].y == w.player_pos.y
    &&& w.belongs[e].domain == w.current_place
}

/// [`is_pickup`] as a predicate on ids.
pub open spec fn pickup_pred(w: WorldView) -> spec_fn(usize) -> bool {
    |e: usize| is_pickup(w, e)
}

/// The line that is logged when the entity `e` is picked up.
pub open spec fn pickup_line_of(w: WorldView) -> spec_fn(usize) -> Seq<char> {
    |e: usize| CONSOLE_ITEM_PICKED_UP@ + w.names[e]
}

/// The world after the player picked up what lies on their tile: each such item leaves
/// the map, is stored, and is logged by its name.
pub open spec fn collected(w: WorldView) -> WorldView {
    WorldView {
        positions: Map::new(
            |e: usize| w.positions.contains_key(e) && !is_pickup(w, e),
            |e: usize| w.positions[e],
        ),
        stored: Map::new(
            |e: usize| w.stored.contains_key(e) || is_pickup(w, e),
            |e: usize| Stored {  },
        ),
        log: w.log + lines_of_all(pickup_pred(w), pickup_line_of(w)),
        ..w
    }
}

/// Picks up the items on the tile of the player.
pub struct ItemCollectionSystem {}

impl ItemCollectionSystem {
    /// Stores every item of the current place that lies on the tile of the player.
    pub fn run(&mut self, world: &mut World)
        requires
            old(world).wf(),
        ensures
            final(world)@ == collected(old(world)@),
            final(world).wf(),
    {
        let ghost w = world@;
        let ghost p = pickup_pred(w);
        let ghost line = pickup_line_of(w);
        let n = world.items.bound();
        let mut e: usize = 0;
        while e < n
            invariant
                e <= n,
                w == old(world)@,
                w.wf(),
                p == pickup_pred(w),
                line == pickup_line_of(w),
                forall|f: usize| w.items.contains_key(f) ==> f < n,
                world@ == (WorldView {
                    positions: world@.positions,
                    stored: world@.stored,
                    log: world@.log,
                    ..w
                }),
                world@.positions =~= Map::new(
                    |k: usize| w.positions.contains_key(k) && !(k < e && is_pickup(w, k)),
                    |k: usize| w.positions[k],
                ),
                world@.stored =~= Map::new(
                    |k: usize| w.stored.contains_key(k) || (k < e && is_pickup(w, k)),
                    |k: usize| Stored {  },
                ),
                world@.log =~= w.log + lines_below(p, line, e as nat),
            decreases n - e,
        {
            let here = match (world.positions.get(e), world.belongs.get(e)) {
                (Some(pos), Some(bel)) => world.items.contains(e) && pos.x == world.player_pos.x
                    && pos.y == world.player_pos.y && bel.domain == world.current_place,
                _ => false,
            };
            if here {
                world.positions.remove(e);
                world.stored.insert(e, Stored {  });
                let line = match world.names.get(e) {
                    Some(name) => String::from_str(CONSOLE_ITEM_PICKED_UP).concat(
                        name.name.as_str(),
                    ),
                    None => String::from_str(CONSOLE_ITEM_PICKED_UP),
                };
                world.log.push(line);
            }
            e = e + 1;
        }
        proof {
            assert forall|f: usize| f >= n implies !#[trigger] p(f) by {
                assert(!w.items.contains_key(f));
            }
            lemma_lines_below_bound(p, line, n as nat, (usize::MAX + 1) as nat);
            assert(world@.positions =~= collected(w).positions);
            assert(world@.stored =~= collected(w).stored);
            assert(world@.log =~= collected(w).log);
        }
    }
}

/// Whether `e` is a portal that is not locked.
pub open spec fn is_unlocked_portal(w: WorldView, e: usize) -> bool {
    w.portals.contains_key(e) && !w.requires_item.contains_key(e)
}

/// The world in which every portal that is not locked is painted as open.
pub open spec fn recolored(w: WorldView) -> WorldView {
    WorldView {
        renderables: Map::new(
            |e: usize| w.renderables.contains_key(e),
            |e: usize|
                if is_unlocked_portal(w, e) {
                    Renderable { fg: item_portal_color(), ..w.renderables[e] }
                } else {
                    w.renderables[e]
                },
        ),
        ..w
    }
}

/// Paints the portals that are not locked as open.
pub struct ItemAdjustmentSystem {}

impl ItemAdjustmentSystem {
    /// Gives every portal without a lock the colour of an open portal.
    pub fn run(&mut self, world: &mut World)
        ensures
            final(world)@ == recolored(old(world)@),
    {
        let ghost w = world@;
        let open = world.portals.join_without(&world.requires_item);
        let mut i: usize = 0;
        while i < open.len()
            invariant
                i <= open@.len(),
                w == old(world)@,
                forall|e: usize| open@.contains(e) <==> is_unlocked_portal(w, e),
                world@ == (WorldView { renderables: world@.renderables, ..w }),
                world@.renderables =~= Map::new(
                    |k: usize| w.renderables.contains_key(k),
                    |k: usize|
                        if open@.subrange(0, i as int).contains(k) {
                            Renderable { fg: item_portal_color(), ..w.renderables[k] }
                        } else {
                            w.renderables[k]
                        },
                ),
            decreases open@.len() - i,
        {
            let e = open[i];
            let painted = match world.renderables.get(e) {
                Some(render) => Some(
                    Renderable {
                        glyph: render.glyph,
                        fg: item_portal_color(),
                        bg: render.bg,
                        render_order: render.render_order,
                    },
                ),
                None => None,
            };
            if let Some(render) = painted {
                world.renderables.insert(e, render);
            }
            proof {
                let before = open@.subrange(0, i as int);
                let after = open@.subrange(0, i + 1);
                assert(after =~= before.push(e));
                assert forall|k: usize| after.contains(k) <==> before.contains(k) || k == e by {
                    if before.contains(k) {
                        let j = choose|j: int| 0 <= j < before.len() && before[j] == k;
                        assert(after[j] == k);
                    }
                    if k == e {
                        assert(after[i as int] == k);
                    }
                    if after.contains(k) {
                        let j = choose|j: int| 0 <= j < after.len() && after[j] == k;
                        if j < i {
                            assert(before[j] == k);
                        }
                    }
                }
            }
            i = i + 1;
        }
        proof {
            assert(open@.subrange(0, open@.len() as int) =~= open@);
            assert(world@.renderables =~= recolored(w).renderables);
        }
    }
}

/// Whether `e` is a hidden entity with a zone that reveals it.
pub open spec fn is_dormant(w: WorldView, e: usize) -> bool {
    &&& w.belongs.contains_key(e)
    &&& w.revealer_infos.contains_key(e)
    &&& w.dormant_positions.contains_key(e)
}

/// Whether `e` is a hidden entity of the current place with a zone that reveals it: the
/// reveal leaves the hidden entities of other places alone.
pub open spec fn is_dormant_here(w: WorldView, e: usize) -> bool {
    is_dormant(w, e) && w.belongs[e].domain == w.current_place
}

/// Whether the hidden entity `e` is to be seen: the player stands in its zone and holds
/// the item that reveals it.
pub open spec fn reveal_condition(w: WorldView, e: usize) -> bool {
    let info = w.revealer_infos[e];
    &&& info.x_end_points.0 <= w.player_pos.x <= info.x_end_points.1
    &&& info.y_end_points.0 <= w.player_pos.y <= info.y_end_points.1
    &&& holds(w, info.revealer_item)
}

/// Whether the hidden entity `e` comes onto the map.
pub open spec fn reveals(w: WorldView, e: usize) -> bool {
    is_dormant_here(w, e) && reveal_condition(w, e) && !w.positions.contains_key(e)
}

/// Whether the hidden entity `e` leaves the map.
pub open spec fn hides(w: WorldView, e: usize) -> bool {
    is_dormant_here(w, e) && !reveal_condition(w, e) && w.positions.contains_key(e)
}

/// The tiles after the hidden entities of the current place below `n` came and went, by
/// ascending id: one
/// that comes puts a locked tile where it stands, one that goes puts back the tile that
/// it was made with.
pub open spec fn door_tiles(w: WorldView, n: nat) -> Seq<TileType>
    decreases n,
{
    if n == 0 {
        w.map.tiles
    } else {
        let rest = door_tiles(w, (n - 1) as nat);
        let e = (n - 1) as usize;
        let at = tile_index(w.dormant_positions[e].x as int, w.dormant_positions[e].y as int);
        if n - 1 <= usize::MAX && reveals(w, e) {
            rest.update(at, TileType::RequiresKey)
        } else if n - 1 <= usize::MAX && hides(w, e) {
            rest.update(at, w.revealer_infos[e].before_reveal)
        } else {
            rest
        }
    }
}

/// The world after the hidden entities of the current place came and went: one that is
/// to be seen and is not on the map stands where it was hidden; one that is not to be seen
/// is off the map. The hidden entities of other places stay as they are.
pub open spec fn revealed(w: WorldView) -> WorldView {
    WorldView {
        positions: Map::new(
            |e: usize| (w.positions.contains_key(e) && !hides(w, e)) || reveals(w, e),
            |e: usize|
                if reveals(w, e) {
                    Position { x: w.dormant_positions[e].x, y: w.dormant_positions[e].y }
                } else {
                    w.positions[e]
                },
        ),
        map: GameMapView { tiles: door_tiles(w, (usize::MAX + 1) as nat), ..w.map },
        ..w
    }
}

/// Hidden entities that neither come nor go leave the tiles as they are.
pub proof fn lemma_door_tiles_bound(w: WorldView, n: nat, m: nat)
    requires
        n <= m,
        forall|e: usize| e >= n ==> !#[trigger] w.dormant_positions.contains_key(e),
    ensures
        door_tiles(w, m) == door_tiles(w, n),
    decreases m,
{
    if m > n {
        lemma_door_tiles_bound(w, n, (m - 1) as nat);
    }
}

/// A hidden entity of the current place that is not to be seen is off the map once the
/// reveal has run, and it is still a hidden entity.
pub proof fn lemma_unseen_is_off_the_map(w: WorldView, e: usize)
    requires
        is_dormant_here(w, e),
        !reveal_condition(w, e),
    ensures
        !revealed(w).positions.contains_key(e),
        revealed(w).dormant_positions.contains_key(e),
{
}

/// A hidden entity of the current place that is to be seen stands, once the reveal has
/// run, where it was on the map before, or else where it was hidden.
pub proof fn lemma_seen_is_on_the_map(w: WorldView, e: usize)
    requires
        is_dormant_here(w, e),
        reveal_condition(w, e),
    ensures
        revealed(w).positions.contains_key(e),
        !w.positions.contains_key(e) ==> revealed(w).positions[e] == (Position {
            x: w.dormant_positions[e].x,
            y: w.dormant_positions[e].y,
        }),
{
}

/// An entity with a hidden position is on the map after the reveal only where it is to
/// be seen, or where the reveal does not govern it and it was on the map before.
pub proof fn lemma_dormant_on_the_map_only_if_seen(w: WorldView, e: usize)
    requires
        w.dormant_positions.contains_key(e),
        revealed(w).positions.contains_key(e),
    ensures
        (is_dormant_here(w, e) && reveal_condition(w, e)) || (!is_dormant_here(w, e)
            && w.positions.contains_key(e)),
{
}

/// The reveal leaves alone what is no hidden entity of the current place: it is on the
/// map where it was, or off it as it was.
pub proof fn lemma_reveal_leaves_the_rest(w: WorldView, e: usize)
    requires
        !is_dormant_here(w, e),
    ensures
        revealed(w).positions.contains_key(e) == w.positions.contains_key(e),
        w.positions.contains_key(e) ==> revealed(w).positions[e] == w.positions[e],
{
}

/// Where no hidden entity of the current place comes or goes, the tiles stay as they
/// are.
pub proof fn lemma_door_tiles_same(w: WorldView, n: nat)
    requires
        forall|e: usize| !reveals(w, e) && !hides(w, e),
    ensures
        door_tiles(w, n) == w.map.tiles,
    decreases n,
{
    if n > 0 {
        lemma_door_tiles_same(w, (n - 1) as nat);
    }
}

/// Whether the hidden entity `e` of the current place is hidden on the tile `i`.
pub open spec fn is_hidden_at(w: WorldView, e: usize, i: int) -> bool {
    is_dormant_here(w, e) && i == tile_index(
        w.dormant_positions[e].x as int,
        w.dormant_positions[e].y as int,
    )
}

/// The reveal changes the map only where a hidden entity of the current place is hidden:
/// every other tile stays as it is, whatever the hidden entities of other places are.
pub proof fn lemma_reveal_changes_only_tiles_of_here(w: WorldView, n: nat, i: int)
    requires
        w.wf(),
        0 <= i < w.map.tiles.len(),
        forall|e: usize| !is_hidden_at(w, e, i),
    ensures
        door_tiles(w, n).len() == w.map.tiles.len(),
        door_tiles(w, n)[i] == w.map.tiles[i],
    decreases n,
{
    if n > 0 {
        lemma_reveal_changes_only_tiles_of_here(w, (n - 1) as nat, i);
        let e = (n - 1) as usize;
        if n - 1 <= usize::MAX && (reveals(w, e) || hides(w, e)) {
            assert(!is_hidden_at(w, e, i));
            assert(w.dormant_positions.contains_key(e));
            lemma_tile_index_injective();
        }
    }
}

/// The reveal changes the map only on account of the hidden entities of the current
/// place: where there is none, the map stays as it is, and so does every position.
pub proof fn lemma_other_places_leave_the_map(w: WorldView)
    requires
        forall|e: usize| !is_dormant_here(w, e),
    ensures
        revealed(w) == w,
{
    lemma_door_tiles_same(w, (usize::MAX + 1) as nat);
    assert(revealed(w).positions =~= w.positions);
}

/// Brings the hidden entities onto the map and takes them off it.
pub struct DoorRevealSystem {}

impl DoorRevealSystem {
    /// Puts every hidden entity of the current place that is to be seen on the map, and
    /// takes every other one of them off it.
    pub fn run(&mut self, world: &mut World)
        requires
            old(world).wf(),
        ensures
            final(world)@ == revealed(old(world)@),
            final(world).wf(),
    {
        let ghost w = world@;
        let n = world.dormant_positions.bound();
        let mut e: usize = 0;
        while e < n
            invariant
                e <= n,
                w == old(world)@,
                w.wf(),
                world.wf(),
                forall|f: usize| w.dormant_positions.contains_key(f) ==> f < n,
                world@ == (WorldView { positions: world@.positions, map: world@.map, ..w }),
                world@.map == (GameMapView { tiles: world@.map.tiles, ..w.map }),
                world@.positions =~= Map::new(
                    |k: usize|
                        (w.positions.contains_key(k) && !(k < e && hides(w, k))) || (k < e
                            && reveals(w, k)),
                    |k: usize|
                        if k < e && reveals(w, k) {
                            Position { x: w.dormant_positions[k].x, y: w.dormant_positions[k].y }
                        } else {
                            w.positions[k]
                        },
                ),
                world@.map.tiles == door_tiles(w, e as nat),
            decreases n - e,
        {
            let joined = match (
                world.belongs.get(e),
                world.revealer_infos.get(e),
                world.dormant_positions.get(e),
            ) {
                (Some(bel), Some(info), Some(dormant)) => Some((*bel, *info, *dormant)),
                _ => None,
            };
            if let Some((bel, info, dormant)) = joined {
                proof {
                    assert(stored_item_pred(world@, info.revealer_item) =~= stored_item_pred(
                        w,
                        info.revealer_item,
                    ));
                }
                let here = bel.domain == world.current_place;
                let seen = info.x_end_points.0 <= world.player_pos.x && world.player_pos.x
                    <= info.x_end_points.1 && info.y_end_points.0 <= world.player_pos.y
                    && world.player_pos.y <= info.y_end_points.1 && ItemCombinationSystem::holds(
                    world,
                    info.revealer_item,
                );
                let on_map = world.positions.contains(e);
                if !here {
                } else if seen && !on_map {
                    world.positions.insert(e, Position { x: dormant.x, y: dormant.y });
                    world.map.set_tile(dormant.x, dormant.y, TileType::RequiresKey);
                } else if !seen && on_map {
                    world.positions.remove(e);
                    world.map.set_tile(dormant.x, dormant.y, info.before_reveal);
                }
            }
            e = e + 1;
        }
        proof {
            lemma_door_tiles_bound(w, n as nat, (usize::MAX + 1) as nat);
            assert(world@.positions =~= revealed(w).positions);
        }
    }
}

/// What can be put together from items that the player holds.
#[derive(PartialEq, Eq, Structural, Copy, Clone, Debug)]
pub enum Recipe {
    PoemBook,
    MosqueModel,
    WeirdCollage,
}

impl Recipe {
    /// Whether the recipe takes items of identity `name`.
    pub open spec fn takes(self, name: ItemName) -> bool {
        match self {
            Recipe::PoemBook => name == ItemName::OttomanRewardPoem || name
                == ItemName::OttomanRewardBookCover || name == ItemName::OttomanRewardGlue,
            Recipe::MosqueModel => name == ItemName::OttomanRewardMosquePart1 || name
                == ItemName::OttomanRewardMosquePart2,
            Recipe::WeirdCollage => name == ItemName::OttomanRewardNotePaper || name
                == ItemName::OttomanRewardCanvas || name == ItemName::OttomanRewardClay,
        }
    }

    /// What the recipe gives.
    pub open spec fn product(self) -> ItemName {
        match self {
            Recipe::PoemBook => ItemName::OttomanCombinedRewardPoemBook,
            Recipe::MosqueModel => ItemName::OttomanCombinedRewardMosqueModel,
            Recipe::WeirdCollage => ItemName::OttomanCombinedRewardWeirdCollage,
        }
    }

    /// Whether the recipe takes items of identity `name`.
    pub fn is_part(&self, name: ItemName) -> (b: bool)
        ensures
            b == self.takes(name),
    {
        match self {
            Recipe::PoemBook => name == ItemName::OttomanRewardPoem || name
                == ItemName::OttomanRewardBookCover || name == ItemName::OttomanRewardGlue,
            Recipe::MosqueModel => name == ItemName::OttomanRewardMosquePart1 || name
                == ItemName::OttomanRewardMosquePart2,
            Recipe::WeirdCollage => name == ItemName::OttomanRewardNotePaper || name
                == ItemName::OttomanRewardCanvas || name == ItemName::OttomanRewardClay,
        }
    }

    /// What the recipe gives.
    pub fn result(&self) -> (name: ItemName)
        ensures
            name == self.product(),
    {
        match self {
            Recipe::PoemBook => ItemName::OttomanCombinedRewardPoemBook,
            Recipe::MosqueModel => ItemName::OttomanCombinedRewardMosqueModel,
            Recipe::WeirdCollage => ItemName::OttomanCombinedRewardWeirdCollage,
        }
    }
}

/// Whether the player holds every part of `recipe`.
pub open spec fn recipe_complete(w: WorldView, recipe: Recipe) -> bool {
    forall|name: ItemName| #[trigger] recipe.takes(name) ==> holds(w, name)
}

/// Whether `e` is an item that `recipe` takes.
pub open spec fn is_part_item(w: WorldView, recipe: Recipe, e: usize) -> bool {
    w.items.contains_key(e) && recipe.takes(w.items[e].name)
}

/// The line that is logged for each item that `recipe` gives.
pub open spec fn crafted_line(recipe: Recipe) -> Seq<char> {
    CONSOLE_ITEM_CRAFTED@ + recipe.product().display()
}

/// [`crafted_line`] for every id.
pub open spec fn crafted_line_of(recipe: Recipe) -> spec_fn(usize) -> Seq<char> {
    |e: usize| crafted_line(recipe)
}

/// The world after `recipe` was applied: no item that it takes is stored, every item that
/// it gives is, and each of these is logged.
pub open spec fn crafted(w: WorldView, recipe: Recipe) -> WorldView {
    WorldView {
        stored: Map::new(
            |e: usize|
                (w.stored.contains_key(e) && !is_part_item(w, recipe, e)) || is_item(
                    w,
                    recipe.product(),
                    e,
                ),
            |e: usize| Stored {  },
        ),
        log: w.log + lines_of_all(item_pred(w, recipe.product()), crafted_line_of(recipe)),
        ..w
    }
}

/// The world `w` after `recipe` was applied, where the player held every part of it in
/// `at_start`.
pub open spec fn crafted_if_complete(w: WorldView, at_start: WorldView, recipe: Recipe) -> WorldView {
    if recipe_complete(at_start, recipe) {
        crafted(w, recipe)
    } else {
        w
    }
}

/// The world after the three recipes were tried, each on what the player held at the start.
pub open spec fn combined(w: WorldView) -> WorldView {
    crafted_if_complete(
        crafted_if_complete(crafted_if_complete(w, w, Recipe::PoemBook), w, Recipe::MosqueModel),
        w,
        Recipe::WeirdCollage,
    )
}

/// After the three recipes were tried, the player holds all parts of none of them.
pub proof fn lemma_combined_leaves_no_recipe(w: WorldView, recipe: Recipe)
    ensures
        !recipe_complete(combined(w), recipe),
{
    let after = combined(w);
    assert(after.items == w.items);
    if recipe_complete(w, recipe) {
        let name = match recipe {
            Recipe::PoemBook => ItemName::OttomanRewardPoem,
            Recipe::MosqueModel => ItemName::OttomanRewardMosquePart1,
            Recipe::WeirdCollage => ItemName::OttomanRewardNotePaper,
        };
        assert(recipe.takes(name));
        lemma_holds(after, name);
        assert forall|e: usize| !is_stored_item(after, name, e) by {
            if w.items.contains_key(e) && w.items[e].name == name {
                assert(is_part_item(w, recipe, e));
            }
        }
    } else {
        let name = choose|name: ItemName| #[trigger] recipe.takes(name) && !holds(w, name);
        lemma_holds(w, name);
        lemma_holds(after, name);
        assert forall|e: usize| !is_stored_item(after, name, e) by {
            assert(!is_stored_item(w, name, e));
        }
    }
}

/// Trying the recipes twice in a row gives what trying them once gives: nothing is put
/// together a second time, and nothing more is logged.
pub proof fn lemma_combination_is_idempotent(w: WorldView)
    ensures
        combined(combined(w)) == combined(w),
{
    lemma_combined_leaves_no_recipe(w, Recipe::PoemBook);
    lemma_combined_leaves_no_recipe(w, Recipe::MosqueModel);
    lemma_combined_leaves_no_recipe(w, Recipe::WeirdCollage);
}

/// Where the player holds all parts of one recipe only, one line is logged for each item
/// that the recipe gives, and nothing else is logged.
pub proof fn lemma_one_recipe_logs_its_items(w: WorldView, recipe: Recipe)
    requires
        recipe_complete(w, recipe),
        forall|other: Recipe| other != recipe ==> !recipe_complete(w, other),
    ensures
        combined(w) == crafted(w, recipe),
        combined(w).log == w.log + lines_of_all(
            item_pred(w, recipe.product()),
            crafted_line_of(recipe),
        ),
{
}

/// Where the player holds all parts of one recipe only, and one item in the world is
/// what the recipe gives, that item is stored, the parts are not, and one line is logged.
pub proof fn lemma_one_recipe_gives_one_artifact(w: WorldView, recipe: Recipe, product: usize)
    requires
        recipe_complete(w, recipe),
        forall|other: Recipe| other != recipe ==> !recipe_complete(w, other),
        forall|e: usize| is_item(w, recipe.product(), e) <==> e == product,
    ensures
        combined(w).log == w.log.push(crafted_line(recipe)),
        combined(w).stored.contains_key(product),
        forall|e: usize|
            combined(w).stored.contains_key(e) && is_item(w, recipe.product(), e) ==> e == product,
        forall|e: usize| is_part_item(w, recipe, e) ==> !combined(w).stored.contains_key(e),
        forall|e: usize|
            !is_part_item(w, recipe, e) && e != product ==> combined(w).stored.contains_key(e)
                == w.stored.contains_key(e),
{
    let p = item_pred(w, recipe.product());
    assert forall|e: usize| #[trigger] p(e) <==> e == product by {
        assert(p(e) == is_item(w, recipe.product(), e));
    }
    lemma_lines_below_single(p, crafted_line_of(recipe), (usize::MAX + 1) as nat, product);
    assert(w.log + seq![crafted_line(recipe)] =~= w.log.push(crafted_line(recipe)));
    assert forall|e: usize| is_part_item(w, recipe, e) implies !combined(w).stored.contains_key(
        e,
    ) by {
        assert(w.items[e].name != recipe.product());
    }
}

/// Puts together what the player holds all parts of.
pub struct ItemCombinationSystem {}

impl ItemCombinationSystem {
    /// Tries the three recipes, each on what the player holds when the system starts.
    pub fn run(&mut self, world: &mut World)
        ensures
            final(world)@ == combined(old(world)@),
    {
        let poem_book = Self::complete(world, Recipe::PoemBook);
        let mosque_model = Self::complete(world, Recipe::MosqueModel);
        let weird_collage = Self::complete(world, Recipe::WeirdCollage);
        if poem_book {
            Self::craft(world, Recipe::PoemBook);
        }
        if mosque_model {
            Self::craft(world, Recipe::MosqueModel);
        }
        if weird_collage {
            Self::craft(world, Recipe::WeirdCollage);
        }
    }

    /// Whether the player holds an item of identity `name`.
    fn holds(world: &World, name: ItemName) -> (b: bool)
        ensures
            b == holds(world@, name),
    {
        find_item(world, name, true).is_some()
    }

    /// Whether the player holds every part of `recipe`.
    fn complete(world: &World, recipe: Recipe) -> (b: bool)
        ensures
            b == recipe_complete(world@, recipe),
    {
        let b = match recipe {
            Recipe::PoemBook => Self::holds(world, ItemName::OttomanRewardPoem) && Self::holds(
                world,
                ItemName::OttomanRewardBookCover,
            ) && Self::holds(world, ItemName::OttomanRewardGlue),
            Recipe::MosqueModel => Self::holds(world, ItemName::OttomanRewardMosquePart1)
                && Self::holds(world, ItemName::OttomanRewardMosquePart2),
            Recipe::WeirdCollage => Self::holds(world, ItemName::OttomanRewardNotePaper)
                && Self::holds(world, ItemName::OttomanRewardCanvas) && Self::holds(
                world,
                ItemName::OttomanRewardClay,
            ),
        };
        proof {
            if !b {
                match recipe {
                    Recipe::PoemBook => {
                        assert(recipe.takes(ItemName::OttomanRewardPoem));
                        assert(recipe.takes(ItemName::OttomanRewardBookCover));
                        assert(recipe.takes(ItemName::OttomanRewardGlue));
                    },
                    Recipe::MosqueModel => {
                        assert(recipe.takes(ItemName::OttomanRewardMosquePart1));
                        assert(recipe.takes(ItemName::OttomanRewardMosquePart2));
                    },
                    Recipe::WeirdCollage => {
                        assert(recipe.takes(ItemName::OttomanRewardNotePaper));
                        assert(recipe.takes(ItemName::OttomanRewardCanvas));
                        assert(recipe.takes(ItemName::OttomanRewardClay));
                    },
                }
            }
        }
        b
    }

    /// Applies `recipe`.
    fn craft(world: &mut World, recipe: Recipe)
        ensures
            final(world)@ == crafted(old(world)@, recipe),
    {
        let product = recipe.result();
        let n = world.items.bound();
        let ghost w = world@;
        let ghost p = item_pred(w, recipe.product());
        let ghost line = crafted_line_of(recipe);
        let mut e: usize = 0;
        while e < n
            invariant
                e <= n,
                w == old(world)@,
                p == item_pred(w, recipe.product()),
                line == crafted_line_of(recipe),
                product == recipe.product(),
                forall|f: usize| w.items.contains_key(f) ==> f < n,
                world@ == (WorldView { stored: world@.stored, log: world@.log, ..w }),
                world@.stored =~= Map::new(
                    |k: usize|
                        if k < e {
                            (w.stored.contains_key(k) && !is_part_item(w, recipe, k)) || is_item(
                                w,
                                recipe.product(),
                                k,
                            )
                        } else {
                            w.stored.contains_key(k)
                        },
                    |k: usize| Stored {  },
                ),
                world@.log =~= w.log + lines_below(p, line, e as nat),
            decreases n - e,
        {
            let name = match world.items.get(e) {
                Some(item) => Some(item.name),
                None => None,
            };
            if let Some(name) = name {
                if recipe.is_part(name) {
                    world.stored.remove(e);
                }
                if name == product {
                    world.stored.insert(e, Stored {  });
                    world.log.push(
                        String::from_str(CONSOLE_ITEM_CRAFTED).concat(product.to_string().as_str()),
                    );
                }
            }
            e = e + 1;
        }
        proof {
            assert forall|f: usize| f >= n implies !#[trigger] p(f) by {
                assert(!w.items.contains_key(f));
            }
            lemma_lines_below_bound(p, line, n as nat, (usize::MAX + 1) as nat);
            assert(world@.stored =~= crafted(w, recipe).stored);
            assert(world@.log =~= crafted(w, recipe).log);
        }
    }
}

/// The world after the systems of one tick: collection, painting, reveal, combination.
pub open spec fn after_systems(w: WorldView) -> WorldView {
    combined(revealed(recolored(collected(w))))
}

/// After the systems of a tick, a hidden entity of the current place that the reveal
/// found not to be seen is off the map: it has a hidden position and no position.
pub proof fn lemma_positions_exclusive_after_systems(w: WorldView, e: usize)
    requires
        is_dormant_here(w, e),
        !reveal_condition(recolored(collected(w)), e),
    ensures
        after_systems(w).dormant_positions.contains_key(e),
        !after_systems(w).positions.contains_key(e),
{
    let seen = recolored(collected(w));
    assert(is_dormant_here(seen, e));
    lemma_unseen_is_off_the_map(seen, e);
    assert(combined(revealed(seen)).positions == revealed(seen).positions);
}

/// Whether an NPC of the current place stands on the targeted tile.
pub open spec fn is_npc_at_target(w: WorldView, e: usize) -> bool {
    &&& w.npcs.contains_key(e)
    &&& w.belongs.contains_key(e)
    &&& w.positions.contains_key(e)
    &&& w.positions[e].x == w.targeted_pos.x
    &&& w.positions[e].y == w.targeted_pos.y
    &&& w.belongs[e].domain == w.current_place
}

/// The world in which the exchange begins where a tile is targeted and an NPC stands on it.
pub open spec fn engaged(w: WorldView) -> WorldView {
    if w.targeted_pos.x >= 0 && w.targeted_pos.y >= 0 && exists|e: usize| is_npc_at_target(w, e) {
        WorldView { run_state: RunState::InteractNpc { index: 0 }, ..w }
    } else {
        w
    }
}

/// Begins the exchange with an NPC on the targeted tile.
pub struct GameStateAdjustmentSystem {}

impl GameStateAdjustmentSystem {
    /// Changes the mode to the exchange where an NPC stands on the targeted tile.
    pub fn run(&mut self, world: &mut World)
        ensures
            final(world)@ == engaged(old(world)@),
    {
        if world.targeted_pos.x >= 0 && world.targeted_pos.y >= 0 {
            let n = world.npcs.bound();
            let mut e: usize = 0;
            while e < n
                invariant
                    world@ == old(world)@,
                    world.targeted_pos.x >= 0 && world.targeted_pos.y >= 0,
                    forall|f: usize| world@.npcs.contains_key(f) ==> f < n,
                    forall|f: usize| f < e ==> !is_npc_at_target(world@, f),
                decreases n - e,
            {
                let here = match (world.positions.get(e), world.belongs.get(e)) {
                    (Some(pos), Some(bel)) => world.npcs.contains(e) && pos.x
                        == world.targeted_pos.x && pos.y == world.targeted_pos.y && bel.domain
                        == world.current_place,
                    _ => false,
                };
                if here {
                    world.run_state = RunState::InteractNpc { index: 0 };
                    proof {
                        assert(is_npc_at_target(old(world)@, e));
                    }
                    return ;
                }
                e = e + 1;
            }
        }
    }
}

} // verus!
