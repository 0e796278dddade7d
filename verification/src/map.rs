use vstd::prelude::*;
use vstd::string::StringExecFns;
use crate::constants::{
    CLASS_HEIGHT, CLASS_WIDTH, CLASS_X, CLASS_Y, CURRENT_DATE, GLYPH_CORNER_NE, GLYPH_CORNER_NW,
    GLYPH_CORNER_SE, GLYPH_CORNER_SW, GLYPH_CROSS, GLYPH_HASH, GLYPH_HORIZONTAL, GLYPH_PILLAR,
    GLYPH_TEE_E, GLYPH_TEE_N, GLYPH_TEE_S, GLYPH_TEE_W, GLYPH_VERTICAL, HOME_HEIGHT, HOME_WIDTH,
    HOME_X, HOME_Y, LIBRARY_HEIGHT, LIBRARY_WIDTH, LIBRARY_X, LIBRARY_Y, MAP_HEIGHT, MAP_TILES,
    MAP_WIDTH, OTTOMAN_LEFT_HEIGHT, OTTOMAN_LEFT_WIDTH, OTTOMAN_LEFT_X, OTTOMAN_LEFT_Y,
    OTTOMAN_MAIN_HEIGHT, OTTOMAN_MAIN_WIDTH, OTTOMAN_MAIN_X, OTTOMAN_MAIN_Y, OTTOMAN_RIGHT_HEIGHT,
    OTTOMAN_RIGHT_WIDTH, OTTOMAN_RIGHT_X, OTTOMAN_RIGHT_Y, OTTOMAN_TOP_HEIGHT, OTTOMAN_TOP_WIDTH,
    OTTOMAN_TOP_X, OTTOMAN_TOP_Y, PAST_DATE, PLACE_CLASS_NAME, PLACE_HOME_NAME, PLACE_LIB_NAME,
    PLACE_OTTOMAN_LEFT_NAME, PLACE_OTTOMAN_MAIN_NAME, PLACE_OTTOMAN_RIGHT_NAME,
    PLACE_OTTOMAN_TOP_NAME, PLACE_SCHOOL_NORTH_NAME, PLACE_SCHOOL_SOUTH_NAME, SCHOOL_NORTH_HEIGHT,
    SCHOOL_NORTH_WIDTH, SCHOOL_NORTH_X, SCHOOL_NORTH_Y, SCHOOL_SOUTH_HEIGHT, SCHOOL_SOUTH_WIDTH,
    SCHOOL_SOUTH_X, SCHOOL_SOUTH_Y,
};
use crate::rect::{half, Rect};
use crate::world::{World, WorldView};

verus! {

/// What a tile of the map is.
#[derive(PartialEq, Eq, Structural, Copy, Clone, Debug)]
pub enum TileType {
    Space,
    Wall,
    Floor,
    RequiresKey,
    Portal,
    NPC,
}

/// The rooms of the game.
#[derive(PartialEq, Eq, Structural, Copy, Clone, Debug)]
pub enum Place {
    Home,
    SchoolSouth,
    SchoolNorth,
    Class,
    Library,
    OttomanMain,
    OttomanLeft,
    OttomanRight,
    OttomanTop,
}

impl Place {
    /// The name under which the place is shown.
    pub open spec fn name(self) -> Seq<char> {
        match self {
            Place::Home => PLACE_HOME_NAME@,
            Place::SchoolSouth => PLACE_SCHOOL_SOUTH_NAME@,
            Place::SchoolNorth => PLACE_SCHOOL_NORTH_NAME@,
            Place::Class => PLACE_CLASS_NAME@,
            Place::Library => PLACE_LIB_NAME@,
            Place::OttomanMain => PLACE_OTTOMAN_MAIN_NAME@,
            Place::OttomanLeft => PLACE_OTTOMAN_LEFT_NAME@,
            Place::OttomanRight => PLACE_OTTOMAN_RIGHT_NAME@,
            Place::OttomanTop => PLACE_OTTOMAN_TOP_NAME@,
        }
    }

    /// Whether the place lies in the past.
    pub open spec fn is_past(self) -> bool {
        self == Place::OttomanMain || self == Place::OttomanLeft || self == Place::OttomanRight
            || self == Place::OttomanTop
    }

    /// The corner and the size of the room of the place: `(x, y, width, height)`.
    pub open spec fn room(self) -> (i32, i32, i32, i32) {
        match self {
            Place::Home => (HOME_X, HOME_Y, HOME_WIDTH, HOME_HEIGHT),
            Place::SchoolSouth => (
                SCHOOL_SOUTH_X,
                SCHOOL_SOUTH_Y,
                SCHOOL_SOUTH_WIDTH,
                SCHOOL_SOUTH_HEIGHT,
            ),
            Place::SchoolNorth => (
                SCHOOL_NORTH_X,
                SCHOOL_NORTH_Y,
                SCHOOL_NORTH_WIDTH,
                SCHOOL_NORTH_HEIGHT,
            ),
            Place::Class => (CLASS_X, CLASS_Y, CLASS_WIDTH, CLASS_HEIGHT),
            Place::Library => (LIBRARY_X, LIBRARY_Y, LIBRARY_WIDTH, LIBRARY_HEIGHT),
            Place::OttomanMain => (
                OTTOMAN_MAIN_X,
                OTTOMAN_MAIN_Y,
                OTTOMAN_MAIN_WIDTH,
                OTTOMAN_MAIN_HEIGHT,
            ),
            Place::OttomanLeft => (
                OTTOMAN_LEFT_X,
                OTTOMAN_LEFT_Y,
                OTTOMAN_LEFT_WIDTH,
                OTTOMAN_LEFT_HEIGHT,
            ),
            Place::OttomanRight => (
                OTTOMAN_RIGHT_X,
                OTTOMAN_RIGHT_Y,
                OTTOMAN_RIGHT_WIDTH,
                OTTOMAN_RIGHT_HEIGHT,
            ),
            Place::OttomanTop => (OTTOMAN_TOP_X, OTTOMAN_TOP_Y, OTTOMAN_TOP_WIDTH, OTTOMAN_TOP_HEIGHT),
        }
    }

    /// The tile at `(x, y)` of the bare room of the place: floor inside, a border of wall
    /// around it, space elsewhere.
    pub open spec fn bare_tile(self, x: int, y: int) -> TileType {
        let (x1, y1, w, h) = self.room();
        let room = Rect {
            x1,
            y1,
            x2: (x1 + w) as i32,
            y2: (y1 + h) as i32,
            center: ((x1 + half(w as int)) as i32, (y1 + half(h as int)) as i32),
        };
        if room_wall(room, x, y) {
            TileType::Wall
        } else if room_floor(room, x, y) {
            TileType::Floor
        } else {
            TileType::Space
        }
    }

    /// The tiles of the bare room of the place, row by row.
    pub open spec fn bare_tiles(self) -> Seq<TileType> {
        Seq::new(
            MAP_TILES as nat,
            |i: int| self.bare_tile(i % (MAP_WIDTH as int), i / (MAP_WIDTH as int)),
        )
    }

    /// The name under which the place is shown.
    pub fn get_name(&self) -> (s: String)
        ensures
            s@ == self.name(),
    {
        String::from_str(
            match self {
                Place::Home => PLACE_HOME_NAME,
                Place::SchoolSouth => PLACE_SCHOOL_SOUTH_NAME,
                Place::SchoolNorth => PLACE_SCHOOL_NORTH_NAME,
                Place::Class => PLACE_CLASS_NAME,
                Place::Library => PLACE_LIB_NAME,
                Place::OttomanMain => PLACE_OTTOMAN_MAIN_NAME,
                Place::OttomanLeft => PLACE_OTTOMAN_LEFT_NAME,
                Place::OttomanRight => PLACE_OTTOMAN_RIGHT_NAME,
                Place::OttomanTop => PLACE_OTTOMAN_TOP_NAME,
            },
        )
    }

    /// The year of the place: the past for the rooms of the square, else the present.
    pub fn get_year(&self) -> (s: String)
        ensures
            s@ == (if self.is_past() {
                PAST_DATE@
            } else {
                CURRENT_DATE@
            }),
    {
        String::from_str(
            match self {
                Place::SchoolSouth | Place::SchoolNorth | Place::Home | Place::Class
                | Place::Library => CURRENT_DATE,
                Place::OttomanMain | Place::OttomanLeft | Place::OttomanRight
                | Place::OttomanTop => PAST_DATE,
            },
        )
    }

    /// The room of the place.
    pub fn get_room(&self) -> (room: Rect)
        ensures
            room.x1 == self.room().0,
            room.y1 == self.room().1,
            room.x2 == self.room().0 + self.room().2,
            room.y2 == self.room().1 + self.room().3,
            room.center == (
                (self.room().0 + half(self.room().2 as int)) as i32,
                (self.room().1 + half(self.room().3 as int)) as i32,
            ),
            0 < room.x1 <= room.x2 < MAP_WIDTH,
            0 < room.y1 <= room.y2 < MAP_HEIGHT,
    {
        match self {
            Place::Home => Rect::new(HOME_X, HOME_Y, HOME_WIDTH, HOME_HEIGHT),
            Place::SchoolSouth => Rect::new(
                SCHOOL_SOUTH_X,
                SCHOOL_SOUTH_Y,
                SCHOOL_SOUTH_WIDTH,
                SCHOOL_SOUTH_HEIGHT,
            ),
            Place::SchoolNorth => Rect::new(
                SCHOOL_NORTH_X,
                SCHOOL_NORTH_Y,
                SCHOOL_NORTH_WIDTH,
                SCHOOL_NORTH_HEIGHT,
            ),
            Place::Class => Rect::new(CLASS_X, CLASS_Y, CLASS_WIDTH, CLASS_HEIGHT),
            Place::Library => Rect::new(LIBRARY_X, LIBRARY_Y, LIBRARY_WIDTH, LIBRARY_HEIGHT),
            Place::OttomanMain => Rect::new(
                OTTOMAN_MAIN_X,
                OTTOMAN_MAIN_Y,
                OTTOMAN_MAIN_WIDTH,
                OTTOMAN_MAIN_HEIGHT,
            ),
            Place::OttomanLeft => Rect::new(
                OTTOMAN_LEFT_X,
                OTTOMAN_LEFT_Y,
                OTTOMAN_LEFT_WIDTH,
                OTTOMAN_LEFT_HEIGHT,
            ),
            Place::OttomanRight => Rect::new(
                OTTOMAN_RIGHT_X,
                OTTOMAN_RIGHT_Y,
                OTTOMAN_RIGHT_WIDTH,
                OTTOMAN_RIGHT_HEIGHT,
            ),
            Place::OttomanTop => Rect::new(
                OTTOMAN_TOP_X,
                OTTOMAN_TOP_Y,
                OTTOMAN_TOP_WIDTH,
                OTTOMAN_TOP_HEIGHT,
            ),
        }
    }
}

/// Whether `(x, y)` is a tile of the map.
pub open spec fn in_bounds(x: int, y: int) -> bool {
    0 <= x < MAP_WIDTH && 0 <= y < MAP_HEIGHT
}

/// The place of the tile `(x, y)` in the row-by-row list of tiles.
pub open spec fn tile_index(x: int, y: int) -> int {
    y * MAP_WIDTH + x
}

/// Two tiles of the map that differ have different places in the list of tiles, and every
/// tile of the map has a place in it.
pub proof fn lemma_tile_index_injective()
    ensures
        forall|a: int, b: int| in_bounds(a, b) ==> 0 <= #[trigger] tile_index(a, b) < MAP_TILES,
        forall|a: int, b: int, c: int, d: int|
            in_bounds(a, b) && in_bounds(c, d) && (a != c || b != d) ==> #[trigger] tile_index(a, b)
                != #[trigger] tile_index(c, d),
{
}

/// The tiles of one place, row by row.
#[derive(Clone)]
pub struct GameMap {
    pub tiles: Vec<TileType>,
    pub width: i32,
    pub height: i32,
    pub place: Place,
}

/// A map as plain values.
pub ghost struct GameMapView {
    pub tiles: Seq<TileType>,
    pub width: i32,
    pub height: i32,
    pub place: Place,
}

impl View for GameMap {
    type V = GameMapView;

    open spec fn view(&self) -> GameMapView {
        GameMapView { tiles: self.tiles@, width: self.width, height: self.height, place: self.place }
    }
}

/// Whether the tile `(x, y)` is a floor tile of `room`.
pub open spec fn room_floor(room: Rect, x: int, y: int) -> bool {
    room.x1 <= x < room.x2 && room.y1 <= y < room.y2
}

/// Whether the tile `(x, y)` lies on the border that is drawn one cell outside `room`.
pub open spec fn room_wall(room: Rect, x: int, y: int) -> bool {
    let on_column = x == room.x1 - 1 || x == room.x2;
    let on_row = y == room.y1 - 1 || y == room.y2;
    ||| on_column && on_row
    ||| on_row && room.x1 <= x < room.x2
    ||| on_column && room.y1 <= y < room.y2 && room.x1 < room.x2
}

/// The tile at `(x, y)` after `room` was projected on `before`.
pub open spec fn room_tile(before: Seq<TileType>, room: Rect, x: int, y: int) -> TileType {
    if room_wall(room, x, y) {
        TileType::Wall
    } else if room_floor(room, x, y) {
        TileType::Floor
    } else {
        before[tile_index(x, y)]
    }
}

/// Whether `e` is a portal that stands on the map of the current place.
pub open spec fn is_place_portal(w: WorldView, e: usize) -> bool {
    &&& w.portals.contains_key(e)
    &&& w.positions.contains_key(e)
    &&& w.belongs.contains_key(e)
    &&& w.belongs[e].domain == w.current_place
}

/// Whether `e` is an NPC that stands on the map of the current place.
pub open spec fn is_place_npc(w: WorldView, e: usize) -> bool {
    &&& w.npcs.contains_key(e)
    &&& w.positions.contains_key(e)
    &&& w.belongs.contains_key(e)
    &&& w.belongs[e].domain == w.current_place
}

/// The tile of the entity `e`.
pub open spec fn tile_of(w: WorldView, e: usize) -> int {
    tile_index(w.positions[e].x as int, w.positions[e].y as int)
}

/// `base` with the tiles of the portals below `n` of the current place laid over it, by
/// ascending id: a locked tile for one that asks for a key, else a portal.
pub open spec fn portal_overlay(w: WorldView, base: Seq<TileType>, n: nat) -> Seq<TileType>
    decreases n,
{
    if n == 0 {
        base
    } else {
        let rest = portal_overlay(w, base, (n - 1) as nat);
        let e = (n - 1) as usize;
        if n - 1 <= usize::MAX && is_place_portal(w, e) {
            rest.update(
                tile_of(w, e),
                if w.requires_item.contains_key(e) {
                    TileType::RequiresKey
                } else {
                    TileType::Portal
                },
            )
        } else {
            rest
        }
    }
}

/// `base` with the tiles of the NPCs below `n` of the current place laid over it.
pub open spec fn npc_overlay(w: WorldView, base: Seq<TileType>, n: nat) -> Seq<TileType>
    decreases n,
{
    if n == 0 {
        base
    } else {
        let rest = npc_overlay(w, base, (n - 1) as nat);
        let e = (n - 1) as usize;
        if n - 1 <= usize::MAX && is_place_npc(w, e) {
            rest.update(tile_of(w, e), TileType::NPC)
        } else {
            rest
        }
    }
}

/// `base` with the portals of the current place laid over it, and then its NPCs.
pub open spec fn overlaid(w: WorldView, base: Seq<TileType>) -> Seq<TileType> {
    npc_overlay(
        w,
        portal_overlay(w, base, (usize::MAX + 1) as nat),
        (usize::MAX + 1) as nat,
    )
}

/// Ids that carry no portal add nothing to the overlay of portals.
pub proof fn lemma_portal_overlay_bound(w: WorldView, base: Seq<TileType>, n: nat, m: nat)
    requires
        n <= m,
        forall|e: usize| e >= n ==> !#[trigger] w.portals.contains_key(e),
    ensures
        portal_overlay(w, base, m) == portal_overlay(w, base, n),
    decreases m,
{
    if m > n {
        lemma_portal_overlay_bound(w, base, n, (m - 1) as nat);
    }
}

/// Ids that carry no NPC add nothing to the overlay of NPCs.
pub proof fn lemma_npc_overlay_bound(w: WorldView, base: Seq<TileType>, n: nat, m: nat)
    requires
        n <= m,
        forall|e: usize| e >= n ==> !#[trigger] w.npcs.contains_key(e),
    ensures
        npc_overlay(w, base, m) == npc_overlay(w, base, n),
    decreases m,
{
    if m > n {
        lemma_npc_overlay_bound(w, base, n, (m - 1) as nat);
    }
}

/// The overlay of the portals of a sound world keeps the number of tiles.
pub proof fn lemma_portal_overlay_len(w: WorldView, base: Seq<TileType>, n: nat)
    requires
        w.wf(),
        base.len() == MAP_TILES,
    ensures
        portal_overlay(w, base, n).len() == MAP_TILES,
    decreases n,
{
    if n > 0 {
        lemma_portal_overlay_len(w, base, (n - 1) as nat);
        lemma_tile_index_injective();
    }
}

/// The overlay of the NPCs of a sound world keeps the number of tiles.
pub proof fn lemma_npc_overlay_len(w: WorldView, base: Seq<TileType>, n: nat)
    requires
        w.wf(),
        base.len() == MAP_TILES,
    ensures
        npc_overlay(w, base, n).len() == MAP_TILES,
    decreases n,
{
    if n > 0 {
        lemma_npc_overlay_len(w, base, (n - 1) as nat);
        lemma_tile_index_injective();
    }
}

/// The overlay of a sound world keeps the number of tiles.
pub proof fn lemma_overlaid_len(w: WorldView, base: Seq<TileType>)
    requires
        w.wf(),
        base.len() == MAP_TILES,
    ensures
        overlaid(w, base).len() == MAP_TILES,
{
    lemma_portal_overlay_len(w, base, (usize::MAX + 1) as nat);
    lemma_npc_overlay_len(
        w,
        portal_overlay(w, base, (usize::MAX + 1) as nat),
        (usize::MAX + 1) as nat,
    );
}

impl GameMap {
    /// The map has the size that every place has.
    pub open spec fn wf(&self) -> bool {
        &&& self.tiles@.len() == MAP_TILES
        &&& self.width == MAP_WIDTH
        &&& self.height == MAP_HEIGHT
    }

    /// The tile at `(x, y)`.
    pub open spec fn tile(&self, x: int, y: int) -> TileType {
        self.tiles@[tile_index(x, y)]
    }

    /// The place of the tile `(x, y)` in the list of tiles.
    pub fn xy_to_tile(x: i32, y: i32) -> (i: usize)
        requires
            i32::MIN <= y * MAP_WIDTH <= i32::MAX,
            0 <= y * MAP_WIDTH + x <= i32::MAX,
        ensures
            i == tile_index(x as int, y as int),
    {
        (y * MAP_WIDTH + x) as usize
    }

    /// A map of `place` that is all space.
    pub fn blank(place: Place) -> (map: GameMap)
        ensures
            map.wf(),
            map.place == place,
            forall|i: int| 0 <= i < MAP_TILES ==> map.tiles@[i] == TileType::Space,
    {
        let mut tiles: Vec<TileType> = Vec::new();
        let mut i: i32 = 0;
        while i < MAP_TILES
            invariant
                0 <= i <= MAP_TILES,
                tiles@.len() == i,
                forall|j: int| 0 <= j < i ==> tiles@[j] == TileType::Space,
            decreases MAP_TILES - i,
        {
            tiles.push(TileType::Space);
            i = i + 1;
        }
        GameMap { tiles, width: MAP_WIDTH, height: MAP_HEIGHT, place }
    }

    /// The tile at `(x, y)`.
    pub fn get_tile(&self, x: i32, y: i32) -> (tile: TileType)
        requires
            self.wf(),
            in_bounds(x as int, y as int),
        ensures
            tile == self.tile(x as int, y as int),
    {
        self.tiles[GameMap::xy_to_tile(x, y)]
    }

    /// Sets the tile at `(x, y)`.
    pub fn set_tile(&mut self, x: i32, y: i32, tile: TileType)
        requires
            old(self).wf(),
            in_bounds(x as int, y as int),
        ensures
            final(self).wf(),
            final(self).place == old(self).place,
            final(self).tiles@ == old(self).tiles@.update(tile_index(x as int, y as int), tile),
    {
        let i = GameMap::xy_to_tile(x, y);
        self.tiles[i] = tile;
    }

    /// Projects `room` on the map: its inside becomes floor, and a border of wall is drawn
    /// one cell outside it. The corners of the border are tiles of the map.
    pub fn apply_room_to_map(&mut self, room: &Rect)
        requires
            old(self).wf(),
            in_bounds(room.x1 - 1, room.y1 - 1),
            in_bounds(room.x2 as int, room.y2 as int),
        ensures
            final(self).wf(),
            final(self).place == old(self).place,
            forall|x: int, y: int|
                in_bounds(x, y) ==> #[trigger] final(self).tile(x, y) == room_tile(
                    old(self).tiles@,
                    *room,
                    x,
                    y,
                ),
    {
        let mut y: i32 = 0;
        while y < MAP_HEIGHT
            invariant
                0 <= y <= MAP_HEIGHT,
                self.wf(),
                self.place == old(self).place,
                in_bounds(room.x1 - 1, room.y1 - 1),
                in_bounds(room.x2 as int, room.y2 as int),
                forall|a: int, b: int|
                    in_bounds(a, b) && b < y ==> #[trigger] self.tile(a, b) == room_tile(
                        old(self).tiles@,
                        *room,
                        a,
                        b,
                    ),
                forall|a: int, b: int|
                    in_bounds(a, b) && b >= y ==> #[trigger] self.tile(a, b) == old(self).tile(
                        a,
                        b,
                    ),
            decreases MAP_HEIGHT - y,
        {
            let mut x: i32 = 0;
            while x < MAP_WIDTH
                invariant
                    0 <= x <= MAP_WIDTH,
                    0 <= y < MAP_HEIGHT,
                    self.wf(),
                    self.place == old(self).place,
                    in_bounds(room.x1 - 1, room.y1 - 1),
                    in_bounds(room.x2 as int, room.y2 as int),
                    forall|a: int, b: int|
                        in_bounds(a, b) && (b < y || (b == y && a < x)) ==> #[trigger] self.tile(
                            a,
                            b,
                        ) == room_tile(old(self).tiles@, *room, a, b),
                    forall|a: int, b: int|
                        in_bounds(a, b) && (b > y || (b == y && a >= x)) ==> #[trigger] self.tile(
                            a,
                            b,
                        ) == old(self).tile(a, b),
                decreases MAP_WIDTH - x,
            {
                let on_column = x == room.x1 - 1 || x == room.x2;
                let on_row = y == room.y1 - 1 || y == room.y2;
                let in_columns = room.x1 <= x && x < room.x2;
                let in_rows = room.y1 <= y && y < room.y2;
                let ghost pre = *self;
                if (on_column && on_row) || (on_row && in_columns) || (on_column && in_rows
                    && room.x1 < room.x2) {
                    self.set_tile(x, y, TileType::Wall);
                } else if in_columns && in_rows {
                    self.set_tile(x, y, TileType::Floor);
                }
                proof {
                    lemma_tile_index_injective();
                    assert forall|a: int, b: int|
                        in_bounds(a, b) && (b < y || (b == y && a < x + 1))
                        implies #[trigger] self.tile(a, b) == room_tile(
                        old(self).tiles@,
                        *room,
                        a,
                        b,
                    ) by {
                        if a == x && b == y {
                        } else {
                            assert(tile_index(a, b) != tile_index(x as int, y as int));
                            assert(self.tile(a, b) == pre.tile(a, b));
                        }
                    }
                    assert forall|a: int, b: int|
                        in_bounds(a, b) && (b > y || (b == y && a >= x + 1))
                        implies #[trigger] self.tile(a, b) == old(self).tile(a, b) by {
                        assert(tile_index(a, b) != tile_index(x as int, y as int));
                        assert(self.tile(a, b) == pre.tile(a, b));
                    }
                }
                x = x + 1;
            }
            y = y + 1;
        }
    }

    /// Lays the portals of the current place over the map, and then its NPCs, so that an
    /// NPC on the tile of a portal is what the tile shows.
    pub fn adjust_tiles(&mut self, ecs: &World)
        requires
            old(self).wf(),
            ecs.wf(),
        ensures
            final(self).wf(),
            final(self).place == old(self).place,
            final(self).tiles@ == overlaid(ecs@, old(self).tiles@),
    {
        let ghost w = ecs@;
        let ghost base = self.tiles@;
        let n = ecs.portals.bound();
        let mut e: usize = 0;
        while e < n
            invariant
                e <= n,
                w == ecs@,
                w.wf(),
                self.wf(),
                self.place == old(self).place,
                base == old(self).tiles@,
                forall|f: usize| w.portals.contains_key(f) ==> f < n,
                self.tiles@ == portal_overlay(w, base, e as nat),
            decreases n - e,
        {
            if ecs.portals.contains(e) {
                if let Some(pos) = ecs.positions.get(e) {
                    if let Some(bel) = ecs.belongs.get(e) {
                        if bel.domain == ecs.current_place {
                            let tile = if ecs.requires_item.contains(e) {
                                TileType::RequiresKey
                            } else {
                                TileType::Portal
                            };
                            self.set_tile(pos.x, pos.y, tile);
                        }
                    }
                }
            }
            e = e + 1;
        }
        proof {
            lemma_portal_overlay_bound(w, base, n as nat, (usize::MAX + 1) as nat);
        }
        let ghost under = self.tiles@;
        let n = ecs.npcs.bound();
        let mut e: usize = 0;
        while e < n
            invariant
                e <= n,
                w == ecs@,
                w.wf(),
                self.wf(),
                self.place == old(self).place,
                forall|f: usize| w.npcs.contains_key(f) ==> f < n,
                self.tiles@ == npc_overlay(w, under, e as nat),
            decreases n - e,
        {
            if ecs.npcs.contains(e) {
                if let Some(pos) = ecs.positions.get(e) {
                    if let Some(bel) = ecs.belongs.get(e) {
                        if bel.domain == ecs.current_place {
                            self.set_tile(pos.x, pos.y, TileType::NPC);
                        }
                    }
                }
            }
            e = e + 1;
        }
        proof {
            lemma_npc_overlay_bound(w, under, n as nat, (usize::MAX + 1) as nat);
        }
    }

    /// The map of `place`: its bare room, with the portals and the NPCs of the current
    /// place of `ecs` laid over it.
    pub fn new_map_rooms_and_corridors(ecs: &World, place: Place) -> (map: GameMap)
        requires
            ecs.wf(),
        ensures
            map.wf(),
            map.place == place,
            map.tiles@ == overlaid(ecs@, place.bare_tiles()),
    {
        let mut map = GameMap::blank(place);
        let room = place.get_room();
        map.apply_room_to_map(&room);
        proof {
            assert forall|i: int| 0 <= i < MAP_TILES implies map.tiles@[i]
                == place.bare_tiles()[i] by {
                let x = i % (MAP_WIDTH as int);
                let y = i / (MAP_WIDTH as int);
                assert(in_bounds(x, y));
                assert(tile_index(x, y) == i);
                assert(map.tile(x, y) == map.tiles@[i]);
            }
            assert(map.tiles@ =~= place.bare_tiles());
        }
        map.adjust_tiles(ecs);
        map
    }
}

/// The 4-neighbour mask of the tile `(x, y)`: 1 for a wall to the north, 2 to the south,
/// 4 to the west, 8 to the east.
pub open spec fn wall_mask(map: GameMap, x: int, y: int) -> int {
    (if map.tile(x, y - 1) == TileType::Wall { 1int } else { 0 })
    + (if map.tile(x, y + 1) == TileType::Wall { 2int } else { 0 })
    + (if map.tile(x - 1, y) == TileType::Wall { 4int } else { 0 })
    + (if map.tile(x + 1, y) == TileType::Wall { 8int } else { 0 })
}

/// The glyph of a wall whose neighbours give `mask`.
pub open spec fn mask_glyph(mask: int) -> u16 {
    if mask == 0 {
        GLYPH_PILLAR
    } else if mask == 1 || mask == 2 || mask == 3 {
        GLYPH_VERTICAL
    } else if mask == 4 || mask == 8 || mask == 12 {
        GLYPH_HORIZONTAL
    } else if mask == 5 {
        GLYPH_CORNER_NW
    } else if mask == 6 {
        GLYPH_CORNER_SW
    } else if mask == 7 {
        GLYPH_TEE_W
    } else if mask == 9 {
        GLYPH_CORNER_NE
    } else if mask == 10 {
        GLYPH_CORNER_SE
    } else if mask == 11 {
        GLYPH_TEE_E
    } else if mask == 13 {
        GLYPH_TEE_S
    } else if mask == 14 {
        GLYPH_TEE_N
    } else if mask == 15 {
        GLYPH_CROSS
    } else {
        GLYPH_HASH
    }
}

/// Whether the tile `(x, y)` has all four neighbours on the map.
pub open spec fn is_inner(map: GameMap, x: int, y: int) -> bool {
    1 <= x <= map.width - 2 && 1 <= y <= map.height - 2
}

/// Whether the tile at `(x, y)` is a wall.
pub fn is_wall(map: &GameMap, x: i32, y: i32) -> (b: bool)
    requires
        map.wf(),
        in_bounds(x as int, y as int),
    ensures
        b == (map.tile(x as int, y as int) == TileType::Wall),
{
    map.get_tile(x, y) == TileType::Wall
}

/// The glyph of the wall at `(x, y)`: a hash on the rim of the map, else the line piece
/// that joins the walls next to it.
pub fn wall_glyph(map: &GameMap, x: i32, y: i32) -> (glyph: u16)
    requires
        map.wf(),
    ensures
        glyph == (if is_inner(*map, x as int, y as int) {
            mask_glyph(wall_mask(*map, x as int, y as int))
        } else {
            GLYPH_HASH
        }),
{
    if x < 1 || x > map.width - 2 || y < 1 || y > map.height - 2 {
        return GLYPH_HASH;
    }
    let mut mask: u8 = 0;
    if is_wall(map, x, y - 1) {
        mask += 1;
    }
    if is_wall(map, x, y + 1) {
        mask += 2;
    }
    if is_wall(map, x - 1, y) {
        mask += 4;
    }
    if is_wall(map, x + 1, y) {
        mask += 8;
    }
    match mask {
        0 => GLYPH_PILLAR,
        1 => GLYPH_VERTICAL,
        2 => GLYPH_VERTICAL,
        3 => GLYPH_VERTICAL,
        4 => GLYPH_HORIZONTAL,
        5 => GLYPH_CORNER_NW,
        6 => GLYPH_CORNER_SW,
        7 => GLYPH_TEE_W,
        8 => GLYPH_HORIZONTAL,
        9 => GLYPH_CORNER_NE,
        10 => GLYPH_CORNER_SE,
        11 => GLYPH_TEE_E,
        12 => GLYPH_HORIZONTAL,
        13 => GLYPH_TEE_S,
        14 => GLYPH_TEE_N,
        15 => GLYPH_CROSS,
        _ => GLYPH_HASH,
    }
}

} // verus!
