use vstd::prelude::*;
use vstd::string::StringExecFns;
use crate::components::{
    lines_of, BelongsTo, ContainsItems, DormantPosition, Interaction, InteractionView, Item, Name,
    Npc, PermanentItem, Player, Portal, Position, Renderable, RequiresItem, RequiresItems,
    RevealerInformation, Rgb, SerializeMe,
};
use crate::constants::{
    background_color, item_door_color, item_key_color, item_portal_color, npc_human_color,
    player_color, KEY_CHAR, NPC_CAT_CHAR, NPC_DOG_CHAR, NPC_HUMAN_CHAR, PLAYER_CHAR, PORTAL_CHAR,
};
use crate::items::ItemName;
use crate::map::{in_bounds, Place, TileType};
use crate::npcs::NpcState;
use crate::state::State;
use crate::store::lemma_views_insert;
use crate::world::{World, WorldView};

verus! {

/// The glyph that `rltk::to_cp437` gives for the character `c`.
pub uninterp spec fn cp437(c: char) -> u16;

/// `rltk::to_cp437`: looks the character up in the table of code page 437. The glyph
/// depends on the character alone; the contract gives it the name [`cp437`] and says no
/// more of it.
#[verifier::external_body]
fn to_cp437(c: char) -> (glyph: u16)
    ensures
        glyph == cp437(c),
{
    rltk::to_cp437(c)
}

/// The world with a new entity that has a name and a place and is written to snapshots.
pub open spec fn with_marked(w: WorldView, name: Seq<char>, domain: Place) -> WorldView {
    let e = w.entities.len() as usize;
    WorldView {
        entities: w.entities.push(true),
        names: w.names.insert(e, name),
        belongs: w.belongs.insert(e, BelongsTo { domain }),
        markers: w.markers.insert(e, SerializeMe {  }),
        ..w
    }
}

/// Makes an entity that has a name and a place and is written to snapshots.
fn build_marked(world: &mut World, name: String, domain: Place) -> (e: usize)
    ensures
        e == old(world)@.entities.len(),
        final(world)@ == with_marked(old(world)@, name@, domain),
{
    let e = world.create_entity();
    let ghost before = world.names;
    let name = Name { name };
    world.names.insert(e, name);
    proof {
        lemma_views_insert(before, world.names, e, name);
    }
    world.belongs.insert(e, BelongsTo { domain });
    world.markers.insert(e, SerializeMe {  });
    e
}

/// The world with the player as a new entity at `coord`, at home, painted with `glyph`.
pub open spec fn with_player(
    w: WorldView,
    name: Seq<char>,
    coord: (i32, i32),
    glyph: u16,
) -> WorldView {
    let e = w.entities.len() as usize;
    let m = with_marked(w, name, Place::Home);
    WorldView {
        positions: m.positions.insert(e, Position { x: coord.0, y: coord.1 }),
        renderables: m.renderables.insert(
            e,
            Renderable { glyph, fg: player_color(), bg: background_color(), render_order: 0 },
        ),
        players: m.players.insert(e, Player {  }),
        ..m
    }
}

/// Makes the player at `coord`, at home, painted with `glyph`.
pub fn build_player_with(gs: &mut State, name: String, coord: (i32, i32), glyph: u16) -> (e: usize)
    ensures
        e == old(gs).ecs@.entities.len(),
        final(gs).ecs@ == with_player(old(gs).ecs@, name@, coord, glyph),
        old(gs).ecs.wf() && in_bounds(coord.0 as int, coord.1 as int) ==> final(gs).ecs.wf(),
{
    let e = build_marked(&mut gs.ecs, name, Place::Home);
    gs.ecs.positions.insert(e, Position { x: coord.0, y: coord.1 });
    gs.ecs.renderables.insert(
        e,
        Renderable { glyph, fg: player_color(), bg: background_color(), render_order: 0 },
    );
    gs.ecs.players.insert(e, Player {  });
    e
}

/// Makes the player at `coord`, at home.
pub fn build_player(gs: &mut State, name: String, coord: (i32, i32)) -> (e: usize)
    ensures
        e == old(gs).ecs@.entities.len(),
        final(gs).ecs@ == with_player(old(gs).ecs@, name@, coord, cp437(PLAYER_CHAR)),
        old(gs).ecs.wf() && in_bounds(coord.0 as int, coord.1 as int) ==> final(gs).ecs.wf(),
{
    build_player_with(gs, name, coord, to_cp437(PLAYER_CHAR))
}

/// The world with a new item of identity `name` that lies at `coord` in `domain`.
pub open spec fn with_active_item(
    w: WorldView,
    name: ItemName,
    domain: Place,
    coord: (i32, i32),
    permanent: bool,
    glyph: u16,
) -> WorldView {
    let e = w.entities.len() as usize;
    let m = with_marked(w, name.display(), domain);
    WorldView {
        positions: m.positions.insert(e, Position { x: coord.0, y: coord.1 }),
        renderables: m.renderables.insert(
            e,
            Renderable { glyph, fg: item_key_color(), bg: background_color(), render_order: 1 },
        ),
        items: m.items.insert(e, Item { name }),
        permanent_items: if permanent {
            m.permanent_items.insert(e, PermanentItem {  })
        } else {
            m.permanent_items
        },
        ..m
    }
}

/// Makes an item of identity `name` that lies at `coord` in `domain`, painted with `glyph`.
pub fn build_active_item_with(
    gs: &mut State,
    name: ItemName,
    domain: Place,
    coord: (i32, i32),
    permanent: bool,
    glyph: u16,
) -> (e: usize)
    ensures
        e == old(gs).ecs@.entities.len(),
        final(gs).ecs@ == with_active_item(old(gs).ecs@, name, domain, coord, permanent, glyph),
        old(gs).ecs.wf() && in_bounds(coord.0 as int, coord.1 as int) ==> final(gs).ecs.wf(),
{
    let e = build_marked(&mut gs.ecs, name.to_string(), domain);
    gs.ecs.positions.insert(e, Position { x: coord.0, y: coord.1 });
    gs.ecs.renderables.insert(
        e,
        Renderable { glyph, fg: item_key_color(), bg: background_color(), render_order: 1 },
    );
    gs.ecs.items.insert(e, Item { name });
    if permanent {
        gs.ecs.permanent_items.insert(e, PermanentItem {  });
    }
    e
}

/// Makes an item of identity `name` that lies at `coord` in `domain`.
pub fn build_active_item(
    gs: &mut State,
    name: ItemName,
    domain: Place,
    coord: (i32, i32),
    permanent: bool,
) -> (e: usize)
    ensures
        e == old(gs).ecs@.entities.len(),
        final(gs).ecs@ == with_active_item(
            old(gs).ecs@,
            name,
            domain,
            coord,
            permanent,
            cp437(KEY_CHAR),
        ),
        old(gs).ecs.wf() && in_bounds(coord.0 as int, coord.1 as int) ==> final(gs).ecs.wf(),
{
    build_active_item_with(gs, name, domain, coord, permanent, to_cp437(KEY_CHAR))
}

/// The world with a new portal at `coord` in `domain`, locked where `key` names an item.
pub open spec fn with_door_or_portal(
    w: WorldView,
    name: Seq<char>,
    domain: Place,
    coord: (i32, i32),
    target: Place,
    warp_place: (i32, i32),
    key: Option<ItemName>,
    glyph: u16,
) -> WorldView {
    let e = w.entities.len() as usize;
    let m = with_marked(w, name, domain);
    WorldView {
        positions: m.positions.insert(e, Position { x: coord.0, y: coord.1 }),
        portals: m.portals.insert(e, Portal { target, warp_place }),
        renderables: m.renderables.insert(
            e,
            Renderable {
                glyph,
                fg: if key is Some {
                    item_door_color()
                } else {
                    item_portal_color()
                },
                bg: background_color(),
                render_order: 1,
            },
        ),
        requires_item: match key {
            Some(key) => m.requires_item.insert(e, RequiresItem { key }),
            None => m.requires_item,
        },
        ..m
    }
}

/// Makes a portal at `coord` in `domain`, locked where `key` names an item, painted
/// with `glyph`.
pub fn build_door_or_portal(
    gs: &mut State,
    name: String,
    domain: Place,
    coord: (i32, i32),
    target: Place,
    warp_place: (i32, i32),
    key: Option<ItemName>,
    glyph: u16,
) -> (e: usize)
    ensures
        e == old(gs).ecs@.entities.len(),
        final(gs).ecs@ == with_door_or_portal(
            old(gs).ecs@,
            name@,
            domain,
            coord,
            target,
            warp_place,
            key,
            glyph,
        ),
        old(gs).ecs.wf() && in_bounds(coord.0 as int, coord.1 as int) && in_bounds(
            warp_place.0 as int,
            warp_place.1 as int,
        ) ==> final(gs).ecs.wf(),
{
    let e = build_marked(&mut gs.ecs, name, domain);
    gs.ecs.positions.insert(e, Position { x: coord.0, y: coord.1 });
    gs.ecs.portals.insert(e, Portal { target, warp_place });
    let fg = match key {
        Some(_) => item_door_color(),
        None => item_portal_color(),
    };
    gs.ecs.renderables.insert(e, Renderable { glyph, fg, bg: background_color(), render_order: 1 });
    if let Some(key) = key {
        gs.ecs.requires_item.insert(e, RequiresItem { key });
    }
    e
}

/// Makes a portal at `coord` in `domain` that `key` opens.
pub fn build_door(
    gs: &mut State,
    name: String,
    domain: Place,
    coord: (i32, i32),
    target: Place,
    warp_place: (i32, i32),
    key: ItemName,
) -> (e: usize)
    ensures
        e == old(gs).ecs@.entities.len(),
        final(gs).ecs@ == with_door_or_portal(
            old(gs).ecs@,
            name@,
            domain,
            coord,
            target,
            warp_place,
            Some(key),
            cp437(PORTAL_CHAR),
        ),
        old(gs).ecs.wf() && in_bounds(coord.0 as int, coord.1 as int) && in_bounds(
            warp_place.0 as int,
            warp_place.1 as int,
        ) ==> final(gs).ecs.wf(),
{
    build_door_or_portal(
        gs,
        name,
        domain,
        coord,
        target,
        warp_place,
        Some(key),
        to_cp437(PORTAL_CHAR),
    )
}

/// Makes an open portal at `coord` in `domain`.
pub fn build_portal(
    gs: &mut State,
    name: String,
    domain: Place,
    coord: (i32, i32),
    target: Place,
    warp_place: (i32, i32),
) -> (e: usize)
    ensures
        e == old(gs).ecs@.entities.len(),
        final(gs).ecs@ == with_door_or_portal(
            old(gs).ecs@,
            name@,
            domain,
            coord,
            target,
            warp_place,
            None,
            cp437(PORTAL_CHAR),
        ),
        old(gs).ecs.wf() && in_bounds(coord.0 as int, coord.1 as int) && in_bounds(
            warp_place.0 as int,
            warp_place.1 as int,
        ) ==> final(gs).ecs.wf(),
{
    build_door_or_portal(gs, name, domain, coord, target, warp_place, None, to_cp437(PORTAL_CHAR))
}

/// What a hidden door is made with.
pub struct DormantDoor {
    pub domain: Place,
    pub coord: (i32, i32),
    pub target: Place,
    pub warp_place: (i32, i32),
    pub key: ItemName,
    pub x_end_points: (i32, i32),
    pub y_end_points: (i32, i32),
    pub revealer_item: ItemName,
    pub before_reveal: TileType,
}

/// The world with a new locked portal that is hidden at `door.coord`.
pub open spec fn with_dormant_door(
    w: WorldView,
    name: Seq<char>,
    door: DormantDoor,
    glyph: u16,
) -> WorldView {
    let e = w.entities.len() as usize;
    let m = with_marked(w, name, door.domain);
    WorldView {
        dormant_positions: m.dormant_positions.insert(
            e,
            DormantPosition { x: door.coord.0, y: door.coord.1 },
        ),
        portals: m.portals.insert(e, Portal { target: door.target, warp_place: door.warp_place }),
        renderables: m.renderables.insert(
            e,
            Renderable { glyph, fg: item_door_color(), bg: background_color(), render_order: 1 },
        ),
        requires_item: m.requires_item.insert(e, RequiresItem { key: door.key }),
        revealer_infos: m.revealer_infos.insert(
            e,
            RevealerInformation {
                x_end_points: door.x_end_points,
                y_end_points: door.y_end_points,
                revealer_item: door.revealer_item,
                before_reveal: door.before_reveal,
            },
        ),
        ..m
    }
}

/// Makes a locked portal that is hidden at `door.coord`, painted with `glyph`.
pub fn build_dormant_door_with(gs: &mut State, name: String, door: DormantDoor, glyph: u16) -> (e:
    usize)
    ensures
        e == old(gs).ecs@.entities.len(),
        final(gs).ecs@ == with_dormant_door(old(gs).ecs@, name@, door, glyph),
        old(gs).ecs.wf() && in_bounds(door.coord.0 as int, door.coord.1 as int) && in_bounds(
            door.warp_place.0 as int,
            door.warp_place.1 as int,
        ) ==> final(gs).ecs.wf(),
{
    let e = build_marked(&mut gs.ecs, name, door.domain);
    gs.ecs.dormant_positions.insert(e, DormantPosition { x: door.coord.0, y: door.coord.1 });
    gs.ecs.portals.insert(e, Portal { target: door.target, warp_place: door.warp_place });
    gs.ecs.renderables.insert(
        e,
        Renderable { glyph, fg: item_door_color(), bg: background_color(), render_order: 1 },
    );
    gs.ecs.requires_item.insert(e, RequiresItem { key: door.key });
    gs.ecs.revealer_infos.insert(
        e,
        RevealerInformation {
            x_end_points: door.x_end_points,
            y_end_points: door.y_end_points,
            revealer_item: door.revealer_item,
            before_reveal: door.before_reveal,
        },
    );
    e
}

/// Makes a locked portal that is hidden at `coord` in `domain` until the player stands in
/// the zone between the end points and holds `revealer_item`.
pub fn build_dormant_door(
    gs: &mut State,
    name: String,
    domain: Place,
    coord: (i32, i32),
    target: Place,
    warp_place: (i32, i32),
    key: ItemName,
    x_end_points: (i32, i32),
    y_end_points: (i32, i32),
    revealer_item: ItemName,
    before_reveal: TileType,
) -> (e: usize)
    ensures
        e == old(gs).ecs@.entities.len(),
        final(gs).ecs@ == with_dormant_door(
            old(gs).ecs@,
            name@,
            DormantDoor {
                domain,
                coord,
                target,
                warp_place,
                key,
                x_end_points,
                y_end_points,
                revealer_item,
                before_reveal,
            },
            cp437(PORTAL_CHAR),
        ),
        old(gs).ecs.wf() && in_bounds(coord.0 as int, coord.1 as int) && in_bounds(
            warp_place.0 as int,
            warp_place.1 as int,
        ) ==> final(gs).ecs.wf(),
{
    let door = DormantDoor {
        domain,
        coord,
        target,
        warp_place,
        key,
        x_end_points,
        y_end_points,
        revealer_item,
        before_reveal,
    };
    build_dormant_door_with(gs, name, door, to_cp437(PORTAL_CHAR))
}

/// The world with a new item of identity `name` that is nowhere yet.
pub open spec fn with_dormant_item(w: WorldView, name: ItemName) -> WorldView {
    let e = w.entities.len() as usize;
    WorldView {
        entities: w.entities.push(true),
        names: w.names.insert(e, name.display()),
        items: w.items.insert(e, Item { name }),
        markers: w.markers.insert(e, SerializeMe {  }),
        ..w
    }
}

/// Makes an item of identity `name` that is nowhere yet: an NPC hands it out, or a
/// recipe gives it.
pub fn build_dormant_item(gs: &mut State, name: ItemName) -> (e: usize)
    ensures
        e == old(gs).ecs@.entities.len(),
        final(gs).ecs@ == with_dormant_item(old(gs).ecs@, name),
        old(gs).ecs.wf() ==> final(gs).ecs.wf(),
{
    let world = &mut gs.ecs;
    let e = world.create_entity();
    let ghost before = world.names;
    let label = Name { name: name.to_string() };
    world.names.insert(e, label);
    proof {
        lemma_views_insert(before, world.names, e, label);
    }
    world.items.insert(e, Item { name });
    world.markers.insert(e, SerializeMe {  });
    e
}

/// The lines of the pages of a script that is given as string slices.
pub open spec fn script_of(dialogues: Seq<Vec<&str>>) -> Seq<Seq<Seq<char>>> {
    Seq::new(dialogues.len(), |i: int| Seq::new(dialogues[i]@.len(), |j: int| dialogues[i]@[j]@))
}

/// The items of a list that may be missing.
pub open spec fn items_or_none(items: Option<Vec<ItemName>>) -> Seq<ItemName> {
    match items {
        Some(items) => items@,
        None => Seq::empty(),
    }
}

/// What an NPC is made with, besides its name and its script.
pub struct NpcKit {
    pub domain: Place,
    pub coord: (i32, i32),
    pub glyph: u16,
    pub fg: Rgb,
    pub requires_item: Option<Vec<ItemName>>,
    pub contains_item: Option<Vec<ItemName>>,
    pub get_item_indices: Vec<usize>,
    pub give_item_indices: Vec<usize>,
    pub change_objective_indices: Vec<usize>,
}

/// The world with a new NPC at `kit.coord` that talks, at the first page of `script`.
pub open spec fn with_npc(
    w: WorldView,
    name: Seq<char>,
    kit: NpcKit,
    script: Seq<Seq<Seq<char>>>,
) -> WorldView {
    let e = w.entities.len() as usize;
    let m = with_marked(w, name, kit.domain);
    WorldView {
        npcs: m.npcs.insert(e, Npc { state: NpcState::HasDialogue }),
        positions: m.positions.insert(e, Position { x: kit.coord.0, y: kit.coord.1 }),
        renderables: m.renderables.insert(
            e,
            Renderable { glyph: kit.glyph, fg: kit.fg, bg: background_color(), render_order: 1 },
        ),
        interactions: m.interactions.insert(
            e,
            InteractionView {
                dialogues: script,
                dialogue_index: 0,
                get_item_indices: kit.get_item_indices@,
                give_item_indices: kit.give_item_indices@,
                change_objective_indices: kit.change_objective_indices@,
                repeat: false,
                print_no_item: true,
            },
        ),
        requires_items: m.requires_items.insert(e, items_or_none(kit.requires_item)),
        contains_items: m.contains_items.insert(e, items_or_none(kit.contains_item)),
        ..m
    }
}

/// The pages of a script as owned strings.
fn owned_script(dialogues: &Vec<Vec<&str>>) -> (pages: Vec<Vec<String>>)
    ensures
        crate::components::pages_of(pages@) == script_of(dialogues@),
{
    let mut pages: Vec<Vec<String>> = Vec::new();
    let mut i: usize = 0;
    while i < dialogues.len()
        invariant
            i <= dialogues@.len(),
            pages@.len() == i,
            forall|k: int| 0 <= k < i ==> lines_of(#[trigger] pages@[k]@) == script_of(dialogues@)[k],
        decreases dialogues@.len() - i,
    {
        let mut lines: Vec<String> = Vec::new();
        let mut j: usize = 0;
        while j < dialogues[i].len()
            invariant
                i < dialogues@.len(),
                j <= dialogues@[i as int]@.len(),
                lines@.len() == j,
                forall|k: int| 0 <= k < j ==> (#[trigger] lines@[k])@ == dialogues@[i as int]@[k]@,
            decreases dialogues@[i as int]@.len() - j,
        {
            lines.push(String::from_str(dialogues[i][j]));
            j = j + 1;
        }
        proof {
            assert(lines_of(lines@) =~= script_of(dialogues@)[i as int]);
        }
        pages.push(lines);
        i = i + 1;
    }
    proof {
        assert(crate::components::pages_of(pages@) =~= script_of(dialogues@));
    }
    pages
}

/// Makes an NPC at `kit.coord` that talks, at the first page of `dialogues`.
pub fn build_npc(gs: &mut State, name: &str, kit: NpcKit, dialogues: Vec<Vec<&str>>) -> (e: usize)
    ensures
        e == old(gs).ecs@.entities.len(),
        final(gs).ecs@ == with_npc(old(gs).ecs@, name@, kit, script_of(dialogues@)),
        old(gs).ecs.wf() && in_bounds(kit.coord.0 as int, kit.coord.1 as int)
            ==> final(gs).ecs.wf(),
{
    let world = &mut gs.ecs;
    let e = build_marked(world, String::from_str(name), kit.domain);
    world.npcs.insert(e, Npc { state: NpcState::HasDialogue });
    world.positions.insert(e, Position { x: kit.coord.0, y: kit.coord.1 });
    world.renderables.insert(
        e,
        Renderable { glyph: kit.glyph, fg: kit.fg, bg: background_color(), render_order: 1 },
    );
    let script = Interaction {
        dialogues: owned_script(&dialogues),
        dialogue_index: 0,
        get_item_indices: kit.get_item_indices,
        give_item_indices: kit.give_item_indices,
        change_objective_indices: kit.change_objective_indices,
        repeat: false,
        print_no_item: true,
    };
    let wanted = RequiresItems {
        items: match kit.requires_item {
            None => Vec::new(),
            Some(items) => items,
        },
    };
    let offered = ContainsItems {
        items: match kit.contains_item {
            None => Vec::new(),
            Some(items) => items,
        },
    };
    let ghost before_script = world.interactions;
    let ghost before_wanted = world.requires_items;
    let ghost before_offered = world.contains_items;
    world.interactions.insert(e, script);
    world.requires_items.insert(e, wanted);
    world.contains_items.insert(e, offered);
    proof {
        lemma_views_insert(before_script, world.interactions, e, script);
        lemma_views_insert(before_wanted, world.requires_items, e, wanted);
        lemma_views_insert(before_offered, world.contains_items, e, offered);
    }
    e
}

/// Makes a human NPC.
pub fn build_npc_human(
    gs: &mut State,
    name: &str,
    domain: Place,
    coord: (i32, i32),
    dialogues: Vec<Vec<&str>>,
    requires_item: Option<Vec<ItemName>>,
    contains_item: Option<Vec<ItemName>>,
    get_item_indices: Vec<usize>,
    give_item_indices: Vec<usize>,
    change_objective_indices: Vec<usize>,
) -> (e: usize)
    ensures
        e == old(gs).ecs@.entities.len(),
        final(gs).ecs@ == with_npc(
            old(gs).ecs@,
            name@,
            NpcKit {
                domain,
                coord,
                glyph: cp437(NPC_HUMAN_CHAR),
                fg: npc_human_color(),
                requires_item,
                contains_item,
                get_item_indices,
                give_item_indices,
                change_objective_indices,
            },
            script_of(dialogues@),
        ),
        old(gs).ecs.wf() && in_bounds(coord.0 as int, coord.1 as int) ==> final(gs).ecs.wf(),
{
    let kit = NpcKit {
        domain,
        coord,
        glyph: to_cp437(NPC_HUMAN_CHAR),
        fg: npc_human_color(),
        requires_item,
        contains_item,
        get_item_indices,
        give_item_indices,
        change_objective_indices,
    };
    build_npc(gs, name, kit, dialogues)
}

/// The world with a new NPC at `coord` that has one line to say.
pub open spec fn with_one_liner(
    w: WorldView,
    name: Seq<char>,
    domain: Place,
    coord: (i32, i32),
    glyph: u16,
    fg: Rgb,
    line: Seq<char>,
) -> WorldView {
    let e = w.entities.len() as usize;
    let m = with_marked(w, name, domain);
    WorldView {
        npcs: m.npcs.insert(e, Npc { state: NpcState::HasDialogue }),
        positions: m.positions.insert(e, Position { x: coord.0, y: coord.1 }),
        renderables: m.renderables.insert(
            e,
            Renderable { glyph, fg, bg: background_color(), render_order: 1 },
        ),
        interactions: m.interactions.insert(
            e,
            InteractionView {
                dialogues: seq![seq![line]],
                dialogue_index: 0,
                get_item_indices: Seq::empty(),
                give_item_indices: Seq::empty(),
                change_objective_indices: Seq::empty(),
                repeat: false,
                print_no_item: true,
            },
        ),
        requires_items: m.requires_items.insert(e, Seq::empty()),
        contains_items: m.contains_items.insert(e, Seq::empty()),
        ..m
    }
}

/// Makes an NPC painted with `glyph` in `fg` that has one line to say.
pub fn build_npc_one_liner(
    gs: &mut State,
    name: &str,
    domain: Place,
    coord: (i32, i32),
    glyph: u16,
    fg: Rgb,
    line: &str,
) -> (e: usize)
    ensures
        e == old(gs).ecs@.entities.len(),
        final(gs).ecs@ == with_one_liner(old(gs).ecs@, name@, domain, coord, glyph, fg, line@),
        old(gs).ecs.wf() && in_bounds(coord.0 as int, coord.1 as int) ==> final(gs).ecs.wf(),
{
    let kit = NpcKit {
        domain,
        coord,
        glyph,
        fg,
        requires_item: None,
        contains_item: None,
        get_item_indices: Vec::new(),
        give_item_indices: Vec::new(),
        change_objective_indices: Vec::new(),
    };
    let mut page: Vec<&str> = Vec::new();
    page.push(line);
    let mut dialogues: Vec<Vec<&str>> = Vec::new();
    dialogues.push(page);
    proof {
        assert(script_of(dialogues@) =~= seq![seq![line@]]) by {
            assert(script_of(dialogues@)[0] =~= seq![line@]);
        }
    }
    build_npc(gs, name, kit, dialogues)
}

/// Makes a human NPC that has one line to say.
pub fn build_npc_human_one_liner(
    gs: &mut State,
    name: &str,
    domain: Place,
    coord: (i32, i32),
    line: &str,
) -> (e: usize)
    ensures
        e == old(gs).ecs@.entities.len(),
        final(gs).ecs@ == with_one_liner(
            old(gs).ecs@,
            name@,
            domain,
            coord,
            cp437(NPC_HUMAN_CHAR),
            npc_human_color(),
            line@,
        ),
        old(gs).ecs.wf() && in_bounds(coord.0 as int, coord.1 as int) ==> final(gs).ecs.wf(),
{
    build_npc_one_liner(gs, name, domain, coord, to_cp437(NPC_HUMAN_CHAR), npc_human_color(), line)
}

/// Makes a dog in the colour `fg` that has one line to say.
pub fn build_npc_dog(
    gs: &mut State,
    name: &str,
    domain: Place,
    coord: (i32, i32),
    fg: Rgb,
    line: &str,
) -> (e: usize)
    ensures
        e == old(gs).ecs@.entities.len(),
        final(gs).ecs@ == with_one_liner(
            old(gs).ecs@,
            name@,
            domain,
            coord,
            cp437(NPC_DOG_CHAR),
            fg,
            line@,
        ),
        old(gs).ecs.wf() && in_bounds(coord.0 as int, coord.1 as int) ==> final(gs).ecs.wf(),
{
    build_npc_one_liner(gs, name, domain, coord, to_cp437(NPC_DOG_CHAR), fg, line)
}

/// Makes a cat in the colour `fg` that has one line to say.
pub fn build_npc_cat(
    gs: &mut State,
    name: &str,
    domain: Place,
    coord: (i32, i32),
    fg: Rgb,
    line: &str,
) -> (e: usize)
    ensures
        e == old(gs).ecs@.entities.len(),
        final(gs).ecs@ == with_one_liner(
            old(gs).ecs@,
            name@,
            domain,
            coord,
            cp437(NPC_CAT_CHAR),
            fg,
            line@,
        ),
        old(gs).ecs.wf() && in_bounds(coord.0 as int, coord.1 as int) ==> final(gs).ecs.wf(),
{
    build_npc_one_liner(gs, name, domain, coord, to_cp437(NPC_CAT_CHAR), fg, line)
}

} // verus!
