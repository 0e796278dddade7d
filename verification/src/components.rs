use vstd::prelude::*;
use crate::items::ItemName;
use crate::map::{GameMap, GameMapView, Place, TileType};
use crate::npcs::NpcState;

verus! {

/// A colour by its red, green and blue parts.
#[derive(PartialEq, Eq, Structural, Copy, Clone, Debug)]
pub struct Rgb {
    pub r: u8,
    pub g: u8,
    pub b: u8,
}

/// A tile coordinate held as a resource, such as the tracked position of the player.
#[derive(PartialEq, Eq, Structural, Copy, Clone, Debug)]
pub struct Point {
    pub x: i32,
    pub y: i32,
}

/// The tile of an entity that is on the map of its place.
#[derive(PartialEq, Eq, Structural, Copy, Clone, Debug)]
pub struct Position {
    pub x: i32,
    pub y: i32,
}

/// The tile that the player faces in an exchange; negative while there is none.
#[derive(PartialEq, Eq, Structural, Copy, Clone, Debug)]
pub struct TargetedPosition {
    pub x: i32,
    pub y: i32,
}

/// How an entity is painted.
#[derive(PartialEq, Eq, Structural, Copy, Clone, Debug)]
pub struct Renderable {
    pub glyph: u16,
    pub fg: Rgb,
    pub bg: Rgb,
    pub render_order: i32,
}

/// Marks the entity that the player steers.
#[derive(PartialEq, Eq, Structural, Copy, Clone, Debug)]
pub struct Player {}

/// The label of an entity.
#[derive(Clone, Debug)]
pub struct Name {
    pub name: String,
}

/// The name that the player typed.
#[derive(Clone, Debug)]
pub struct PlayerName {
    pub name: String,
}

/// Makes an entity an item of the given identity.
#[derive(PartialEq, Eq, Structural, Copy, Clone, Debug)]
pub struct Item {
    pub name: ItemName,
}

/// Marks an item that the player holds.
#[derive(PartialEq, Eq, Structural, Copy, Clone, Debug)]
pub struct Stored {}

/// Marks an entity that cannot be walked through.
#[derive(PartialEq, Eq, Structural, Copy, Clone, Debug)]
pub struct Impassable {}

/// The item that opens a barrier.
#[derive(PartialEq, Eq, Structural, Copy, Clone, Debug)]
pub struct RequiresItem {
    pub key: ItemName,
}

/// The item that an entity holds for the player.
#[derive(PartialEq, Eq, Structural, Copy, Clone, Debug)]
pub struct ContainsItem {
    pub item: ItemName,
}

/// The items that an NPC asks for, the next one first.
#[derive(Clone, Debug)]
pub struct RequiresItems {
    pub items: Vec<ItemName>,
}

/// The items that an NPC hands out, the next one first.
#[derive(Clone, Debug)]
pub struct ContainsItems {
    pub items: Vec<ItemName>,
}

/// Marks an item that is not consumed when it opens a barrier.
#[derive(PartialEq, Eq, Structural, Copy, Clone, Debug)]
pub struct PermanentItem {}

/// Marks an entity that is written to a snapshot. Its id is the number under which it is
/// written, and the id that it has again when the snapshot is loaded.
#[derive(PartialEq, Eq, Structural, Copy, Clone, Debug)]
pub struct SerializeMe {}

/// Carries the map through a snapshot.
pub struct SerializationHelper {
    pub map: GameMap,
}

/// A passage to `warp_place` in the place `target`.
#[derive(PartialEq, Eq, Copy, Clone, Debug)]
pub struct Portal {
    pub target: Place,
    pub warp_place: (i32, i32),
}

/// The place in which an entity exists.
#[derive(PartialEq, Eq, Structural, Copy, Clone, Debug)]
pub struct BelongsTo {
    pub domain: Place,
}

/// Makes an entity an NPC in the given state.
#[derive(PartialEq, Eq, Structural, Copy, Clone, Debug)]
pub struct Npc {
    pub state: NpcState,
}

/// The steps of the quest and the one that is current.
#[derive(Clone, Debug)]
pub struct Objective {
    pub objectives: Vec<String>,
    pub index: usize,
}

/// The script of an NPC and the cursors into it.
#[derive(Clone, Debug)]
pub struct Interaction {
    pub dialogues: Vec<Vec<String>>,
    pub dialogue_index: usize,
    pub get_item_indices: Vec<usize>,
    pub give_item_indices: Vec<usize>,
    pub change_objective_indices: Vec<usize>,
    pub repeat: bool,
    pub print_no_item: bool,
}

/// The tile of an entity that is not on the map until it is revealed.
#[derive(PartialEq, Eq, Structural, Copy, Clone, Debug)]
pub struct DormantPosition {
    pub x: i32,
    pub y: i32,
}

/// The zone and the item that reveal a dormant entity, and the tile that hides it again.
#[derive(PartialEq, Eq, Copy, Clone, Debug)]
pub struct RevealerInformation {
    pub x_end_points: (i32, i32),
    pub y_end_points: (i32, i32),
    pub revealer_item: ItemName,
    pub before_reveal: TileType,
}

impl View for Name {
    type V = Seq<char>;

    open spec fn view(&self) -> Seq<char> {
        self.name@
    }
}

impl View for PlayerName {
    type V = Seq<char>;

    open spec fn view(&self) -> Seq<char> {
        self.name@
    }
}

impl View for RequiresItems {
    type V = Seq<ItemName>;

    open spec fn view(&self) -> Seq<ItemName> {
        self.items@
    }
}

impl View for ContainsItems {
    type V = Seq<ItemName>;

    open spec fn view(&self) -> Seq<ItemName> {
        self.items@
    }
}

impl View for SerializationHelper {
    type V = GameMapView;

    open spec fn view(&self) -> GameMapView {
        self.map@
    }
}

/// The lines of a list of strings.
pub open spec fn lines_of(lines: Seq<String>) -> Seq<Seq<char>> {
    Seq::new(lines.len(), |i: int| lines[i]@)
}

/// The pages of a script, each with its lines.
pub open spec fn pages_of(pages: Seq<Vec<String>>) -> Seq<Seq<Seq<char>>> {
    Seq::new(pages.len(), |i: int| lines_of(pages[i]@))
}

/// The quest as plain values.
pub ghost struct ObjectiveView {
    pub objectives: Seq<Seq<char>>,
    pub index: usize,
}

impl View for Objective {
    type V = ObjectiveView;

    open spec fn view(&self) -> ObjectiveView {
        ObjectiveView { objectives: lines_of(self.objectives@), index: self.index }
    }
}

/// A script and its cursors as plain values.
pub ghost struct InteractionView {
    pub dialogues: Seq<Seq<Seq<char>>>,
    pub dialogue_index: usize,
    pub get_item_indices: Seq<usize>,
    pub give_item_indices: Seq<usize>,
    pub change_objective_indices: Seq<usize>,
    pub repeat: bool,
    pub print_no_item: bool,
}

impl View for Interaction {
    type V = InteractionView;

    open spec fn view(&self) -> InteractionView {
        InteractionView {
            dialogues: pages_of(self.dialogues@),
            dialogue_index: self.dialogue_index,
            get_item_indices: self.get_item_indices@,
            give_item_indices: self.give_item_indices@,
            change_objective_indices: self.change_objective_indices@,
            repeat: self.repeat,
            print_no_item: self.print_no_item,
        }
    }
}

} // verus!
