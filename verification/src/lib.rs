//! A small narrative roguelike as a library: the player walks through the rooms of a
//! school and of a square a century earlier, picks up items, opens doors with them and
//! talks to the people there, who ask for items and hand out others, until the way back
//! is open.
//!
//! The [`world::World`] holds the entities, their components and the resources of the
//! game. [`state::State::tick`] plays one frame of it; what a frame does is stated over
//! the view of the world, [`world::WorldView`].

pub mod components;
pub mod constants;
pub mod dialogue;
pub mod gamelog;
pub mod gui;
pub mod items;
pub mod map;
pub mod npcs;
pub mod order;
pub mod player;
pub mod rect;
pub mod render;
pub mod save_load_system;
pub mod spawner;
pub mod state;
pub mod store;
pub mod systems;
pub mod world;

pub use components::{
    BelongsTo, ContainsItem, ContainsItems, DormantPosition, Impassable, Interaction, Item, Name, Npc,
    Objective, PermanentItem, Player, PlayerName, Point, Portal, Position, Renderable, RequiresItem,
    RequiresItems, RevealerInformation, Rgb, SerializationHelper, SerializeMe, Stored,
    TargetedPosition,
};
pub use map::{GameMap, Place, TileType};
pub use state::{Request, RunState, State};
pub use world::World;
