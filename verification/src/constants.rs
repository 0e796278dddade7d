use vstd::prelude::*;
use crate::components::Rgb;

verus! {

// Screen
pub const SCREEN_WIDTH: i32 = 80;
pub const SCREEN_HEIGHT: i32 = 50;

// Map
pub const MAP_WIDTH: i32 = 55;
pub const MAP_HEIGHT: i32 = 43;
pub const MAP_TILES: i32 = MAP_WIDTH * MAP_HEIGHT;

// Places and dates
pub const PLACE_HOME_NAME: &'static str = "Ev";
pub const PLACE_SCHOOL_SOUTH_NAME: &'static str = "Bogazici Guney Kampus";
pub const PLACE_SCHOOL_NORTH_NAME: &'static str = "Bogazici Kuzey Kampus";
pub const PLACE_CLASS_NAME: &'static str = "M 2152";
pub const PLACE_LIB_NAME: &'static str = "Bogazici Olmayan Kutuphane";
pub const PLACE_OTTOMAN_MAIN_NAME: &'static str = "Osmanli Meydan";
pub const PLACE_OTTOMAN_LEFT_NAME: &'static str = "Osmanli Sol";
pub const PLACE_OTTOMAN_RIGHT_NAME: &'static str = "Osmanli Sag";
pub const PLACE_OTTOMAN_TOP_NAME: &'static str = "Osmanli Yukari";
pub const CURRENT_DATE: &'static str = "2023";
pub const PAST_DATE: &'static str = "1900";

// Rooms: the corner, width and height of the one room of each place
pub const HOME_X: i32 = 20;
pub const HOME_Y: i32 = 15;
pub const HOME_WIDTH: i32 = 12;
pub const HOME_HEIGHT: i32 = 10;
pub const SCHOOL_SOUTH_X: i32 = 10;
pub const SCHOOL_SOUTH_Y: i32 = 10;
pub const SCHOOL_SOUTH_WIDTH: i32 = 35;
pub const SCHOOL_SOUTH_HEIGHT: i32 = 25;
pub const SCHOOL_NORTH_X: i32 = 10;
pub const SCHOOL_NORTH_Y: i32 = 10;
pub const SCHOOL_NORTH_WIDTH: i32 = 35;
pub const SCHOOL_NORTH_HEIGHT: i32 = 25;
pub const CLASS_X: i32 = 20;
pub const CLASS_Y: i32 = 15;
pub const CLASS_WIDTH: i32 = 14;
pub const CLASS_HEIGHT: i32 = 10;
pub const LIBRARY_X: i32 = 15;
pub const LIBRARY_Y: i32 = 15;
pub const LIBRARY_WIDTH: i32 = 20;
pub const LIBRARY_HEIGHT: i32 = 12;
pub const OTTOMAN_MAIN_X: i32 = 12;
pub const OTTOMAN_MAIN_Y: i32 = 10;
pub const OTTOMAN_MAIN_WIDTH: i32 = 30;
pub const OTTOMAN_MAIN_HEIGHT: i32 = 22;
pub const OTTOMAN_LEFT_X: i32 = 18;
pub const OTTOMAN_LEFT_Y: i32 = 14;
pub const OTTOMAN_LEFT_WIDTH: i32 = 18;
pub const OTTOMAN_LEFT_HEIGHT: i32 = 14;
pub const OTTOMAN_RIGHT_X: i32 = 18;
pub const OTTOMAN_RIGHT_Y: i32 = 14;
pub const OTTOMAN_RIGHT_WIDTH: i32 = 18;
pub const OTTOMAN_RIGHT_HEIGHT: i32 = 14;
pub const OTTOMAN_TOP_X: i32 = 18;
pub const OTTOMAN_TOP_Y: i32 = 14;
pub const OTTOMAN_TOP_WIDTH: i32 = 18;
pub const OTTOMAN_TOP_HEIGHT: i32 = 14;

// Items
pub const ITEM_BOOK_NAME: &'static str = "Kitap";
pub const ITEM_SECRET_GATE_KEY_NAME: &'static str = "Gizli Kapi Anahtari";
pub const OTTOMAN_KEY_1_NAME: &'static str = "Bati Anahtari";
pub const OTTOMAN_KEY_2_NAME: &'static str = "Kuzey Anahtari";
pub const OTTOMAN_KEY_3_NAME: &'static str = "Dogu Anahtari";
pub const OTTOMAN_KEY_MAIN_NAME: &'static str = "Zaman Anahtari";
pub const OTTOMAN_REWARD_POEM_NAME: &'static str = "Siir";
pub const OTTOMAN_REWARD_BOOK_COVER_NAME: &'static str = "Kitap Kapagi";
pub const OTTOMAN_REWARD_GLUE_NAME: &'static str = "Tutkal";
pub const OTTOMAN_COMBINED_REWARD_POEM_BOOK_NAME: &'static str = "Siir Kitabi";
pub const OTTOMAN_REWARD_MOSQUE_PART_1_NAME: &'static str = "Cami Maketi Parcasi 1";
pub const OTTOMAN_REWARD_MOSQUE_PART_2_NAME: &'static str = "Cami Maketi Parcasi 2";
pub const OTTOMAN_COMBINED_REWARD_MOSQUE_MODEL_NAME: &'static str = "Cami Maketi";
pub const OTTOMAN_REWARD_NOTE_PAPER_NAME: &'static str = "Nota Kagidi";
pub const OTTOMAN_REWARD_CANVAS_NAME: &'static str = "Tuval";
pub const OTTOMAN_REWARD_CLAY_NAME: &'static str = "Kil";
pub const OTTOMAN_COMBINED_REWARD_WEIRD_COLLAGE_NAME: &'static str = "Garip Kolaj";

// Log lines
pub const CONSOLE_ITEM_PICKED_UP: &'static str = "Esyayi aldin: ";
pub const CONSOLE_ITEM_CRAFTED: &'static str = "Yeni Esya Urettin: ";
pub const CONSOLE_ITEM_USED: &'static str = "Esya kullanildi: ";
pub const CONSOLE_WRONG_ITEM: &'static str = "Yanlis esya";
pub const CONSOLE_ITEM_NOT_EXIST: &'static str = "Gerekli esya sende yok";
pub const CONSOLE_ITEM_ACQUIRED: &'static str = "Esya alindi: ";

// Tooltips
pub const TOOLTIP_CLOSED: &'static str = " (Kapali)";
pub const TOOLTIP_OPEN: &'static str = " (Acik)";

// Glyph characters
pub const PLAYER_CHAR: char = '\u{263B}';
pub const KEY_CHAR: char = '\u{266A}';
pub const PORTAL_CHAR: char = '\u{3A9}';
pub const NPC_HUMAN_CHAR: char = '\u{263A}';
pub const NPC_DOG_CHAR: char = 'd';
pub const NPC_CAT_CHAR: char = 'c';

// Glyphs of walls, by code page 437
pub const GLYPH_HASH: u16 = 35;
pub const GLYPH_PILLAR: u16 = 9;
pub const GLYPH_VERTICAL: u16 = 186;
pub const GLYPH_HORIZONTAL: u16 = 205;
pub const GLYPH_CORNER_NW: u16 = 188;
pub const GLYPH_CORNER_SW: u16 = 187;
pub const GLYPH_TEE_W: u16 = 185;
pub const GLYPH_CORNER_NE: u16 = 200;
pub const GLYPH_CORNER_SE: u16 = 201;
pub const GLYPH_TEE_E: u16 = 204;
pub const GLYPH_TEE_S: u16 = 202;
pub const GLYPH_TEE_N: u16 = 203;
pub const GLYPH_CROSS: u16 = 206;

// Colours

/// The colour behind everything.
pub open spec fn background_color_spec() -> Rgb {
    Rgb { r: 0, g: 0, b: 0 }
}

/// The colour behind everything.
#[verifier::when_used_as_spec(background_color_spec)]
pub fn background_color() -> (c: Rgb)
    ensures
        c == background_color_spec(),
{
    Rgb { r: 0, g: 0, b: 0 }
}

/// The colour of an item on the map.
pub open spec fn item_key_color_spec() -> Rgb {
    Rgb { r: 240, g: 250, b: 30 }
}

/// The colour of an item on the map.
#[verifier::when_used_as_spec(item_key_color_spec)]
pub fn item_key_color() -> (c: Rgb)
    ensures
        c == item_key_color_spec(),
{
    Rgb { r: 240, g: 250, b: 30 }
}

/// The colour of a locked portal.
pub open spec fn item_door_color_spec() -> Rgb {
    Rgb { r: 70, g: 200, b: 200 }
}

/// The colour of a locked portal.
#[verifier::when_used_as_spec(item_door_color_spec)]
pub fn item_door_color() -> (c: Rgb)
    ensures
        c == item_door_color_spec(),
{
    Rgb { r: 70, g: 200, b: 200 }
}

/// The colour of an open portal.
pub open spec fn item_portal_color_spec() -> Rgb {
    Rgb { r: 21, g: 246, b: 111 }
}

/// The colour of an open portal.
#[verifier::when_used_as_spec(item_portal_color_spec)]
pub fn item_portal_color() -> (c: Rgb)
    ensures
        c == item_portal_color_spec(),
{
    Rgb { r: 21, g: 246, b: 111 }
}

/// The colour of the player.
pub open spec fn player_color_spec() -> Rgb {
    Rgb { r: 255, g: 50, b: 0 }
}

/// The colour of the player.
#[verifier::when_used_as_spec(player_color_spec)]
pub fn player_color() -> (c: Rgb)
    ensures
        c == player_color_spec(),
{
    Rgb { r: 255, g: 50, b: 0 }
}

/// The colour of a human NPC.
pub open spec fn npc_human_color_spec() -> Rgb {
    Rgb { r: 255, g: 111, b: 0 }
}

/// The colour of a human NPC.
#[verifier::when_used_as_spec(npc_human_color_spec)]
pub fn npc_human_color() -> (c: Rgb)
    ensures
        c == npc_human_color_spec(),
{
    Rgb { r: 255, g: 111, b: 0 }
}

} // verus!
