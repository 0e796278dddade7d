use vstd::prelude::*;
use vstd::string::StringExecFns;
use crate::components::lines_of;
use crate::constants::{TOOLTIP_CLOSED, TOOLTIP_OPEN};
use crate::gamelog::{lemma_lines_below_bound, lemma_lines_below_none, lines_below, lines_of_all};
use crate::items::ItemName;
use crate::state::{RunState, State};
use crate::world::{World, WorldView};

pub use crate::dialogue::draw_npc_interaction;

verus! {

/// A key press, as far as the game tells keys apart. `Letter` counts from 0 for `A`.
#[derive(PartialEq, Eq, Structural, Copy, Clone, Debug)]
pub enum Key {
    Up,
    Down,
    Left,
    Right,
    Escape,
    Return,
    Delete,
    Letter(u8),
    Other,
}

/// What a key did in the inventory.
#[derive(PartialEq, Eq, Structural, Copy, Clone, Debug)]
pub enum ItemMenuResult {
    Cancel,
    NoResponse,
    Selected,
}

/// The entries of the main menu.
#[derive(PartialEq, Eq, Structural, Copy, Clone, Debug)]
pub enum MainMenuSelection {
    NewGame,
    LoadGame,
    QuitGame,
    Credits,
}

/// What a key did in the main menu: the entry that is selected now, or the one that was
/// taken.
#[derive(PartialEq, Eq, Structural, Copy, Clone, Debug)]
pub enum MainMenuResult {
    NoSelection { selected: MainMenuSelection },
    Selected { selected: MainMenuSelection },
}

/// What a frame of an exchange led to: nothing new, the end of the exchange, or the line
/// up to which the page is shown next.
#[derive(PartialEq, Eq, Structural, Copy, Clone, Debug)]
pub enum NpcInteractionResult {
    NoResponse,
    Done,
    NextDialogue { index: usize },
}

/// The selection above `selected` in the menu; the entry to load is there only with a save.
pub open spec fn menu_above(selected: MainMenuSelection, save_exists: bool) -> MainMenuSelection {
    match selected {
        MainMenuSelection::NewGame => MainMenuSelection::Credits,
        MainMenuSelection::LoadGame => MainMenuSelection::NewGame,
        MainMenuSelection::QuitGame => if save_exists {
            MainMenuSelection::LoadGame
        } else {
            MainMenuSelection::NewGame
        },
        MainMenuSelection::Credits => MainMenuSelection::QuitGame,
    }
}

/// The selection below `selected` in the menu; the entry to load is there only with a save.
pub open spec fn menu_below(selected: MainMenuSelection, save_exists: bool) -> MainMenuSelection {
    match selected {
        MainMenuSelection::NewGame => if save_exists {
            MainMenuSelection::LoadGame
        } else {
            MainMenuSelection::QuitGame
        },
        MainMenuSelection::LoadGame => MainMenuSelection::QuitGame,
        MainMenuSelection::QuitGame => MainMenuSelection::Credits,
        MainMenuSelection::Credits => MainMenuSelection::NewGame,
    }
}

/// What a key does in the main menu: the arrows move the selection round, return takes it.
/// Outside the menu the answer is that a new game is selected.
pub open spec fn menu_result(mode: RunState, key: Option<Key>, save_exists: bool) -> MainMenuResult {
    match mode {
        RunState::Menu { menu_selection: selected } => match key {
            Some(Key::Up) => MainMenuResult::NoSelection {
                selected: menu_above(selected, save_exists),
            },
            Some(Key::Down) => MainMenuResult::NoSelection {
                selected: menu_below(selected, save_exists),
            },
            Some(Key::Return) => MainMenuResult::Selected { selected },
            _ => MainMenuResult::NoSelection { selected },
        },
        _ => MainMenuResult::NoSelection { selected: MainMenuSelection::NewGame },
    }
}

/// Acts on the key that was pressed in the main menu. `save_exists` says whether there is
/// a saved game to load.
pub fn draw_main_menu(gs: &State, key: Option<Key>, save_exists: bool) -> (result: MainMenuResult)
    ensures
        result == menu_result(gs.ecs.run_state, key, save_exists),
{
    if let RunState::Menu { menu_selection: selected } = gs.ecs.run_state {
        return match key {
            None => MainMenuResult::NoSelection { selected },
            Some(key) => match key {
                Key::Up => {
                    let new_selection = match selected {
                        MainMenuSelection::NewGame => MainMenuSelection::Credits,
                        MainMenuSelection::LoadGame => MainMenuSelection::NewGame,
                        MainMenuSelection::QuitGame => if save_exists {
                            MainMenuSelection::LoadGame
                        } else {
                            MainMenuSelection::NewGame
                        },
                        MainMenuSelection::Credits => MainMenuSelection::QuitGame,
                    };
                    MainMenuResult::NoSelection { selected: new_selection }
                },
                Key::Down => {
                    let new_selection = match selected {
                        MainMenuSelection::NewGame => if save_exists {
                            MainMenuSelection::LoadGame
                        } else {
                            MainMenuSelection::QuitGame
                        },
                        MainMenuSelection::LoadGame => MainMenuSelection::QuitGame,
                        MainMenuSelection::QuitGame => MainMenuSelection::Credits,
                        MainMenuSelection::Credits => MainMenuSelection::NewGame,
                    };
                    MainMenuResult::NoSelection { selected: new_selection }
                },
                Key::Return => MainMenuResult::Selected { selected },
                _ => MainMenuResult::NoSelection { selected },
            },
        };
    }
    MainMenuResult::NoSelection { selected: MainMenuSelection::NewGame }
}

/// Whether `e` is an item that the player holds.
pub open spec fn is_held(w: WorldView, e: usize) -> bool {
    w.stored.contains_key(e) && w.items.contains_key(e)
}

/// The identities of the items below `n` that the player holds, by ascending id.
pub open spec fn inventory_below(w: WorldView, n: nat) -> Seq<ItemName>
    decreases n,
{
    if n == 0 {
        Seq::empty()
    } else {
        let rest = inventory_below(w, (n - 1) as nat);
        if n - 1 <= usize::MAX && is_held(w, (n - 1) as usize) {
            rest.push(w.items[(n - 1) as usize].name)
        } else {
            rest
        }
    }
}

/// The identities of the items that the player holds, in the order of the inventory.
pub open spec fn inventory_of(w: WorldView) -> Seq<ItemName> {
    inventory_below(w, (usize::MAX + 1) as nat)
}

/// Ids that carry no item add nothing to the inventory.
pub proof fn lemma_inventory_bound(w: WorldView, n: nat, m: nat)
    requires
        n <= m,
        forall|e: usize| e >= n ==> !#[trigger] w.items.contains_key(e),
    ensures
        inventory_below(w, m) == inventory_below(w, n),
    decreases m,
{
    if m > n {
        lemma_inventory_bound(w, n, (m - 1) as nat);
    }
}

/// The identities of the items that the player holds, in the order of the inventory.
pub fn inventory(ecs: &World) -> (held: Vec<ItemName>)
    ensures
        held@ == inventory_of(ecs@),
{
    let mut held: Vec<ItemName> = Vec::new();
    let n = ecs.items.bound();
    let mut e: usize = 0;
    while e < n
        invariant
            e <= n,
            forall|f: usize| ecs@.items.contains_key(f) ==> f < n,
            held@ == inventory_below(ecs@, e as nat),
        decreases n - e,
    {
        if ecs.stored.contains(e) {
            if let Some(item) = ecs.items.get(e) {
                held.push(item.name);
            }
        }
        e = e + 1;
    }
    proof {
        lemma_inventory_bound(ecs@, n as nat, (usize::MAX + 1) as nat);
    }
    held
}

/// The number of the letter key `key`, counted from 0 for `A`; -1 for any other key.
pub open spec fn letter_option(key: Key) -> int {
    match key {
        Key::Letter(i) => if i < 26 {
            i as int
        } else {
            -1
        },
        _ => -1,
    }
}

/// What a key does in the inventory: the letter of an item selects it, any other key
/// leaves the inventory, and no key leaves things as they are.
pub open spec fn item_choice(held: Seq<ItemName>, key: Option<Key>) -> (
    ItemMenuResult,
    Option<ItemName>,
) {
    match key {
        None => (ItemMenuResult::NoResponse, None),
        Some(key) => if 0 <= letter_option(key) < held.len() {
            (ItemMenuResult::Selected, Some(held[letter_option(key)]))
        } else {
            (ItemMenuResult::Cancel, None)
        },
    }
}

/// Acts on the key that was pressed in the inventory.
pub fn draw_use_item(gs: &State, key: Option<Key>) -> (choice: (ItemMenuResult, Option<ItemName>))
    ensures
        choice == item_choice(inventory_of(gs.ecs@), key),
{
    let usable = inventory(&gs.ecs);
    match key {
        None => (ItemMenuResult::NoResponse, None),
        Some(Key::Letter(i)) => {
            if i < 26 && (i as usize) < usable.len() {
                (ItemMenuResult::Selected, Some(usable[i as usize]))
            } else {
                (ItemMenuResult::Cancel, None)
            }
        },
        Some(_) => (ItemMenuResult::Cancel, None),
    }
}

/// The upper-case letter of a letter key.
pub open spec fn key_char(key: Option<Key>) -> Option<char> {
    match key {
        Some(Key::Letter(i)) => if i < 26 {
            Some((65 + i) as char)
        } else {
            None
        },
        _ => None,
    }
}

/// The upper-case letter of a letter key.
pub fn keycode_to_char(key: Option<Key>) -> (c: Option<char>)
    ensures
        c == key_char(key),
{
    match key {
        Some(Key::Letter(i)) => {
            if i < 26 {
                Some((65 + i) as char)
            } else {
                None
            }
        },
        _ => None,
    }
}

/// What a key does to the name that the player types: a letter is added, delete takes
/// the last character away.
pub open spec fn typed_name(name: Seq<char>, key: Option<Key>) -> Seq<char> {
    match key {
        Some(Key::Letter(i)) => if i < 26 {
            name.push((65 + i) as char)
        } else {
            name
        },
        Some(Key::Delete) => if name.len() > 0 {
            name.drop_last()
        } else {
            name
        },
        _ => name,
    }
}

/// `String::push` of std: `c` is added at the end of `s`.
#[verifier::external_body]
fn push_char(s: &mut String, c: char)
    ensures
        final(s)@ == old(s)@.push(c),
{
    s.push(c);
}

/// `String::pop` of std: the last character of `s` is taken away, if there is one.
#[verifier::external_body]
fn pop_char(s: &mut String)
    ensures
        final(s)@ == (if old(s)@.len() > 0 {
            old(s)@.drop_last()
        } else {
            old(s)@
        }),
{
    s.pop();
}

/// Acts on the key that was pressed while the player types their name, and returns
/// whether the name is complete: return completes it.
pub fn draw_enter_name(ecs: &mut World, key: Option<Key>) -> (complete: bool)
    ensures
        complete == (key == Some(Key::Return)),
        final(ecs)@ == (WorldView {
            player_name: typed_name(old(ecs)@.player_name, key),
            ..old(ecs)@
        }),
{
    match key {
        Some(Key::Letter(_)) => {
            if let Some(c) = keycode_to_char(key) {
                push_char(&mut ecs.player_name.name, c);
            }
        },
        Some(Key::Return) => {
            return true;
        },
        Some(Key::Delete) => {
            pop_char(&mut ecs.player_name.name);
        },
        _ => {},
    }
    false
}

/// Whether `e` is a named entity of the current place on the tile `(x, y)`.
pub open spec fn is_named_at(w: WorldView, x: int, y: int, e: usize) -> bool {
    &&& w.names.contains_key(e)
    &&& w.positions.contains_key(e)
    &&& w.belongs.contains_key(e)
    &&& w.belongs[e].domain == w.current_place
    &&& w.positions[e].x == x
    &&& w.positions[e].y == y
}

/// [`is_named_at`] as a predicate on ids; nothing is named outside the map.
pub open spec fn named_at_pred(w: WorldView, x: int, y: int) -> spec_fn(usize) -> bool {
    |e: usize| x < w.map.width && y < w.map.height && is_named_at(w, x, y, e)
}

/// The tooltip of the entity `e`: its name, and for a portal whether it is locked or open.
pub open spec fn tooltip_of(w: WorldView) -> spec_fn(usize) -> Seq<char> {
    |e: usize|
        if w.portals.contains_key(e) {
            if w.requires_item.contains_key(e) {
                w.names[e] + TOOLTIP_CLOSED@
            } else {
                w.names[e] + TOOLTIP_OPEN@
            }
        } else {
            w.names[e]
        }
}

/// The tooltips of the entities of the current place on the tile `(x, y)`, by ascending id.
pub fn tooltips(ecs: &World, x: i32, y: i32) -> (lines: Vec<String>)
    ensures
        lines_of(lines@) == lines_of_all(
            named_at_pred(ecs@, x as int, y as int),
            tooltip_of(ecs@),
        ),
{
    let ghost p = named_at_pred(ecs@, x as int, y as int);
    let ghost line = tooltip_of(ecs@);
    let mut lines: Vec<String> = Vec::new();
    if x >= ecs.map.width || y >= ecs.map.height {
        proof {
            lemma_lines_below_none(p, line, (usize::MAX + 1) as nat);
            assert(lines_of(lines@) =~= Seq::<Seq<char>>::empty());
        }
        return lines;
    }
    let n = ecs.names.bound();
    let mut e: usize = 0;
    while e < n
        invariant
            e <= n,
            x < ecs.map.width && y < ecs.map.height,
            p == named_at_pred(ecs@, x as int, y as int),
            line == tooltip_of(ecs@),
            forall|f: usize| ecs@.names.contains_key(f) ==> f < n,
            lines_of(lines@) =~= lines_below(p, line, e as nat),
        decreases n - e,
    {
        let here = match (ecs.positions.get(e), ecs.belongs.get(e)) {
            (Some(pos), Some(bel)) => bel.domain == ecs.current_place && pos.x == x && pos.y == y,
            _ => false,
        };
        if here {
            if let Some(name) = ecs.names.get(e) {
                let mut tip = name.name.clone();
                if ecs.portals.contains(e) {
                    if ecs.requires_item.contains(e) {
                        tip.append(TOOLTIP_CLOSED);
                    } else {
                        tip.append(TOOLTIP_OPEN);
                    }
                }
                let ghost before = lines@;
                lines.push(tip);
                proof {
                    assert(lines_of(lines@) =~= lines_of(before).push(tip@));
                }
            }
        }
        e = e + 1;
    }
    proof {
        assert forall|f: usize| f >= n implies !#[trigger] p(f) by {
            assert(!ecs@.names.contains_key(f));
        }
        lemma_lines_below_bound(p, line, n as nat, (usize::MAX + 1) as nat);
    }
    lines
}

/// Where the words of a paragraph stand once the first `n` of them are placed: the line
/// of the last one, counted from 0, and the length of that line so far. A word goes on
/// the line that is being filled while it fits in `width` together with what the line
/// holds, a blank before it not counted; else it begins the next line.
pub open spec fn placed(lens: Seq<usize>, width: int, n: nat) -> (int, int)
    decreases n,
{
    if n == 0 {
        (0, 0)
    } else {
        let (line, len) = placed(lens, width, (n - 1) as nat);
        let word = lens[n - 1] as int;
        if len + word <= width {
            (line, if len > 0 {
                len + 1 + word
            } else {
                word
            })
        } else {
            (line + 1, word)
        }
    }
}

/// Words begin at most one new line each, and a line holds one word alone or no more
/// than `width` and one blank.
pub proof fn lemma_placed_bounds(lens: Seq<usize>, width: int, n: nat)
    requires
        n <= lens.len(),
        0 <= width,
    ensures
        0 <= placed(lens, width, n).0 <= n,
        0 <= placed(lens, width, n).1,
        placed(lens, width, n).1 <= width + 1 || (n > 0 && placed(lens, width, n).1 == lens[n - 1]),
    decreases n,
{
    if n > 0 {
        lemma_placed_bounds(lens, width, (n - 1) as nat);
    }
}

/// Breaks a paragraph into lines: given the lengths of its words, returns for each word
/// the line that it stands on, counted from 0.
pub fn paragraph_lines(lens: &Vec<usize>, width: usize) -> (lines: Vec<usize>)
    requires
        width < usize::MAX,
    ensures
        lines@.len() == lens@.len(),
        forall|i: int|
            0 <= i < lens@.len() ==> lines@[i] == placed(lens@, width as int, (i + 1) as nat).0,
{
    let mut lines: Vec<usize> = Vec::new();
    let mut line: usize = 0;
    let mut len: usize = 0;
    let mut i: usize = 0;
    while i < lens.len()
        invariant
            i <= lens@.len(),
            width < usize::MAX,
            lines@.len() == i,
            (line as int, len as int) == placed(lens@, width as int, i as nat),
            forall|k: int| 0 <= k < i ==> lines@[k] == placed(lens@, width as int, (k + 1) as nat).0,
        decreases lens@.len() - i,
    {
        let word = lens[i];
        proof {
            lemma_placed_bounds(lens@, width as int, i as nat);
            lemma_placed_bounds(lens@, width as int, (i + 1) as nat);
        }
        if word <= width && len <= width - word {
            if len > 0 {
                len = len + 1;
            }
            len = len + word;
        } else {
            line = line + 1;
            len = word;
        }
        lines.push(line);
        i = i + 1;
    }
    lines
}

/// The inventory depends on the items and on what is stored alone.
pub proof fn lemma_inventory_of_same_items(a: WorldView, b: WorldView, n: nat)
    requires
        a.items == b.items,
        a.stored == b.stored,
    ensures
        inventory_below(a, n) == inventory_below(b, n),
    decreases n,
{
    if n > 0 {
        lemma_inventory_of_same_items(a, b, (n - 1) as nat);
    }
}

} // verus!
