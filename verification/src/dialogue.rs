use vstd::prelude::*;
use vstd::string::StringExecFns;
use crate::components::{
    Interaction, InteractionView, Npc, ObjectiveView, Stored, TargetedPosition,
};
use crate::constants::{CONSOLE_ITEM_ACQUIRED, CONSOLE_ITEM_NOT_EXIST, CONSOLE_ITEM_USED};
use crate::gui::{Key, NpcInteractionResult};
use crate::items::ItemName;
use crate::npcs::NpcState;
use crate::store::{
    first_entity, lemma_first_entity, lemma_first_found, lemma_no_first_entity, lemma_views_replace,
};
use crate::world::{find_item, item_pred, stored_item_pred, World, WorldView};

verus! {

/// The line that is logged when the player hands over `item`.
pub open spec fn used_line(item: ItemName) -> Seq<char> {
    CONSOLE_ITEM_USED@ + item.display()
}

/// The line that is logged when the player receives `item`.
pub open spec fn acquired_line(item: ItemName) -> Seq<char> {
    CONSOLE_ITEM_ACQUIRED@ + item.display()
}

/// The targeted position that stands for "none".
pub open spec fn no_target() -> TargetedPosition {
    TargetedPosition { x: -1i32, y: -1i32 }
}

/// Whether `e` is an NPC of the current place that stands on the targeted tile and carries
/// all that an exchange reads.
pub open spec fn is_targeted_npc(w: WorldView, e: usize) -> bool {
    &&& w.npcs.contains_key(e)
    &&& w.interactions.contains_key(e)
    &&& w.positions.contains_key(e)
    &&& w.names.contains_key(e)
    &&& w.renderables.contains_key(e)
    &&& w.contains_items.contains_key(e)
    &&& w.requires_items.contains_key(e)
    &&& w.belongs.contains_key(e)
    &&& w.belongs[e].domain == w.current_place
    &&& w.positions[e].x == w.targeted_pos.x
    &&& w.positions[e].y == w.targeted_pos.y
}

/// [`is_targeted_npc`] as a predicate on ids.
pub open spec fn targeted_npc_pred(w: WorldView) -> spec_fn(usize) -> bool {
    |e: usize| is_targeted_npc(w, e)
}

/// The NPC that the player talks to: the first one on the targeted tile.
pub open spec fn targeted_npc(w: WorldView) -> Option<usize> {
    first_entity(targeted_npc_pred(w))
}

/// The world and the answer after one frame of an exchange.
pub ghost struct Step {
    pub world: WorldView,
    pub result: NpcInteractionResult,
}

/// The world in which the NPC `n` is in `state`.
pub open spec fn with_npc_state(w: WorldView, n: usize, state: NpcState) -> WorldView {
    WorldView { npcs: w.npcs.insert(n, Npc { state }), ..w }
}

/// The page after the one at which the script stands; the script stays at its last
/// page.
pub open spec fn next_page(it: InteractionView) -> usize {
    if it.dialogue_index + 1 < it.dialogues.len() {
        (it.dialogue_index + 1) as usize
    } else {
        it.dialogue_index
    }
}

/// The world in which the script of `n` stands at its next page, if it has one.
pub open spec fn with_next_page(w: WorldView, n: usize) -> WorldView {
    let it = w.interactions[n];
    WorldView {
        interactions: w.interactions.insert(
            n,
            InteractionView { dialogue_index: next_page(it), ..it },
        ),
        ..w
    }
}

/// `marks` without the first `mark` among them.
pub open spec fn without_first(marks: Seq<usize>, mark: usize) -> Seq<usize>
    decreases marks.len(),
{
    if marks.len() == 0 {
        marks
    } else if marks[0] == mark {
        marks.drop_first()
    } else {
        seq![marks[0]] + without_first(marks.drop_first(), mark)
    }
}

/// The first `mark` is the one at `i` where none stands before it: without it the marks
/// are those before and those after `i`.
pub proof fn lemma_without_first(marks: Seq<usize>, mark: usize, i: int)
    requires
        0 <= i < marks.len(),
        marks[i] == mark,
        forall|j: int| 0 <= j < i ==> marks[j] != mark,
    ensures
        without_first(marks, mark) == marks.remove(i),
    decreases i,
{
    if i == 0 {
        assert(marks.remove(0) =~= marks.drop_first());
    } else {
        let rest = marks.drop_first();
        assert forall|j: int| 0 <= j < i - 1 implies rest[j] != mark by {
            assert(rest[j] == marks[j + 1]);
        }
        lemma_without_first(rest, mark, i - 1);
        assert(marks.remove(i) =~= seq![marks[0]] + rest.remove(i - 1));
    }
}

/// The quest moves on by one step, and the mark of the page is taken off the script of
/// `n`, where the page at which that script stands is marked for it: the quest moves on
/// once for each mark.
pub open spec fn with_objective_checked(w: WorldView, n: usize) -> WorldView {
    let it = w.interactions[n];
    if it.change_objective_indices.contains(it.dialogue_index) {
        WorldView {
            objective: ObjectiveView { index: (w.objective.index + 1) as usize, ..w.objective },
            interactions: w.interactions.insert(
                n,
                InteractionView {
                    change_objective_indices: without_first(
                        it.change_objective_indices,
                        it.dialogue_index,
                    ),
                    ..it
                },
            ),
            ..w
        }
    } else {
        w
    }
}

/// Whether the line `index` of the page at which the script of `n` stands exists, so that
/// the page can be shown up to it.
pub open spec fn page_shown(w: WorldView, n: usize, index: usize) -> bool {
    let it = w.interactions[n];
    it.dialogue_index < it.dialogues.len() && index < it.dialogues[it.dialogue_index as int].len()
}

/// One frame with an NPC that talks. On its last page the NPC is done from now on.
/// A confirmation shows the next line; after the last line of the page it makes the NPC
/// give where the page is marked for a gift, ask where it is marked for a request, and
/// turns the page otherwise, unless the page is the last one. Then the quest is checked,
/// with or without a confirmation.
pub open spec fn after_dialogue(w: WorldView, n: usize, key: Option<Key>, index: usize) -> Step {
    let it = w.interactions[n];
    let rested = if it.dialogue_index >= it.dialogues.len() - 1 {
        with_npc_state(w, n, NpcState::Done)
    } else {
        w
    };
    if key == Some(Key::Return) {
        if index >= it.dialogues[it.dialogue_index as int].len() - 1 {
            let next = if it.give_item_indices.contains(it.dialogue_index) {
                with_npc_state(rested, n, NpcState::WillGiveItem)
            } else if it.get_item_indices.contains(it.dialogue_index) {
                with_npc_state(rested, n, NpcState::WantsItem)
            } else {
                with_next_page(rested, n)
            };
            Step {
                world: with_objective_checked(next, n),
                result: NpcInteractionResult::NextDialogue { index: 0 },
            }
        } else {
            Step {
                world: with_objective_checked(rested, n),
                result: NpcInteractionResult::NextDialogue { index: (index + 1) as usize },
            }
        }
    } else {
        Step { world: with_objective_checked(rested, n), result: NpcInteractionResult::NoResponse }
    }
}

/// The item that the player can hand to `n`: the first stored item of the identity that
/// `n` asks for next.
pub open spec fn item_for(w: WorldView, n: usize) -> Option<usize> {
    let wanted = w.requires_items[n];
    if wanted.len() > 0 {
        first_entity(stored_item_pred(w, wanted[0]))
    } else {
        None
    }
}

/// One frame with an NPC that asks for an item. Where the player holds it, it leaves the
/// inventory, the request and its mark leave the front of their lists, and the NPC talks
/// again, at the next page of its script if there is one. Where not, the lack is logged
/// once; the first time the exchange ends at once, later it ends on a confirmation; where
/// it ends, the target is given up.
pub open spec fn after_request(w: WorldView, n: usize, key: Option<Key>) -> Step {
    let it = w.interactions[n];
    let wanted = w.requires_items[n];
    match item_for(w, n) {
        Some(item) => {
            let taken = WorldView {
                requires_items: w.requires_items.insert(n, wanted.remove(0)),
                interactions: w.interactions.insert(
                    n,
                    InteractionView {
                        get_item_indices: it.get_item_indices.remove(0),
                        dialogue_index: next_page(it),
                        repeat: false,
                        ..it
                    },
                ),
                stored: w.stored.remove(item),
                log: w.log.push(used_line(wanted[0])),
                npcs: w.npcs.insert(n, Npc { state: NpcState::HasDialogue }),
                ..w
            };
            Step { world: with_objective_checked(taken, n), result: NpcInteractionResult::NoResponse }
        },
        None => {
            let log = if it.print_no_item {
                w.log.push(CONSOLE_ITEM_NOT_EXIST@)
            } else {
                w.log
            };
            if it.repeat && key != Some(Key::Return) {
                let waiting = WorldView {
                    log,
                    interactions: w.interactions.insert(
                        n,
                        InteractionView { print_no_item: false, ..it },
                    ),
                    ..w
                };
                Step {
                    world: with_objective_checked(waiting, n),
                    result: NpcInteractionResult::NoResponse,
                }
            } else {
                Step {
                    world: WorldView {
                        log,
                        targeted_pos: no_target(),
                        interactions: w.interactions.insert(
                            n,
                            InteractionView { repeat: true, print_no_item: true, ..it },
                        ),
                        ..w
                    },
                    result: NpcInteractionResult::Done,
                }
            }
        },
    }
}

/// One frame with an NPC that gives an item: the gift and its mark leave the front of
/// their lists, the first item of that identity in the world is stored, and the NPC talks
/// again, at the next page of its script if there is one.
pub open spec fn after_gift(w: WorldView, n: usize) -> Step {
    let it = w.interactions[n];
    let offered = w.contains_items[n];
    let stored = match first_entity(item_pred(w, offered[0])) {
        Some(e) => w.stored.insert(e, Stored {  }),
        None => w.stored,
    };
    let handed = WorldView {
        contains_items: w.contains_items.insert(n, offered.remove(0)),
        interactions: w.interactions.insert(
            n,
            InteractionView {
                give_item_indices: it.give_item_indices.remove(0),
                dialogue_index: next_page(it),
                ..it
            },
        ),
        stored,
        log: w.log.push(acquired_line(offered[0])),
        npcs: w.npcs.insert(n, Npc { state: NpcState::HasDialogue }),
        ..w
    };
    Step { world: with_objective_checked(handed, n), result: NpcInteractionResult::NoResponse }
}

/// One frame with an NPC that is done: a confirmation ends the exchange and changes
/// nothing; without one the quest is checked.
pub open spec fn after_farewell(w: WorldView, n: usize, key: Option<Key>) -> Step {
    if key == Some(Key::Return) {
        Step { world: w, result: NpcInteractionResult::Done }
    } else {
        Step { world: with_objective_checked(w, n), result: NpcInteractionResult::NoResponse }
    }
}

/// One frame of the exchange with the targeted NPC, by its state; nothing happens where
/// no NPC is targeted.
pub open spec fn after_exchange(w: WorldView, key: Option<Key>, index: usize) -> Step {
    match targeted_npc(w) {
        None => Step { world: w, result: NpcInteractionResult::NoResponse },
        Some(n) => match w.npcs[n].state {
            NpcState::HasDialogue => after_dialogue(w, n, key, index),
            NpcState::WantsItem => after_request(w, n, key),
            NpcState::WillGiveItem => after_gift(w, n),
            NpcState::Done => after_farewell(w, n, key),
        },
    }
}

/// Whether a frame of the exchange can be played: the page to show exists up to the line
/// `index`, an NPC that asks or gives has a request or a gift and its mark left, and the
/// quest is not at the limit of its counter.
pub open spec fn exchange_ready(w: WorldView, index: usize) -> bool {
    match targeted_npc(w) {
        None => true,
        Some(n) => {
            let it = w.interactions[n];
            &&& w.objective.index < usize::MAX
            &&& match w.npcs[n].state {
                NpcState::HasDialogue => page_shown(w, n, index),
                NpcState::WantsItem => {
                    &&& w.requires_items[n].len() > 0 || forall|e: usize|
                        !w.items.contains_key(e)
                    &&& item_for(w, n) is Some ==> it.get_item_indices.len() > 0
                    &&& item_for(w, n) is None && it.repeat ==> page_shown(w, n, index)
                },
                NpcState::WillGiveItem => {
                    w.contains_items[n].len() > 0 && it.give_item_indices.len() > 0
                },
                NpcState::Done => page_shown(w, n, index),
            }
        },
    }
}

/// The NPC whose page a frame of the exchange shows up to the line that it is played
/// from: the targeted NPC while it talks or is done, and while it waits again for an
/// item that the player still does not hold.
pub open spec fn speaker_of(w: WorldView) -> Option<usize> {
    match targeted_npc(w) {
        None => None,
        Some(n) => {
            let waits = w.npcs[n].state == NpcState::WantsItem && item_for(w, n) is None
                && w.interactions[n].repeat;
            if w.npcs[n].state == NpcState::HasDialogue || w.npcs[n].state == NpcState::Done
                || waits {
                Some(n)
            } else {
                None
            }
        },
    }
}

/// An NPC takes what it asks for from the front: where the player hands over the item
/// that is asked for next, the list of requests loses its first entry and keeps the others
/// in their order.
pub proof fn lemma_request_is_taken_from_the_front(w: WorldView, n: usize, key: Option<Key>)
    requires
        item_for(w, n) is Some,
        w.interactions.contains_key(n),
    ensures
        ({
            let before = w.requires_items[n];
            let after = after_request(w, n, key).world.requires_items[n];
            &&& after.len() == before.len() - 1
            &&& forall|i: int| 0 <= i < after.len() ==> after[i] == before[i + 1]
        }),
{
}

/// An NPC that does not get what it asks for keeps its list of requests as it is.
pub proof fn lemma_request_stays_without_item(w: WorldView, n: usize, key: Option<Key>)
    requires
        item_for(w, n) is None,
        w.requires_items.contains_key(n),
    ensures
        after_request(w, n, key).world.requires_items[n] == w.requires_items[n],
{
}

/// Plays one frame of the exchange with the NPC on the targeted tile: `key` is the key
/// that was pressed in this frame, `dialogue_index` the line up to which the page is
/// shown. Returns whether the exchange goes on, and from which line.
pub fn draw_npc_interaction(ecs: &mut World, key: Option<Key>, dialogue_index: usize) -> (r:
    NpcInteractionResult)
    requires
        exchange_ready(old(ecs)@, dialogue_index),
    ensures
        (Step { world: final(ecs)@, result: r }) == after_exchange(old(ecs)@, key, dialogue_index),
        old(ecs)@.wf() ==> final(ecs)@.wf(),
{
    match find_targeted_npc(ecs) {
        None => NpcInteractionResult::NoResponse,
        Some(n) => {
            proof {
                lemma_first_found(targeted_npc_pred(ecs@), n);
            }
            let state = match ecs.npcs.get(n) {
                Some(npc) => npc.state,
                None => NpcState::Done,
            };
            match state {
                NpcState::HasDialogue => has_dialogue(ecs, n, key, dialogue_index),
                NpcState::WantsItem => wants_item(ecs, n, key),
                NpcState::WillGiveItem => will_give_item(ecs, n),
                NpcState::Done => done(ecs, n, key),
            }
        },
    }
}

/// Whether a frame of the exchange with the targeted NPC can be played from the line
/// `index`, see [`exchange_ready`].
pub fn can_interact(ecs: &World, index: usize) -> (b: bool)
    ensures
        b == exchange_ready(ecs@, index),
{
    let n = match find_targeted_npc(ecs) {
        None => {
            return true;
        },
        Some(n) => n,
    };
    proof {
        lemma_first_found(targeted_npc_pred(ecs@), n);
    }
    let (state, it, wanted, offered) = match (
        ecs.npcs.get(n),
        ecs.interactions.get(n),
        ecs.requires_items.get(n),
        ecs.contains_items.get(n),
    ) {
        (Some(npc), Some(it), Some(wanted), Some(offered)) => (npc.state, it, wanted, offered),
        _ => {
            return false;
        },
    };
    if ecs.objective.index == usize::MAX {
        return false;
    }
    match state {
        NpcState::HasDialogue => can_show_page(ecs, n, index),
        NpcState::WantsItem => {
            if wanted.items.len() == 0 {
                if has_items(ecs) {
                    return false;
                }
                !it.repeat || can_show_page(ecs, n, index)
            } else {
                match find_item(ecs, wanted.items[0], true) {
                    Some(_) => it.get_item_indices.len() > 0,
                    None => !it.repeat || can_show_page(ecs, n, index),
                }
            }
        },
        NpcState::WillGiveItem => offered.items.len() > 0 && it.give_item_indices.len() > 0,
        NpcState::Done => can_show_page(ecs, n, index),
    }
}

/// The NPC whose page the next frame of the exchange shows.
pub fn speaker(ecs: &World) -> (n: Option<usize>)
    ensures
        n == speaker_of(ecs@),
{
    let n = match find_targeted_npc(ecs) {
        None => {
            return None;
        },
        Some(n) => n,
    };
    proof {
        lemma_first_found(targeted_npc_pred(ecs@), n);
    }
    match (ecs.npcs.get(n), ecs.interactions.get(n), ecs.requires_items.get(n)) {
        (Some(npc), Some(it), Some(wanted)) => {
            match npc.state {
                NpcState::HasDialogue | NpcState::Done => Some(n),
                NpcState::WillGiveItem => None,
                NpcState::WantsItem => {
                    let found = if wanted.items.len() > 0 {
                        find_item(ecs, wanted.items[0], true)
                    } else {
                        None
                    };
                    if found.is_none() && it.repeat {
                        Some(n)
                    } else {
                        None
                    }
                },
            }
        },
        _ => None,
    }
}

/// The NPC that the player talks to.
pub fn find_targeted_npc(ecs: &World) -> (found: Option<usize>)
    ensures
        found == targeted_npc(ecs@),
{
    let n = ecs.npcs.bound();
    let mut e: usize = 0;
    while e < n
        invariant
            forall|f: usize| f < e ==> !#[trigger] targeted_npc_pred(ecs@)(f),
            forall|f: usize| ecs.npcs@.contains_key(f) ==> f < n,
        decreases n - e,
    {
        if ecs.npcs.contains(e) && ecs.interactions.contains(e) && ecs.names.contains(e)
            && ecs.renderables.contains(e) && ecs.contains_items.contains(e)
            && ecs.requires_items.contains(e) {
            if let Some(pos) = ecs.positions.get(e) {
                if let Some(bel) = ecs.belongs.get(e) {
                    if bel.domain == ecs.current_place && pos.x == ecs.targeted_pos.x && pos.y
                        == ecs.targeted_pos.y {
                        proof {
                            assert(targeted_npc_pred(ecs@)(e));
                            lemma_first_entity(targeted_npc_pred(ecs@), e);
                        }
                        return Some(e);
                    }
                }
            }
        }
        e = e + 1;
    }
    proof {
        assert forall|f: usize| !#[trigger] targeted_npc_pred(ecs@)(f) by {
            if f >= n {
                assert(!ecs.npcs@.contains_key(f));
            }
        }
        lemma_no_first_entity(targeted_npc_pred(ecs@));
    }
    None
}

/// The place of the first `x` in `list`, if it holds one.
pub fn first_index(list: &Vec<usize>, x: usize) -> (at: Option<usize>)
    ensures
        at is Some <==> list@.contains(x),
        at is Some ==> at->0 < list@.len() && list@[at->0 as int] == x && forall|j: int|
            0 <= j < at->0 ==> list@[j] != x,
{
    let mut i: usize = 0;
    while i < list.len()
        invariant
            i <= list@.len(),
            forall|j: int| 0 <= j < i ==> list@[j] != x,
        decreases list@.len() - i,
    {
        if list[i] == x {
            return Some(i);
        }
        i = i + 1;
    }
    None
}

/// The page after the one at which `it` stands; `it` stays at its last page.
fn following_page(it: &Interaction) -> (page: usize)
    ensures
        page == next_page(it@),
{
    let pages = it.dialogues.len();
    if pages > 0 && it.dialogue_index < pages - 1 {
        it.dialogue_index + 1
    } else {
        it.dialogue_index
    }
}

/// Whether `list` holds `x`.
pub fn contains_index(list: &Vec<usize>, x: usize) -> (b: bool)
    ensures
        b == list@.contains(x),
{
    let mut i: usize = 0;
    while i < list.len()
        invariant
            i <= list@.len(),
            forall|j: int| 0 <= j < i ==> list@[j] != x,
        decreases list@.len() - i,
    {
        if list[i] == x {
            return true;
        }
        i = i + 1;
    }
    false
}

/// Plays one frame with the NPC `n`, which talks.
fn has_dialogue(ecs: &mut World, n: usize, key: Option<Key>, index: usize) -> (r:
    NpcInteractionResult)
    requires
        old(ecs)@.interactions.contains_key(n),
        page_shown(old(ecs)@, n, index),
        old(ecs)@.objective.index < usize::MAX,
    ensures
        (Step { world: final(ecs)@, result: r }) == after_dialogue(old(ecs)@, n, key, index),
        old(ecs)@.wf() ==> final(ecs)@.wf(),
{
    let it = ecs.interactions.get(n).unwrap();
    let page = it.dialogue_index;
    let last_page = page >= it.dialogues.len() - 1;
    let last_line = index >= it.dialogues[page].len() - 1;
    let gives = contains_index(&it.give_item_indices, page);
    let gets = contains_index(&it.get_item_indices, page);
    if last_page {
        set_npc_state(ecs, n, NpcState::Done);
    }
    let confirmed = match key {
        Some(Key::Return) => true,
        _ => false,
    };
    let result = if confirmed {
        if last_line {
            if gives {
                set_npc_state(ecs, n, NpcState::WillGiveItem);
            } else if gets {
                set_npc_state(ecs, n, NpcState::WantsItem);
            } else {
                turn_page(ecs, n);
            }
            NpcInteractionResult::NextDialogue { index: 0 }
        } else {
            NpcInteractionResult::NextDialogue { index: index + 1 }
        }
    } else {
        NpcInteractionResult::NoResponse
    };
    check_objective(ecs, n);
    result
}

/// Plays one frame with the NPC `n`, which asks for an item.
fn wants_item(ecs: &mut World, n: usize, key: Option<Key>) -> (r: NpcInteractionResult)
    requires
        old(ecs)@.interactions.contains_key(n),
        old(ecs)@.requires_items.contains_key(n),
        old(ecs)@.objective.index < usize::MAX,
        item_for(old(ecs)@, n) is Some ==> old(ecs)@.interactions[n].get_item_indices.len() > 0,
    ensures
        (Step { world: final(ecs)@, result: r }) == after_request(old(ecs)@, n, key),
        old(ecs)@.wf() ==> final(ecs)@.wf(),
{
    let wanted = match ecs.requires_items.get(n) {
        Some(req) => if req.items.len() > 0 {
            Some(req.items[0])
        } else {
            None
        },
        None => None,
    };
    let found = match wanted {
        Some(name) => find_item(ecs, name, true),
        None => None,
    };
    let confirmed = match key {
        Some(Key::Return) => true,
        _ => false,
    };
    match (found, wanted) {
        (Some(item), Some(name)) => {
            let ghost before_req = ecs.requires_items;
            let mut req = ecs.requires_items.remove(n).unwrap();
            let ghost taken_req = ecs.requires_items;
            req.items.remove(0);
            ecs.requires_items.insert(n, req);
            let ghost before = ecs.interactions;
            let mut it = ecs.interactions.remove(n).unwrap();
            let ghost taken = ecs.interactions;
            it.get_item_indices.remove(0);
            it.dialogue_index = following_page(&it);
            it.repeat = false;
            ecs.interactions.insert(n, it);
            ecs.stored.remove(item);
            ecs.log.push(String::from_str(CONSOLE_ITEM_USED).concat(name.to_string().as_str()));
            ecs.npcs.insert(n, Npc { state: NpcState::HasDialogue });
            proof {
                lemma_views_replace(before_req, taken_req, ecs.requires_items, n, req);
                lemma_views_replace(before, taken, ecs.interactions, n, it);
            }
            check_objective(ecs, n);
            NpcInteractionResult::NoResponse
        },
        _ => {
            let ghost before = ecs.interactions;
            let mut it = ecs.interactions.remove(n).unwrap();
            let ghost taken = ecs.interactions;
            if it.print_no_item {
                ecs.log.push(String::from_str(CONSOLE_ITEM_NOT_EXIST));
            }
            if it.repeat && !confirmed {
                it.print_no_item = false;
                ecs.interactions.insert(n, it);
                proof {
                    lemma_views_replace(before, taken, ecs.interactions, n, it);
                }
                check_objective(ecs, n);
                NpcInteractionResult::NoResponse
            } else {
                it.repeat = true;
                it.print_no_item = true;
                ecs.interactions.insert(n, it);
                ecs.targeted_pos = TargetedPosition { x: -1, y: -1 };
                proof {
                    lemma_views_replace(before, taken, ecs.interactions, n, it);
                }
                NpcInteractionResult::Done
            }
        },
    }
}

/// Plays one frame with the NPC `n`, which gives an item.
fn will_give_item(ecs: &mut World, n: usize) -> (r: NpcInteractionResult)
    requires
        old(ecs)@.interactions.contains_key(n),
        old(ecs)@.contains_items.contains_key(n),
        old(ecs)@.contains_items[n].len() > 0,
        old(ecs)@.interactions[n].give_item_indices.len() > 0,
        old(ecs)@.objective.index < usize::MAX,
    ensures
        (Step { world: final(ecs)@, result: r }) == after_gift(old(ecs)@, n),
        old(ecs)@.wf() ==> final(ecs)@.wf(),
{
    let ghost before_cont = ecs.contains_items;
    let mut cont = ecs.contains_items.remove(n).unwrap();
    let ghost taken_cont = ecs.contains_items;
    let given = cont.items.remove(0);
    ecs.contains_items.insert(n, cont);
    let ghost before = ecs.interactions;
    let mut it = ecs.interactions.remove(n).unwrap();
    let ghost taken = ecs.interactions;
    it.give_item_indices.remove(0);
    it.dialogue_index = following_page(&it);
    ecs.interactions.insert(n, it);
    proof {
        lemma_views_replace(before_cont, taken_cont, ecs.contains_items, n, cont);
        lemma_views_replace(before, taken, ecs.interactions, n, it);
        assert(item_pred(ecs@, given) == item_pred(old(ecs)@, given));
    }
    if let Some(e) = find_item(ecs, given, false) {
        ecs.stored.insert(e, Stored {  });
    }
    ecs.log.push(String::from_str(CONSOLE_ITEM_ACQUIRED).concat(given.to_string().as_str()));
    ecs.npcs.insert(n, Npc { state: NpcState::HasDialogue });
    check_objective(ecs, n);
    NpcInteractionResult::NoResponse
}

/// Plays one frame with the NPC `n`, which is done.
fn done(ecs: &mut World, n: usize, key: Option<Key>) -> (r: NpcInteractionResult)
    requires
        old(ecs)@.interactions.contains_key(n),
        old(ecs)@.objective.index < usize::MAX,
    ensures
        (Step { world: final(ecs)@, result: r }) == after_farewell(old(ecs)@, n, key),
        old(ecs)@.wf() ==> final(ecs)@.wf(),
{
    match key {
        Some(Key::Return) => NpcInteractionResult::Done,
        _ => {
            check_objective(ecs, n);
            NpcInteractionResult::NoResponse
        },
    }
}

/// Moves the quest on where the page at which the script of `n` stands is marked for it.
fn check_objective(ecs: &mut World, n: usize)
    requires
        old(ecs)@.interactions.contains_key(n),
        old(ecs)@.objective.index < usize::MAX,
    ensures
        final(ecs)@ == with_objective_checked(old(ecs)@, n),
        old(ecs)@.wf() ==> final(ecs)@.wf(),
{
    let marked = match ecs.interactions.get(n) {
        Some(it) => first_index(&it.change_objective_indices, it.dialogue_index),
        None => None,
    };
    if let Some(at) = marked {
        ecs.objective.index = ecs.objective.index + 1;
        let ghost before = ecs.interactions;
        let mut it = ecs.interactions.remove(n).unwrap();
        let ghost taken = ecs.interactions;
        proof {
            lemma_without_first(it.change_objective_indices@, it.dialogue_index, at as int);
        }
        it.change_objective_indices.remove(at);
        ecs.interactions.insert(n, it);
        proof {
            lemma_views_replace(before, taken, ecs.interactions, n, it);
            assert(ecs@ =~= with_objective_checked(old(ecs)@, n));
        }
    }
}

/// Puts the NPC `n` in `state`.
fn set_npc_state(ecs: &mut World, n: usize, state: NpcState)
    ensures
        final(ecs)@ == with_npc_state(old(ecs)@, n, state),
        old(ecs)@.wf() ==> final(ecs)@.wf(),
{
    ecs.npcs.insert(n, Npc { state });
}

/// Turns the script of `n` to its next page.
fn turn_page(ecs: &mut World, n: usize)
    requires
        old(ecs)@.interactions.contains_key(n),
    ensures
        final(ecs)@ == with_next_page(old(ecs)@, n),
        old(ecs)@.wf() ==> final(ecs)@.wf(),
{
    let ghost before = ecs.interactions;
    let mut it = ecs.interactions.remove(n).unwrap();
    let ghost taken = ecs.interactions;
    it.dialogue_index = following_page(&it);
    ecs.interactions.insert(n, it);
    proof {
        lemma_views_replace(before, taken, ecs.interactions, n, it);
        assert(ecs@ =~= with_next_page(old(ecs)@, n));
    }
}

/// Whether there is an item in the world.
fn has_items(ecs: &World) -> (b: bool)
    ensures
        b == exists|e: usize| ecs@.items.contains_key(e),
{
    let n = ecs.items.bound();
    let mut e: usize = 0;
    while e < n
        invariant
            forall|f: usize| ecs@.items.contains_key(f) ==> f < n,
            forall|f: usize| f < e ==> !ecs@.items.contains_key(f),
        decreases n - e,
    {
        if ecs.items.contains(e) {
            assert(ecs@.items.contains_key(e));
            return true;
        }
        e = e + 1;
    }
    false
}

/// Whether the page at which the script of `n` stands can be shown up to the line `index`.
fn can_show_page(ecs: &World, n: usize, index: usize) -> (b: bool)
    requires
        ecs@.interactions.contains_key(n),
    ensures
        b == page_shown(ecs@, n, index),
{
    match ecs.interactions.get(n) {
        Some(it) => it.dialogue_index < it.dialogues.len() && index
            < it.dialogues[it.dialogue_index].len(),
        None => false,
    }
}

/// An exchange moves nobody: the entities stay where they are, and so does the player.
pub proof fn lemma_exchange_keeps_the_places(w: WorldView, key: Option<Key>, index: usize)
    ensures
        ({
            let after = after_exchange(w, key, index).world;
            &&& after.players == w.players
            &&& after.belongs == w.belongs
            &&& after.positions == w.positions
            &&& after.current_place == w.current_place
            &&& after.player_pos == w.player_pos
            &&& after.map == w.map
        }),
{
}

/// An exchange keeps every script within its pages: a script that stands at one of its
/// pages stands at one of them after the frame, and its pages are what they were.
pub proof fn lemma_exchange_stays_in_the_script(
    w: WorldView,
    key: Option<Key>,
    index: usize,
    m: usize,
)
    requires
        w.interactions.contains_key(m),
        w.interactions[m].dialogue_index < w.interactions[m].dialogues.len(),
    ensures
        ({
            let after = after_exchange(w, key, index).world;
            &&& after.interactions.contains_key(m)
            &&& after.interactions[m].dialogues == w.interactions[m].dialogues
            &&& after.interactions[m].dialogue_index < after.interactions[m].dialogues.len()
        }),
{
}

/// Whether the script of the NPC `n` is in order: it stands at one of its pages, no page
/// is empty, there is a request for every mark of a request and a gift for every mark of
/// a gift, and an NPC that asks or gives has its mark left.
pub open spec fn script_in_order(w: WorldView, n: usize) -> bool {
    let it = w.interactions[n];
    &&& it.dialogue_index < it.dialogues.len()
    &&& forall|p: int| 0 <= p < it.dialogues.len() ==> (#[trigger] it.dialogues[p]).len() > 0
    &&& it.get_item_indices.len() <= w.requires_items[n].len()
    &&& it.give_item_indices.len() <= w.contains_items[n].len()
    &&& w.npcs[n].state == NpcState::WantsItem ==> it.get_item_indices.len() > 0
    &&& w.npcs[n].state == NpcState::WillGiveItem ==> it.give_item_indices.len() > 0
}

/// Whether the frame that is played from the line `index` is in order: the page has that
/// line, and an NPC that asks or gives is met at the first line.
pub open spec fn frame_in_order(w: WorldView, n: usize, index: usize) -> bool {
    &&& page_shown(w, n, index)
    &&& w.npcs[n].state == NpcState::WantsItem || w.npcs[n].state == NpcState::WillGiveItem
        ==> index == 0
}

/// The line from which the next frame is played.
pub open spec fn next_line(result: NpcInteractionResult, index: usize) -> usize {
    match result {
        NpcInteractionResult::NextDialogue { index: next } => next,
        _ => index,
    }
}

/// A frame in order of a script in order can be played.
pub proof fn lemma_frame_in_order_is_ready(w: WorldView, n: usize, index: usize)
    requires
        targeted_npc(w) == Some(n),
        script_in_order(w, n),
        frame_in_order(w, n, index),
        w.objective.index < usize::MAX,
    ensures
        exchange_ready(w, index),
{
}

/// An exchange never leaves its script: after a frame in order of a script in order, the
/// script is in order, and so is the frame that is played next. With a script in order
/// the exchange can therefore be played frame after frame, whatever the keys are.
pub proof fn lemma_exchange_stays_in_order(w: WorldView, n: usize, key: Option<Key>, index: usize)
    requires
        targeted_npc(w) == Some(n),
        script_in_order(w, n),
        frame_in_order(w, n, index),
    ensures
        ({
            let step = after_exchange(w, key, index);
            &&& script_in_order(step.world, n)
            &&& frame_in_order(step.world, n, next_line(step.result, index))
        }),
{
    lemma_first_found(targeted_npc_pred(w), n);
    let it = w.interactions[n];
    match w.npcs[n].state {
        NpcState::HasDialogue => {
            let step = after_dialogue(w, n, key, index);
            assert(step.world.interactions[n].dialogues == it.dialogues);
            assert(script_in_order(step.world, n));
        },
        NpcState::WantsItem => {
            let step = after_request(w, n, key);
            assert(step.world.interactions[n].dialogues == it.dialogues);
            if item_for(w, n) is Some {
                assert(w.requires_items[n].remove(0).len() == w.requires_items[n].len() - 1);
                assert(it.get_item_indices.remove(0).len() == it.get_item_indices.len() - 1);
            }
            assert(script_in_order(step.world, n));
        },
        NpcState::WillGiveItem => {
            let step = after_gift(w, n);
            assert(step.world.interactions[n].dialogues == it.dialogues);
            assert(w.contains_items[n].remove(0).len() == w.contains_items[n].len() - 1);
            assert(it.give_item_indices.remove(0).len() == it.give_item_indices.len() - 1);
            assert(script_in_order(step.world, n));
        },
        NpcState::Done => {
            let step = after_farewell(w, n, key);
            assert(step.world.interactions[n].dialogues == it.dialogues);
        },
    }
}

/// The quest moves on once for each mark: where the page at which the script stands is
/// marked, the quest moves on by one step and the first such mark is gone, the others
/// keeping their order; a second check of the same page finds one mark less.
pub proof fn lemma_objective_once_per_mark(w: WorldView, n: usize)
    requires
        w.interactions.contains_key(n),
        w.interactions[n].change_objective_indices.contains(w.interactions[n].dialogue_index),
        w.objective.index < usize::MAX,
    ensures
        ({
            let it = w.interactions[n];
            let after = with_objective_checked(w, n);
            &&& after.objective.index == w.objective.index + 1
            &&& after.interactions[n].change_objective_indices == without_first(
                it.change_objective_indices,
                it.dialogue_index,
            )
            &&& after.interactions[n].change_objective_indices.len()
                == it.change_objective_indices.len() - 1
        }),
{
    let it = w.interactions[n];
    lemma_without_first_len(it.change_objective_indices, it.dialogue_index);
}

/// Taking the first `mark` off leaves one mark less, where there was one.
pub proof fn lemma_without_first_len(marks: Seq<usize>, mark: usize)
    requires
        marks.contains(mark),
    ensures
        without_first(marks, mark).len() == marks.len() - 1,
    decreases marks.len(),
{
    if marks[0] != mark {
        let i = choose|i: int| 0 <= i < marks.len() && marks[i] == mark;
        assert(marks.drop_first()[i - 1] == mark);
        lemma_without_first_len(marks.drop_first(), mark);
    }
}

} // verus!
