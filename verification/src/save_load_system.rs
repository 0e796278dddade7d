use vstd::prelude::*;
use crate::components::{
    lines_of, pages_of, BelongsTo, ContainsItem, ContainsItems, DormantPosition, Impassable,
    Interaction, InteractionView, Item, Name, Npc, PermanentItem, Player, Point, Portal, Position,
    Renderable, RequiresItem, RequiresItems, RevealerInformation, SerializationHelper, SerializeMe,
    Stored,
};
use crate::items::ItemName;
use crate::map::{in_bounds, GameMap, GameMapView, Place};
use crate::store::{
    last_entity, lemma_last_entity, lemma_last_found, lemma_no_last_entity, lemma_views_insert,
    Storage,
};
use crate::world::{World, WorldView};

verus! {

/// The pairs of id and component of the entities below `n` that are in `marked` and
/// carry a component in `components`, by ascending id.
pub open spec fn saved_below<V>(components: Map<usize, V>, marked: Set<usize>, n: nat) -> Seq<
    (usize, V),
>
    decreases n,
{
    if n == 0 {
        Seq::empty()
    } else {
        let rest = saved_below(components, marked, (n - 1) as nat);
        let e = (n - 1) as usize;
        if n - 1 <= usize::MAX && marked.contains(e) && components.contains_key(e) {
            rest.push((e, components[e]))
        } else {
            rest
        }
    }
}

/// The list that a snapshot holds of one component type: a pair of id and component for
/// every entity in `marked` that carries one, by ascending id.
pub open spec fn saved<V>(components: Map<usize, V>, marked: Set<usize>) -> Seq<(usize, V)> {
    saved_below(components, marked, (usize::MAX + 1) as nat)
}

/// What a storage holds after the pairs of a list were put into it, one after the other.
pub open spec fn restored<V>(pairs: Seq<(usize, V)>) -> Map<usize, V>
    decreases pairs.len(),
{
    if pairs.len() == 0 {
        Map::empty()
    } else {
        restored(pairs.drop_last()).insert(pairs.last().0, pairs.last().1)
    }
}

/// The pairs of a list with each component replaced by its view.
pub open spec fn pair_views<T: View>(pairs: Seq<(usize, T)>) -> Seq<(usize, T::V)> {
    Seq::new(pairs.len(), |i: int| (pairs[i].0, pairs[i].1@))
}

/// Whether every id of a list is below `bound`.
pub open spec fn ids_below<V>(pairs: Seq<(usize, V)>, bound: int) -> bool {
    forall|i: int| 0 <= i < pairs.len() ==> (#[trigger] pairs[i]).0 < bound
}

/// Ids that carry no component add nothing to a list.
pub proof fn lemma_saved_bound<V>(components: Map<usize, V>, marked: Set<usize>, n: nat, m: nat)
    requires
        n <= m,
        forall|e: usize| e >= n ==> !#[trigger] components.contains_key(e),
    ensures
        saved_below(components, marked, m) == saved_below(components, marked, n),
    decreases m,
{
    if m > n {
        lemma_saved_bound(components, marked, n, (m - 1) as nat);
    }
}

/// No marked entity below `n` that carries a component: nothing is saved of them.
pub proof fn lemma_saved_below_none<V>(components: Map<usize, V>, marked: Set<usize>, n: nat)
    requires
        forall|e: usize| e < n ==> !#[trigger] components.contains_key(e),
    ensures
        saved_below(components, marked, n) == Seq::<(usize, V)>::empty(),
    decreases n,
{
    if n > 0 {
        lemma_saved_below_none(components, marked, (n - 1) as nat);
    }
}

/// Of a storage with one component, carried by a marked entity, one pair is saved.
pub proof fn lemma_saved_single<V>(marked: Set<usize>, e: usize, v: V)
    requires
        marked.contains(e),
    ensures
        saved(Map::<usize, V>::empty().insert(e, v), marked) == seq![(e, v)],
{
    let components = Map::<usize, V>::empty().insert(e, v);
    lemma_saved_bound(components, marked, (e + 1) as nat, (usize::MAX + 1) as nat);
    lemma_saved_below_none(components, marked, e as nat);
    assert(saved_below(components, marked, (e + 1) as nat) =~= seq![(e, v)]);
}

/// Putting back what was saved gives the components of the marked entities.
pub proof fn lemma_restored_saved_below<V>(components: Map<usize, V>, marked: Set<usize>, n: nat)
    ensures
        restored(saved_below(components, marked, n)) == Map::new(
            |e: usize| e < n && marked.contains(e) && components.contains_key(e),
            |e: usize| components[e],
        ),
        ids_below(saved_below(components, marked, n), n as int),
    decreases n,
{
    let target = Map::new(
        |e: usize| e < n && marked.contains(e) && components.contains_key(e),
        |e: usize| components[e],
    );
    if n == 0 {
        assert(restored(saved_below(components, marked, n)) =~= target);
    } else {
        lemma_restored_saved_below(components, marked, (n - 1) as nat);
        let rest = saved_below(components, marked, (n - 1) as nat);
        let e = (n - 1) as usize;
        if n - 1 <= usize::MAX && marked.contains(e) && components.contains_key(e) {
            let all = rest.push((e, components[e]));
            assert(all.drop_last() =~= rest);
            assert(restored(all) =~= target);
        } else {
            assert(restored(rest) =~= target);
        }
    }
}

/// The views of what a storage holds after a list was put into it are what it holds
/// after the views of the list were.
pub proof fn lemma_restored_views<T: View>(pairs: Seq<(usize, T)>)
    ensures
        restored(pair_views(pairs)) == Map::new(
            |e: usize| restored(pairs).contains_key(e),
            |e: usize| restored(pairs)[e]@,
        ),
    decreases pairs.len(),
{
    let target = Map::new(
        |e: usize| restored(pairs).contains_key(e),
        |e: usize| restored(pairs)[e]@,
    );
    if pairs.len() == 0 {
        assert(restored(pair_views(pairs)) =~= target);
    } else {
        lemma_restored_views(pairs.drop_last());
        assert(pair_views(pairs).drop_last() =~= pair_views(pairs.drop_last()));
        assert(restored(pair_views(pairs)) =~= target);
    }
}

/// The views of a list have the ids of the list.
pub proof fn lemma_ids_of_views<T: View>(pairs: Seq<(usize, T)>, bound: int)
    ensures
        ids_below(pair_views(pairs), bound) == ids_below(pairs, bound),
{
    if ids_below(pair_views(pairs), bound) {
        assert forall|i: int| 0 <= i < pairs.len() implies (#[trigger] pairs[i]).0 < bound by {
            assert(pair_views(pairs)[i].0 == pairs[i].0);
        }
    }
}

/// A component that can be copied into a snapshot.
pub trait Duplicate: View + Sized {
    /// A copy with the same view.
    fn duplicate(&self) -> (copy: Self)
        ensures
            copy@ == self@,
    ;
}

impl Duplicate for Name {
    fn duplicate(&self) -> (copy: Self) {
        Name { name: self.name.clone() }
    }
}

impl Duplicate for RequiresItems {
    fn duplicate(&self) -> (copy: Self) {
        RequiresItems { items: self.items.clone() }
    }
}

impl Duplicate for ContainsItems {
    fn duplicate(&self) -> (copy: Self) {
        ContainsItems { items: self.items.clone() }
    }
}

/// A copy of the pages of a script.
fn duplicate_pages(pages: &Vec<Vec<String>>) -> (copy: Vec<Vec<String>>)
    ensures
        pages_of(copy@) == pages_of(pages@),
{
    let mut copy: Vec<Vec<String>> = Vec::new();
    let mut i: usize = 0;
    while i < pages.len()
        invariant
            i <= pages@.len(),
            copy@.len() == i,
            forall|k: int| 0 <= k < i ==> lines_of(#[trigger] copy@[k]@) == lines_of(pages@[k]@),
        decreases pages@.len() - i,
    {
        let mut lines: Vec<String> = Vec::new();
        let mut j: usize = 0;
        while j < pages[i].len()
            invariant
                i < pages@.len(),
                j <= pages@[i as int]@.len(),
                lines@.len() == j,
                forall|k: int| 0 <= k < j ==> (#[trigger] lines@[k])@ == pages@[i as int]@[k]@,
            decreases pages@[i as int]@.len() - j,
        {
            lines.push(pages[i][j].clone());
            j = j + 1;
        }
        proof {
            assert(lines_of(lines@) =~= lines_of(pages@[i as int]@));
        }
        copy.push(lines);
        i = i + 1;
    }
    proof {
        assert(pages_of(copy@) =~= pages_of(pages@));
    }
    copy
}

impl Duplicate for Interaction {
    fn duplicate(&self) -> (copy: Self) {
        Interaction {
            dialogues: duplicate_pages(&self.dialogues),
            dialogue_index: self.dialogue_index,
            get_item_indices: self.get_item_indices.clone(),
            give_item_indices: self.give_item_indices.clone(),
            change_objective_indices: self.change_objective_indices.clone(),
            repeat: self.repeat,
            print_no_item: self.print_no_item,
        }
    }
}

impl Duplicate for GameMap {
    fn duplicate(&self) -> (copy: Self) {
        GameMap {
            tiles: self.tiles.clone(),
            width: self.width,
            height: self.height,
            place: self.place,
        }
    }
}

impl Duplicate for SerializationHelper {
    fn duplicate(&self) -> (copy: Self) {
        SerializationHelper { map: self.map.duplicate() }
    }
}

/// The list that a snapshot holds of a storage of plain components.
pub fn export_plain<T: Copy>(storage: &Storage<T>, markers: &Storage<SerializeMe>) -> (pairs: Vec<
    (usize, T),
>)
    ensures
        pairs@ == saved(storage@, markers@.dom()),
{
    let mut pairs: Vec<(usize, T)> = Vec::new();
    let n = storage.bound();
    let mut e: usize = 0;
    while e < n
        invariant
            e <= n,
            forall|f: usize| storage@.contains_key(f) ==> f < n,
            pairs@ == saved_below(storage@, markers@.dom(), e as nat),
        decreases n - e,
    {
        if markers.contains(e) {
            if let Some(component) = storage.get(e) {
                pairs.push((e, *component));
            }
        }
        e = e + 1;
    }
    proof {
        lemma_saved_bound(storage@, markers@.dom(), n as nat, (usize::MAX + 1) as nat);
    }
    pairs
}

/// The list that a snapshot holds of a storage of components with a view.
pub fn export<T: Duplicate>(storage: &Storage<T>, markers: &Storage<SerializeMe>) -> (pairs: Vec<
    (usize, T),
>)
    ensures
        pair_views(pairs@) == saved(storage.views(), markers@.dom()),
{
    let mut pairs: Vec<(usize, T)> = Vec::new();
    let n = storage.bound();
    let mut e: usize = 0;
    while e < n
        invariant
            e <= n,
            forall|f: usize| storage@.contains_key(f) ==> f < n,
            pair_views(pairs@) =~= saved_below(storage.views(), markers@.dom(), e as nat),
        decreases n - e,
    {
        if markers.contains(e) {
            if let Some(component) = storage.get(e) {
                let ghost before = pairs@;
                let copy = component.duplicate();
                pairs.push((e, copy));
                proof {
                    assert(pair_views(pairs@) =~= pair_views(before).push((e, copy@)));
                }
            }
        }
        e = e + 1;
    }
    proof {
        lemma_saved_bound(storage.views(), markers@.dom(), n as nat, (usize::MAX + 1) as nat);
    }
    pairs
}

/// Empties a storage and puts the pairs of a list into it, one after the other.
pub fn import<T>(storage: &mut Storage<T>, pairs: Vec<(usize, T)>)
    ensures
        final(storage)@ == restored(pairs@),
{
    let mut pairs = pairs;
    let ghost all = pairs@;
    storage.clear();
    proof {
        assert(restored(all).union_prefer_right(storage@) =~= restored(all));
    }
    while pairs.len() > 0
        invariant
            restored(all) == restored(pairs@).union_prefer_right(storage@),
        decreases pairs@.len(),
    {
        let ghost before = pairs@;
        let ghost held = storage@;
        if let Some((e, component)) = pairs.pop() {
            proof {
                assert(pairs@ =~= before.drop_last());
                assert(before.last() == (e, component));
            }
            if !storage.contains(e) {
                storage.insert(e, component);
            }
            proof {
                assert(restored(before).union_prefer_right(held) =~= restored(
                    pairs@,
                ).union_prefer_right(storage@));
            }
        }
    }
    proof {
        assert(restored(pairs@).union_prefer_right(storage@) =~= storage@);
    }
}

/// Whether no id of a list is above `top`.
pub fn check_ids<T>(pairs: &Vec<(usize, T)>, top: usize) -> (b: bool)
    ensures
        b == ids_below(pairs@, top + 1),
{
    let mut i: usize = 0;
    while i < pairs.len()
        invariant
            i <= pairs@.len(),
            forall|j: int| 0 <= j < i ==> (#[trigger] pairs@[j]).0 <= top,
        decreases pairs@.len() - i,
    {
        if pairs[i].0 > top {
            return false;
        }
        i = i + 1;
    }
    true
}

/// The world as it is written out: for each component type the pairs of id and component
/// of the entities that are marked for it, and the map in the component of one more
/// entity, made for the purpose.
pub struct Snapshot {
    pub positions: Vec<(usize, Position)>,
    pub renderables: Vec<(usize, Renderable)>,
    pub players: Vec<(usize, Player)>,
    pub names: Vec<(usize, Name)>,
    pub items: Vec<(usize, Item)>,
    pub stored: Vec<(usize, Stored)>,
    pub impassables: Vec<(usize, Impassable)>,
    pub requires_item: Vec<(usize, RequiresItem)>,
    pub contains_item: Vec<(usize, ContainsItem)>,
    pub requires_items: Vec<(usize, RequiresItems)>,
    pub contains_items: Vec<(usize, ContainsItems)>,
    pub permanent_items: Vec<(usize, PermanentItem)>,
    pub helpers: Vec<(usize, SerializationHelper)>,
    pub portals: Vec<(usize, Portal)>,
    pub belongs: Vec<(usize, BelongsTo)>,
    pub npcs: Vec<(usize, Npc)>,
    pub interactions: Vec<(usize, Interaction)>,
    pub dormant_positions: Vec<(usize, DormantPosition)>,
    pub revealer_infos: Vec<(usize, RevealerInformation)>,
    pub markers: Vec<(usize, SerializeMe)>,
}

/// A snapshot as plain values.
pub ghost struct SnapshotView {
    pub positions: Seq<(usize, Position)>,
    pub renderables: Seq<(usize, Renderable)>,
    pub players: Seq<(usize, Player)>,
    pub names: Seq<(usize, Seq<char>)>,
    pub items: Seq<(usize, Item)>,
    pub stored: Seq<(usize, Stored)>,
    pub impassables: Seq<(usize, Impassable)>,
    pub requires_item: Seq<(usize, RequiresItem)>,
    pub contains_item: Seq<(usize, ContainsItem)>,
    pub requires_items: Seq<(usize, Seq<ItemName>)>,
    pub contains_items: Seq<(usize, Seq<ItemName>)>,
    pub permanent_items: Seq<(usize, PermanentItem)>,
    pub helpers: Seq<(usize, GameMapView)>,
    pub portals: Seq<(usize, Portal)>,
    pub belongs: Seq<(usize, BelongsTo)>,
    pub npcs: Seq<(usize, Npc)>,
    pub interactions: Seq<(usize, InteractionView)>,
    pub dormant_positions: Seq<(usize, DormantPosition)>,
    pub revealer_infos: Seq<(usize, RevealerInformation)>,
    pub markers: Seq<(usize, SerializeMe)>,
}

impl View for Snapshot {
    type V = SnapshotView;

    open spec fn view(&self) -> SnapshotView {
        SnapshotView {
            positions: self.positions@,
            renderables: self.renderables@,
            players: self.players@,
            names: pair_views(self.names@),
            items: self.items@,
            stored: self.stored@,
            impassables: self.impassables@,
            requires_item: self.requires_item@,
            contains_item: self.contains_item@,
            requires_items: pair_views(self.requires_items@),
            contains_items: pair_views(self.contains_items@),
            permanent_items: self.permanent_items@,
            helpers: pair_views(self.helpers@),
            portals: self.portals@,
            belongs: self.belongs@,
            npcs: self.npcs@,
            interactions: pair_views(self.interactions@),
            dormant_positions: self.dormant_positions@,
            revealer_infos: self.revealer_infos@,
            markers: self.markers@,
        }
    }
}

impl Snapshot {
    /// Whether no id of the snapshot is above `top`.
    pub fn check_ids(&self, top: usize) -> (b: bool)
        ensures
            b == snapshot_ids_below(self@, top + 1),
    {
        proof {
            lemma_ids_of_views(self.names@, top + 1);
            lemma_ids_of_views(self.requires_items@, top + 1);
            lemma_ids_of_views(self.contains_items@, top + 1);
            lemma_ids_of_views(self.helpers@, top + 1);
            lemma_ids_of_views(self.interactions@, top + 1);
        }
        check_ids(&self.positions, top)
            && check_ids(&self.renderables, top)
            && check_ids(&self.players, top)
            && check_ids(&self.names, top)
            && check_ids(&self.items, top)
            && check_ids(&self.stored, top)
            && check_ids(&self.impassables, top)
            && check_ids(&self.requires_item, top)
            && check_ids(&self.contains_item, top)
            && check_ids(&self.requires_items, top)
            && check_ids(&self.contains_items, top)
            && check_ids(&self.permanent_items, top)
            && check_ids(&self.helpers, top)
            && check_ids(&self.portals, top)
            && check_ids(&self.belongs, top)
            && check_ids(&self.npcs, top)
            && check_ids(&self.interactions, top)
            && check_ids(&self.dormant_positions, top)
            && check_ids(&self.revealer_infos, top)
            && check_ids(&self.markers, top)
    }
}

/// Why a snapshot was not loaded.
#[derive(PartialEq, Eq, Structural, Copy, Clone, Debug)]
pub enum LoadError {
    /// The snapshot does not hold exactly one map.
    NoMap,
    /// An id is above that of the entity with the map.
    OutOfRange,
    /// The world that the snapshot describes is not sound.
    Unsound,
}

/// The world in which the next free id is marked, carries the map and belongs to the
/// current place: the entity that a snapshot is taken with.
pub open spec fn with_helper(w: WorldView) -> WorldView {
    let h = w.entities.len() as usize;
    WorldView {
        helpers: w.helpers.insert(h, w.map),
        belongs: w.belongs.insert(h, BelongsTo { domain: w.current_place }),
        markers: w.markers.insert(h, SerializeMe {  }),
        ..w
    }
}

/// The snapshot of the world: of each storage, what the marked entities carry.
pub open spec fn snapshot_of(w: WorldView) -> SnapshotView {
    let marked = w.markers.dom();
    SnapshotView {
        positions: saved(w.positions, marked),
        renderables: saved(w.renderables, marked),
        players: saved(w.players, marked),
        names: saved(w.names, marked),
        items: saved(w.items, marked),
        stored: saved(w.stored, marked),
        impassables: saved(w.impassables, marked),
        requires_item: saved(w.requires_item, marked),
        contains_item: saved(w.contains_item, marked),
        requires_items: saved(w.requires_items, marked),
        contains_items: saved(w.contains_items, marked),
        permanent_items: saved(w.permanent_items, marked),
        helpers: saved(w.helpers, marked),
        portals: saved(w.portals, marked),
        belongs: saved(w.belongs, marked),
        npcs: saved(w.npcs, marked),
        interactions: saved(w.interactions, marked),
        dormant_positions: saved(w.dormant_positions, marked),
        revealer_infos: saved(w.revealer_infos, marked),
        markers: saved(w.markers, marked),
    }
}

/// The world after it was saved: the entity that carried the map is gone again, and its
/// id is free again.
pub open spec fn after_save(w: WorldView) -> WorldView {
    with_helper(w).without(w.entities.len() as usize)
}

/// Whether every id of the snapshot is below `bound`.
pub open spec fn snapshot_ids_below(s: SnapshotView, bound: int) -> bool {
    &&& ids_below(s.positions, bound)
    &&& ids_below(s.renderables, bound)
    &&& ids_below(s.players, bound)
    &&& ids_below(s.names, bound)
    &&& ids_below(s.items, bound)
    &&& ids_below(s.stored, bound)
    &&& ids_below(s.impassables, bound)
    &&& ids_below(s.requires_item, bound)
    &&& ids_below(s.contains_item, bound)
    &&& ids_below(s.requires_items, bound)
    &&& ids_below(s.contains_items, bound)
    &&& ids_below(s.permanent_items, bound)
    &&& ids_below(s.helpers, bound)
    &&& ids_below(s.portals, bound)
    &&& ids_below(s.belongs, bound)
    &&& ids_below(s.npcs, bound)
    &&& ids_below(s.interactions, bound)
    &&& ids_below(s.dormant_positions, bound)
    &&& ids_below(s.revealer_infos, bound)
    &&& ids_below(s.markers, bound)
}

/// Whether `e` is a player that stands on the map.
pub open spec fn is_player_on_map(w: WorldView, e: usize) -> bool {
    w.players.contains_key(e) && w.positions.contains_key(e)
}

/// [`is_player_on_map`] as a predicate on ids.
pub open spec fn player_pred(w: WorldView) -> spec_fn(usize) -> bool {
    |e: usize| is_player_on_map(w, e)
}

/// The world in which the tracked player is the last player on the map, where it stands.
pub open spec fn located(w: WorldView) -> WorldView {
    match last_entity(player_pred(w)) {
        Some(e) => WorldView {
            player_entity: e,
            player_pos: Point { x: w.positions[e].x, y: w.positions[e].y },
            ..w
        },
        None => w,
    }
}

/// The place that a snapshot with one map was taken in: the place of the entity that
/// carries the map, and the place of the map where that entity has none.
pub open spec fn place_of(s: SnapshotView) -> Place {
    let h = s.helpers[0].0;
    if restored(s.belongs).contains_key(h) {
        restored(s.belongs)[h].domain
    } else {
        s.helpers[0].1.place
    }
}

/// The world that a snapshot with one map describes. Its entities are those of the
/// snapshot under their ids, without the one that carried the map, whose id is the next
/// free one; its map is that map,
/// and its place the one that the snapshot was taken in. The rest is as in `w`.
pub open spec fn loaded(w: WorldView, s: SnapshotView) -> WorldView {
    let h = s.helpers[0].0;
    let raw = WorldView {
        entities: Seq::new(h as nat, |i: int| restored(s.markers).contains_key(i as usize)),
        positions: restored(s.positions),
        renderables: restored(s.renderables),
        players: restored(s.players),
        names: restored(s.names),
        items: restored(s.items),
        stored: restored(s.stored),
        impassables: restored(s.impassables),
        requires_item: restored(s.requires_item),
        contains_item: restored(s.contains_item),
        requires_items: restored(s.requires_items),
        contains_items: restored(s.contains_items),
        permanent_items: restored(s.permanent_items),
        helpers: restored(s.helpers),
        portals: restored(s.portals),
        belongs: restored(s.belongs),
        npcs: restored(s.npcs),
        interactions: restored(s.interactions),
        dormant_positions: restored(s.dormant_positions),
        revealer_infos: restored(s.revealer_infos),
        markers: restored(s.markers),
        current_place: place_of(s),
        map: s.helpers[0].1,
        ..w
    };
    located(raw).without(h)
}

/// What loading a snapshot gives: the world that it describes, or the reason why it
/// describes none.
pub open spec fn after_load(w: WorldView, s: SnapshotView) -> Result<WorldView, LoadError> {
    if s.helpers.len() != 1 {
        Err(LoadError::NoMap)
    } else if !snapshot_ids_below(s, s.helpers[0].0 + 1) {
        Err(LoadError::OutOfRange)
    } else if !loaded(w, s).wf() {
        Err(LoadError::Unsound)
    } else {
        Ok(loaded(w, s))
    }
}

/// Whether the marks of the world are in order: every id is a machine number, the
/// entities that exist are the marked ones, no other carries a component, and none
/// carries a map.
pub open spec fn marks_in_order(w: WorldView) -> bool {
    &&& w.entities.len() <= usize::MAX
    &&& forall|e: usize| #[trigger] w.markers.contains_key(e) ==> e < w.entities.len()
    &&& forall|e: usize| e < w.entities.len() ==> w.entities[e as int] == w.markers.contains_key(e)
    &&& w.helpers == Map::<usize, GameMapView>::empty()
    &&& forall|e: usize| #[trigger] w.positions.contains_key(e) ==> w.markers.contains_key(e)
    &&& forall|e: usize| #[trigger] w.renderables.contains_key(e) ==> w.markers.contains_key(e)
    &&& forall|e: usize| #[trigger] w.players.contains_key(e) ==> w.markers.contains_key(e)
    &&& forall|e: usize| #[trigger] w.names.contains_key(e) ==> w.markers.contains_key(e)
    &&& forall|e: usize| #[trigger] w.items.contains_key(e) ==> w.markers.contains_key(e)
    &&& forall|e: usize| #[trigger] w.stored.contains_key(e) ==> w.markers.contains_key(e)
    &&& forall|e: usize| #[trigger] w.impassables.contains_key(e) ==> w.markers.contains_key(e)
    &&& forall|e: usize| #[trigger] w.requires_item.contains_key(e) ==> w.markers.contains_key(e)
    &&& forall|e: usize| #[trigger] w.contains_item.contains_key(e) ==> w.markers.contains_key(e)
    &&& forall|e: usize| #[trigger] w.requires_items.contains_key(e) ==> w.markers.contains_key(e)
    &&& forall|e: usize| #[trigger] w.contains_items.contains_key(e) ==> w.markers.contains_key(e)
    &&& forall|e: usize| #[trigger] w.permanent_items.contains_key(e) ==> w.markers.contains_key(e)
    &&& forall|e: usize| #[trigger] w.portals.contains_key(e) ==> w.markers.contains_key(e)
    &&& forall|e: usize| #[trigger] w.belongs.contains_key(e) ==> w.markers.contains_key(e)
    &&& forall|e: usize| #[trigger] w.npcs.contains_key(e) ==> w.markers.contains_key(e)
    &&& forall|e: usize| #[trigger] w.interactions.contains_key(e) ==> w.markers.contains_key(e)
    &&& forall|e: usize| #[trigger] w.dormant_positions.contains_key(e) ==> w.markers.contains_key(e)
    &&& forall|e: usize| #[trigger] w.revealer_infos.contains_key(e) ==> w.markers.contains_key(e)
}

/// Whether the world comes back from its snapshot as it is: it is sound, its marks are
/// in order, and the tracked player is the last player on the map, where it stands.
pub open spec fn restorable(w: WorldView) -> bool {
    &&& w.wf()
    &&& marks_in_order(w)
    &&& last_entity(player_pred(w)) == Some(w.player_entity)
    &&& w.player_pos == (Point {
        x: w.positions[w.player_entity].x,
        y: w.positions[w.player_entity].y,
    })
}

/// The world `w` with what loading leaves alone taken from `other`: the name that was
/// typed, the log, the target, the mode and the quest.
pub open spec fn with_session_of(w: WorldView, other: WorldView) -> WorldView {
    WorldView {
        player_name: other.player_name,
        log: other.log,
        targeted_pos: other.targeted_pos,
        run_state: other.run_state,
        objective: other.objective,
        ..w
    }
}

/// Saving leaves a world with its marks in order as it is.
pub proof fn lemma_save_keeps_the_world(w: WorldView)
    requires
        restorable(w),
    ensures
        after_save(w) == w,
{
    let h = w.entities.len() as usize;
    let after = after_save(w);
    assert(after.entities =~= w.entities);
    assert(after.positions =~= w.positions);
    assert(after.renderables =~= w.renderables);
    assert(after.players =~= w.players);
    assert(after.names =~= w.names);
    assert(after.items =~= w.items);
    assert(after.stored =~= w.stored);
    assert(after.impassables =~= w.impassables);
    assert(after.requires_item =~= w.requires_item);
    assert(after.contains_item =~= w.contains_item);
    assert(after.requires_items =~= w.requires_items);
    assert(after.contains_items =~= w.contains_items);
    assert(after.permanent_items =~= w.permanent_items);
    assert(after.helpers =~= w.helpers);
    assert(after.portals =~= w.portals);
    assert(after.belongs =~= w.belongs);
    assert(after.npcs =~= w.npcs);
    assert(after.interactions =~= w.interactions);
    assert(after.dormant_positions =~= w.dormant_positions);
    assert(after.revealer_infos =~= w.revealer_infos);
    assert(after.markers =~= w.markers);
}

/// What a snapshot keeps of a storage: the components of the marked entities.
pub open spec fn kept<V>(components: Map<usize, V>, marked: Set<usize>) -> Map<usize, V> {
    Map::new(
        |e: usize| marked.contains(e) && components.contains_key(e),
        |e: usize| components[e],
    )
}

/// Putting back what was saved of a storage gives what the snapshot keeps of it.
pub proof fn lemma_restored_saved_kept<V>(components: Map<usize, V>, marked: Set<usize>)
    ensures
        restored(saved(components, marked)) == kept(components, marked),
{
    lemma_restored_saved_below(components, marked, (usize::MAX + 1) as nat);
    assert(restored(saved(components, marked)) =~= kept(components, marked));
}

/// The ids of what is saved of a storage are ids of marked entities.
pub proof fn lemma_saved_ids_marked<V>(
    components: Map<usize, V>,
    marked: Set<usize>,
    bound: int,
    n: nat,
)
    requires
        forall|e: usize| marked.contains(e) && #[trigger] components.contains_key(e) ==> e < bound,
    ensures
        ids_below(saved_below(components, marked, n), bound),
    decreases n,
{
    if n > 0 {
        lemma_saved_ids_marked(components, marked, bound, (n - 1) as nat);
    }
}

/// What is saved of a storage is what is saved of the part that the snapshot keeps.
pub proof fn lemma_saved_of_kept<V>(components: Map<usize, V>, marked: Set<usize>, n: nat)
    ensures
        saved_below(components, marked, n) == saved_below(kept(components, marked), marked, n),
    decreases n,
{
    if n > 0 {
        lemma_saved_of_kept(components, marked, (n - 1) as nat);
    }
}

/// Whether the world can be saved and loaded again: every id is a machine number, every
/// marked entity is one of the entities, none of these carries a map, and the next free
/// id is not that of a player on the map.
pub open spec fn savable(w: WorldView) -> bool {
    &&& w.entities.len() <= usize::MAX
    &&& forall|e: usize| #[trigger] w.markers.contains_key(e) ==> e < w.entities.len()
    &&& forall|e: usize| #[trigger] w.markers.contains_key(e) ==> !w.helpers.contains_key(e)
    &&& !is_player_on_map(w, w.entities.len() as usize)
}

/// A world whose marks are in order can be saved and loaded again.
pub proof fn lemma_marks_in_order_are_savable(w: WorldView)
    requires
        marks_in_order(w),
    ensures
        savable(w),
{
    let h = w.entities.len() as usize;
    if w.players.contains_key(h) {
        assert(w.markers.contains_key(h));
    }
}

/// What comes back of the world `w` when its snapshot is loaded into the world `other`,
/// before the player is located: the marked entities with their components, the map and
/// the current place of `w`; the rest is as in `other`.
pub open spec fn kept_world(w: WorldView, other: WorldView) -> WorldView {
    let marked = w.markers.dom();
    let n = w.entities.len();
    WorldView {
        entities: Seq::new(n as nat, |i: int| marked.contains(i as usize)),
        positions: kept(w.positions, marked),
        renderables: kept(w.renderables, marked),
        players: kept(w.players, marked),
        names: kept(w.names, marked),
        items: kept(w.items, marked),
        stored: kept(w.stored, marked),
        impassables: kept(w.impassables, marked),
        requires_item: kept(w.requires_item, marked),
        contains_item: kept(w.contains_item, marked),
        requires_items: kept(w.requires_items, marked),
        contains_items: kept(w.contains_items, marked),
        permanent_items: kept(w.permanent_items, marked),
        portals: kept(w.portals, marked),
        belongs: kept(w.belongs, marked),
        npcs: kept(w.npcs, marked),
        interactions: kept(w.interactions, marked),
        dormant_positions: kept(w.dormant_positions, marked),
        revealer_infos: kept(w.revealer_infos, marked),
        helpers: Map::empty(),
        markers: w.markers,
        current_place: w.current_place,
        map: w.map,
        ..other
    }
}

/// What comes back of the world `w` when its snapshot is loaded into the world `other`.
pub open spec fn reloaded(w: WorldView, other: WorldView) -> WorldView {
    located(kept_world(w, other))
}

/// Saving and loading gives back what was marked: the snapshot of a savable world loads,
/// into whatever world, as the marked entities of the saved world, each with every
/// component that it had, and with the map and the current place of the saved world;
/// nothing else exists. The tracked player is the last player on the map among them.
pub proof fn lemma_load_gives_what_was_marked(w: WorldView, other: WorldView)
    requires
        savable(w),
        reloaded(w, other).wf(),
    ensures
        after_load(other, snapshot_of(with_helper(w))) == Ok::<WorldView, LoadError>(
            reloaded(w, other),
        ),
        reloaded(w, other).current_place == w.current_place,
        reloaded(w, other).map == w.map,
{
    let h = w.entities.len() as usize;
    let held = with_helper(w);
    let marked = held.markers.dom();
    let s = snapshot_of(held);
    assert(kept(held.helpers, marked) =~= Map::<usize, GameMapView>::empty().insert(h, w.map));
    lemma_saved_of_kept(held.helpers, marked, (usize::MAX + 1) as nat);
    lemma_saved_single(marked, h, w.map);
    lemma_saved_ids_marked(held.positions, marked, h + 1, (usize::MAX + 1) as nat);
    lemma_restored_saved_kept(held.positions, marked);
    lemma_saved_ids_marked(held.renderables, marked, h + 1, (usize::MAX + 1) as nat);
    lemma_restored_saved_kept(held.renderables, marked);
    lemma_saved_ids_marked(held.players, marked, h + 1, (usize::MAX + 1) as nat);
    lemma_restored_saved_kept(held.players, marked);
    lemma_saved_ids_marked(held.names, marked, h + 1, (usize::MAX + 1) as nat);
    lemma_restored_saved_kept(held.names, marked);
    lemma_saved_ids_marked(held.items, marked, h + 1, (usize::MAX + 1) as nat);
    lemma_restored_saved_kept(held.items, marked);
    lemma_saved_ids_marked(held.stored, marked, h + 1, (usize::MAX + 1) as nat);
    lemma_restored_saved_kept(held.stored, marked);
    lemma_saved_ids_marked(held.impassables, marked, h + 1, (usize::MAX + 1) as nat);
    lemma_restored_saved_kept(held.impassables, marked);
    lemma_saved_ids_marked(held.requires_item, marked, h + 1, (usize::MAX + 1) as nat);
    lemma_restored_saved_kept(held.requires_item, marked);
    lemma_saved_ids_marked(held.contains_item, marked, h + 1, (usize::MAX + 1) as nat);
    lemma_restored_saved_kept(held.contains_item, marked);
    lemma_saved_ids_marked(held.requires_items, marked, h + 1, (usize::MAX + 1) as nat);
    lemma_restored_saved_kept(held.requires_items, marked);
    lemma_saved_ids_marked(held.contains_items, marked, h + 1, (usize::MAX + 1) as nat);
    lemma_restored_saved_kept(held.contains_items, marked);
    lemma_saved_ids_marked(held.permanent_items, marked, h + 1, (usize::MAX + 1) as nat);
    lemma_restored_saved_kept(held.permanent_items, marked);
    lemma_saved_ids_marked(held.portals, marked, h + 1, (usize::MAX + 1) as nat);
    lemma_restored_saved_kept(held.portals, marked);
    lemma_saved_ids_marked(held.belongs, marked, h + 1, (usize::MAX + 1) as nat);
    lemma_restored_saved_kept(held.belongs, marked);
    lemma_saved_ids_marked(held.npcs, marked, h + 1, (usize::MAX + 1) as nat);
    lemma_restored_saved_kept(held.npcs, marked);
    lemma_saved_ids_marked(held.interactions, marked, h + 1, (usize::MAX + 1) as nat);
    lemma_restored_saved_kept(held.interactions, marked);
    lemma_saved_ids_marked(held.dormant_positions, marked, h + 1, (usize::MAX + 1) as nat);
    lemma_restored_saved_kept(held.dormant_positions, marked);
    lemma_saved_ids_marked(held.revealer_infos, marked, h + 1, (usize::MAX + 1) as nat);
    lemma_restored_saved_kept(held.revealer_infos, marked);
    lemma_saved_ids_marked(held.helpers, marked, h + 1, (usize::MAX + 1) as nat);
    lemma_restored_saved_kept(held.helpers, marked);
    lemma_saved_ids_marked(held.markers, marked, h + 1, (usize::MAX + 1) as nat);
    lemma_restored_saved_kept(held.markers, marked);
    assert(restored(s.belongs).contains_key(h));
    assert(place_of(s) == w.current_place);
    let raw = WorldView {
        entities: Seq::new(h as nat, |i: int| restored(s.markers).contains_key(i as usize)),
        positions: restored(s.positions),
        renderables: restored(s.renderables),
        players: restored(s.players),
        names: restored(s.names),
        items: restored(s.items),
        stored: restored(s.stored),
        impassables: restored(s.impassables),
        requires_item: restored(s.requires_item),
        contains_item: restored(s.contains_item),
        requires_items: restored(s.requires_items),
        contains_items: restored(s.contains_items),
        permanent_items: restored(s.permanent_items),
        portals: restored(s.portals),
        belongs: restored(s.belongs),
        npcs: restored(s.npcs),
        interactions: restored(s.interactions),
        dormant_positions: restored(s.dormant_positions),
        revealer_infos: restored(s.revealer_infos),
        helpers: restored(s.helpers),
        markers: restored(s.markers),
        current_place: place_of(s),
        map: s.helpers[0].1,
        ..other
    };
    let target = kept_world(w, other);
    assert(player_pred(raw) =~= player_pred(target)) by {
        assert forall|e: usize| is_player_on_map(raw, e) == is_player_on_map(target, e) by {
            if e == h {
                assert(!is_player_on_map(w, h));
            }
        }
    }
    let got = loaded(other, s);
    assert(got.entities =~= reloaded(w, other).entities);
    assert(got.positions =~= reloaded(w, other).positions);
    assert(got.renderables =~= reloaded(w, other).renderables);
    assert(got.players =~= reloaded(w, other).players);
    assert(got.names =~= reloaded(w, other).names);
    assert(got.items =~= reloaded(w, other).items);
    assert(got.stored =~= reloaded(w, other).stored);
    assert(got.impassables =~= reloaded(w, other).impassables);
    assert(got.requires_item =~= reloaded(w, other).requires_item);
    assert(got.contains_item =~= reloaded(w, other).contains_item);
    assert(got.requires_items =~= reloaded(w, other).requires_items);
    assert(got.contains_items =~= reloaded(w, other).contains_items);
    assert(got.permanent_items =~= reloaded(w, other).permanent_items);
    assert(got.portals =~= reloaded(w, other).portals);
    assert(got.belongs =~= reloaded(w, other).belongs);
    assert(got.npcs =~= reloaded(w, other).npcs);
    assert(got.interactions =~= reloaded(w, other).interactions);
    assert(got.dormant_positions =~= reloaded(w, other).dormant_positions);
    assert(got.revealer_infos =~= reloaded(w, other).revealer_infos);
    assert(got.helpers =~= reloaded(w, other).helpers);
    assert(got.markers =~= reloaded(w, other).markers);
    assert(got == reloaded(w, other));
}

/// What comes back of a sound world is sound, where a player on the map comes back with
/// it, or the player of the world that it is loaded into stands on the map.
pub proof fn lemma_reloaded_is_sound(w: WorldView, other: WorldView)
    requires
        w.wf(),
        last_entity(player_pred(kept_world(w, other))) is Some || in_bounds(
            other.player_pos.x as int,
            other.player_pos.y as int,
        ),
    ensures
        reloaded(w, other).wf(),
{
    let k = kept_world(w, other);
    if last_entity(player_pred(k)) is Some {
        lemma_last_found(player_pred(k), last_entity(player_pred(k))->0);
    }
}

/// The player comes back: where the last marked player on the map of the saved world is
/// `e`, the world that is loaded tracks `e`, on the tile on which `e` stood.
pub proof fn lemma_load_restores_the_player(w: WorldView, other: WorldView, e: usize)
    requires
        last_entity(player_pred(kept_world(w, other))) == Some(e),
    ensures
        reloaded(w, other).player_entity == e,
        reloaded(w, other).players.contains_key(e),
        reloaded(w, other).positions.contains_key(e),
        reloaded(w, other).positions[e] == w.positions[e],
        reloaded(w, other).player_pos == (Point { x: w.positions[e].x, y: w.positions[e].y }),
{
    lemma_last_found(player_pred(kept_world(w, other)), e);
}

/// Where the marks are in order, everything comes back: each entity with every component
/// that it had, and nothing else.
pub proof fn lemma_marked_world_comes_back(w: WorldView, other: WorldView)
    requires
        marks_in_order(w),
    ensures
        kept_world(w, other) == (WorldView {
            player_entity: other.player_entity,
            player_pos: other.player_pos,
            ..with_session_of(w, other)
        }),
{
    let k = kept_world(w, other);
    assert forall|i: int| 0 <= i < w.entities.len() implies k.entities[i] == w.entities[i] by {
        let e = i as usize;
        assert(w.entities[e as int] == w.markers.contains_key(e));
    }
    assert(k.entities =~= w.entities);
    assert(k.positions =~= w.positions);
    assert(k.renderables =~= w.renderables);
    assert(k.players =~= w.players);
    assert(k.names =~= w.names);
    assert(k.items =~= w.items);
    assert(k.stored =~= w.stored);
    assert(k.impassables =~= w.impassables);
    assert(k.requires_item =~= w.requires_item);
    assert(k.contains_item =~= w.contains_item);
    assert(k.requires_items =~= w.requires_items);
    assert(k.contains_items =~= w.contains_items);
    assert(k.permanent_items =~= w.permanent_items);
    assert(k.portals =~= w.portals);
    assert(k.belongs =~= w.belongs);
    assert(k.npcs =~= w.npcs);
    assert(k.interactions =~= w.interactions);
    assert(k.dormant_positions =~= w.dormant_positions);
    assert(k.revealer_infos =~= w.revealer_infos);
}

/// A world comes back from its snapshot: loading the snapshot of a restorable world, into
/// whatever world, gives every entity the components that it had, and the place, the map
/// and the tracked player that the world had when it was saved.
pub proof fn lemma_load_restores_what_was_saved(w: WorldView, other: WorldView)
    requires
        restorable(w),
    ensures
        after_load(other, snapshot_of(with_helper(w))) == Ok::<WorldView, LoadError>(
            with_session_of(w, other),
        ),
        after_save(w) == w,
{
    lemma_save_keeps_the_world(w);
    lemma_marked_world_comes_back(w, other);
    let k = kept_world(w, other);
    assert(player_pred(k) =~= player_pred(w));
    lemma_last_found(player_pred(w), w.player_entity);
    assert(reloaded(w, other) == with_session_of(w, other));
    lemma_load_gives_what_was_marked(w, other);
}

/// Makes the snapshot of the world. The map travels in the component of an entity that
/// stands at the next free id for the purpose and is deleted afterwards, so that the id
/// is free again.
pub fn save_game(ecs: &mut World) -> (snapshot: Snapshot)
    ensures
        snapshot@ == snapshot_of(with_helper(old(ecs)@)),
        final(ecs)@ == after_save(old(ecs)@),
{
    let helper = ecs.entities.len();
    let ghost before = ecs.helpers;
    let carried = SerializationHelper { map: ecs.map.duplicate() };
    ecs.helpers.insert(helper, carried);
    ecs.belongs.insert(helper, BelongsTo { domain: ecs.current_place });
    ecs.markers.insert(helper, SerializeMe {  });
    proof {
        lemma_views_insert(before, ecs.helpers, helper, carried);
    }
    let snapshot = Snapshot {
        positions: export_plain(&ecs.positions, &ecs.markers),
        renderables: export_plain(&ecs.renderables, &ecs.markers),
        players: export_plain(&ecs.players, &ecs.markers),
        names: export(&ecs.names, &ecs.markers),
        items: export_plain(&ecs.items, &ecs.markers),
        stored: export_plain(&ecs.stored, &ecs.markers),
        impassables: export_plain(&ecs.impassables, &ecs.markers),
        requires_item: export_plain(&ecs.requires_item, &ecs.markers),
        contains_item: export_plain(&ecs.contains_item, &ecs.markers),
        requires_items: export(&ecs.requires_items, &ecs.markers),
        contains_items: export(&ecs.contains_items, &ecs.markers),
        permanent_items: export_plain(&ecs.permanent_items, &ecs.markers),
        helpers: export(&ecs.helpers, &ecs.markers),
        portals: export_plain(&ecs.portals, &ecs.markers),
        belongs: export_plain(&ecs.belongs, &ecs.markers),
        npcs: export_plain(&ecs.npcs, &ecs.markers),
        interactions: export(&ecs.interactions, &ecs.markers),
        dormant_positions: export_plain(&ecs.dormant_positions, &ecs.markers),
        revealer_infos: export_plain(&ecs.revealer_infos, &ecs.markers),
        markers: export_plain(&ecs.markers, &ecs.markers),
    };
    ecs.delete_entity(helper);
    snapshot
}

/// The last player that stands on the map.
fn find_player(ecs: &World) -> (found: Option<usize>)
    ensures
        found == last_entity(player_pred(ecs@)),
{
    let ghost p = player_pred(ecs@);
    let mut found: Option<usize> = None;
    let n = ecs.players.bound();
    let mut e: usize = 0;
    while e < n
        invariant
            e <= n,
            p == player_pred(ecs@),
            forall|f: usize| ecs@.players.contains_key(f) ==> f < n,
            match found {
                Some(last) => last < e && p(last) && forall|f: usize|
                    last < f < e ==> !#[trigger] p(f),
                None => forall|f: usize| f < e ==> !#[trigger] p(f),
            },
        decreases n - e,
    {
        if ecs.players.contains(e) && ecs.positions.contains(e) {
            found = Some(e);
        }
        e = e + 1;
    }
    proof {
        assert forall|f: usize| f >= n implies !#[trigger] p(f) by {
            assert(!ecs@.players.contains_key(f));
        }
        match found {
            Some(last) => {
                lemma_last_entity(p, last);
            },
            None => {
                lemma_no_last_entity(p);
            },
        }
    }
    found
}

/// Replaces the entities of the world by those of the snapshot, the map by its map and
/// the place by the place that it was taken in; the player is tracked where the snapshot
/// has it. A snapshot that
/// describes no sound world leaves the world as it is.
pub fn load_game(ecs: &mut World, snapshot: Snapshot) -> (r: Result<(), LoadError>)
    ensures
        match after_load(old(ecs)@, snapshot@) {
            Ok(w) => r is Ok && final(ecs)@ == w,
            Err(e) => r == Err::<(), LoadError>(e) && final(ecs)@ == old(ecs)@,
        },
{
    if snapshot.helpers.len() != 1 {
        return Err(LoadError::NoMap);
    }
    let helper = snapshot.helpers[0].0;
    if !snapshot.check_ids(helper) {
        return Err(LoadError::OutOfRange);
    }
    let ghost s = snapshot@;
    let ghost w = ecs@;
    let carried = snapshot.helpers[0].1.map.duplicate();
    let mut fresh = World::new();
    proof {
        lemma_restored_views(snapshot.names@);
        lemma_restored_views(snapshot.requires_items@);
        lemma_restored_views(snapshot.contains_items@);
        lemma_restored_views(snapshot.helpers@);
        lemma_restored_views(snapshot.interactions@);
    }
    import(&mut fresh.positions, snapshot.positions);
    import(&mut fresh.renderables, snapshot.renderables);
    import(&mut fresh.players, snapshot.players);
    import(&mut fresh.names, snapshot.names);
    import(&mut fresh.items, snapshot.items);
    import(&mut fresh.stored, snapshot.stored);
    import(&mut fresh.impassables, snapshot.impassables);
    import(&mut fresh.requires_item, snapshot.requires_item);
    import(&mut fresh.contains_item, snapshot.contains_item);
    import(&mut fresh.requires_items, snapshot.requires_items);
    import(&mut fresh.contains_items, snapshot.contains_items);
    import(&mut fresh.permanent_items, snapshot.permanent_items);
    import(&mut fresh.helpers, snapshot.helpers);
    import(&mut fresh.portals, snapshot.portals);
    import(&mut fresh.belongs, snapshot.belongs);
    import(&mut fresh.npcs, snapshot.npcs);
    import(&mut fresh.interactions, snapshot.interactions);
    import(&mut fresh.dormant_positions, snapshot.dormant_positions);
    import(&mut fresh.revealer_infos, snapshot.revealer_infos);
    import(&mut fresh.markers, snapshot.markers);
    proof {
        assert(fresh.names.views() =~= restored(s.names));
        assert(fresh.requires_items.views() =~= restored(s.requires_items));
        assert(fresh.contains_items.views() =~= restored(s.contains_items));
        assert(fresh.helpers.views() =~= restored(s.helpers));
        assert(fresh.interactions.views() =~= restored(s.interactions));
    }
    let ghost filled = fresh@;
    let mut i: usize = 0;
    while i < helper
        invariant
            i <= helper,
            fresh.entities@ =~= Seq::new(
                i as nat,
                |k: int| filled.markers.contains_key(k as usize),
            ),
            fresh@ == (WorldView { entities: fresh.entities@, ..filled }),
        decreases helper - i,
    {
        let marked = fresh.markers.contains(i);
        fresh.entities.push(marked);
        i = i + 1;
    }
    fresh.current_place = match fresh.belongs.get(helper) {
        Some(bel) => bel.domain,
        None => carried.place,
    };
    fresh.map = carried;
    fresh.player_entity = ecs.player_entity;
    fresh.player_pos = ecs.player_pos;
    let ghost raw = WorldView {
        entities: Seq::new(
            helper as nat,
            |i: int| restored(s.markers).contains_key(i as usize),
        ),
        positions: restored(s.positions),
        renderables: restored(s.renderables),
        players: restored(s.players),
        names: restored(s.names),
        items: restored(s.items),
        stored: restored(s.stored),
        impassables: restored(s.impassables),
        requires_item: restored(s.requires_item),
        contains_item: restored(s.contains_item),
        requires_items: restored(s.requires_items),
        contains_items: restored(s.contains_items),
        permanent_items: restored(s.permanent_items),
        helpers: restored(s.helpers),
        portals: restored(s.portals),
        belongs: restored(s.belongs),
        npcs: restored(s.npcs),
        interactions: restored(s.interactions),
        dormant_positions: restored(s.dormant_positions),
        revealer_infos: restored(s.revealer_infos),
        markers: restored(s.markers),
        current_place: place_of(s),
        map: s.helpers[0].1,
        ..w
    };
    proof {
        assert(fresh.entities@ =~= raw.entities);
        assert(raw == with_session_of(fresh@, w));
        assert(player_pred(raw) =~= player_pred(fresh@));
    }
    if let Some(player) = find_player(&fresh) {
        proof {
            lemma_last_found(player_pred(fresh@), player);
        }
        if let Some(pos) = fresh.positions.get(player) {
            fresh.player_pos = Point { x: pos.x, y: pos.y };
            fresh.player_entity = player;
        }
    }
    proof {
        assert(located(raw) == with_session_of(fresh@, w));
    }
    fresh.delete_entity(helper);
    let ghost candidate = with_session_of(fresh@, w);
    proof {
        assert(candidate == loaded(w, s));
        assert(candidate.wf() == fresh@.wf()) by {
            assert(candidate.map == fresh@.map);
            assert(candidate.player_pos == fresh@.player_pos);
            assert(candidate.positions == fresh@.positions);
            assert(candidate.dormant_positions == fresh@.dormant_positions);
            assert(candidate.portals == fresh@.portals);
            assert(candidate.items == fresh@.items);
            assert(candidate.names == fresh@.names);
            if candidate.wf() {
                assert(fresh@.wf());
            }
            if fresh@.wf() {
                assert(candidate.wf());
            }
        }
    }
    if !fresh.check() {
        return Err(LoadError::Unsound);
    }
    std::mem::swap(&mut fresh.player_name, &mut ecs.player_name);
    std::mem::swap(&mut fresh.log, &mut ecs.log);
    std::mem::swap(&mut fresh.objective, &mut ecs.objective);
    fresh.targeted_pos = ecs.targeted_pos;
    fresh.run_state = ecs.run_state;
    *ecs = fresh;
    Ok(())
}

} // verus!
