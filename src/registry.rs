use vstd::prelude::*;
use dashmap::DashMap;
use std::collections::VecDeque;
use crate::dmf_map::{DmfMap, DmfView};
use crate::player::{Player, PlayerView};

verus! {

#[verifier::external_type_specification]
#[verifier::external_body]
#[verifier::reject_recursive_types(K)]
#[verifier::reject_recursive_types(V)]
#[verifier::reject_recursive_types(S)]
pub struct ExDashMap<K, V, S>(DashMap<K, V, S>);

/// Connected players by id.
pub type PlayerTable = DashMap<i8, Player>;

/// Loaded worlds by name.
pub type WorldTable = DashMap<String, DmfMap>;

/// The players a player table holds, by id.
pub uninterp spec fn player_table(m: PlayerTable) -> Map<i8, PlayerView>;

/// The worlds a world table holds, by name.
pub uninterp spec fn world_table(m: WorldTable) -> Map<Seq<char>, DmfView>;

/// Relies on `DashMap::new`: a map with no entries.
#[verifier::external_body]
pub(crate) fn new_player_table() -> (table: PlayerTable)
    ensures
        player_table(table).dom() == Set::<i8>::empty(),
{
    DashMap::new()
}

/// Relies on `DashMap::insert`: the entry for `id` becomes `p`.
#[verifier::external_body]
pub(crate) fn put_player(m: &mut PlayerTable, id: i8, p: Player)
    ensures
        player_table(*final(m)) == player_table(*old(m)).insert(id, p@),
{
    m.insert(id, p);
}

/// Relies on `DashMap::remove`: takes out the entry for `id` and returns its value.
#[verifier::external_body]
pub(crate) fn take_player(m: &mut PlayerTable, id: i8) -> (r: Option<Player>)
    ensures
        player_table(*final(m)) == player_table(*old(m)).remove(id),
        match r {
            Some(p) => player_table(*old(m)).contains_key(id) && p@ == player_table(*old(m))[id],
            None => !player_table(*old(m)).contains_key(id),
        },
{
    m.remove(&id).map(|(_, v)| v)
}

/// Relies on `DashMap::contains_key`.
#[verifier::external_body]
pub(crate) fn has_player(m: &PlayerTable, id: i8) -> (r: bool)
    ensures
        r == player_table(*m).contains_key(id),
{
    m.contains_key(&id)
}

/// Relies on `DashMap::iter`: every key once, in an order the map chooses.
#[verifier::external_body]
pub(crate) fn player_ids(m: &PlayerTable) -> (r: Vec<i8>)
    ensures
        r@.no_duplicates(),
        r@.to_set() == player_table(*m).dom(),
{
    m.iter().map(|e| *e.key()).collect()
}

/// Relies on `DashMap::len`: the number of entries.
#[verifier::external_body]
pub(crate) fn player_count(m: &PlayerTable) -> (r: usize)
    ensures
        r == player_table(*m).len(),
{
    m.len()
}

/// Relies on `DashMap::new`: a map with no entries.
#[verifier::external_body]
pub(crate) fn new_world_table() -> (table: WorldTable)
    ensures
        world_table(table).dom() == Set::<Seq<char>>::empty(),
{
    DashMap::new()
}

/// Relies on `DashMap::insert`: the entry for `name` becomes `w`.
#[verifier::external_body]
pub(crate) fn put_world(m: &mut WorldTable, name: String, w: DmfMap)
    ensures
        world_table(*final(m)) == world_table(*old(m)).insert(name@, w@),
{
    m.insert(name, w);
}

/// Relies on `DashMap::remove`: takes out the entry for `name` and returns its value.
#[verifier::external_body]
pub(crate) fn take_world(m: &mut WorldTable, name: &str) -> (r: Option<DmfMap>)
    ensures
        world_table(*final(m)) == world_table(*old(m)).remove(name@),
        match r {
            Some(w) => world_table(*old(m)).contains_key(name@) && w@ == world_table(*old(m))[name@],
            None => !world_table(*old(m)).contains_key(name@),
        },
{
    m.remove(name).map(|(_, v)| v)
}

/// Relies on `DashMap::iter`: every key once, in an order the map chooses.
#[verifier::external_body]
pub(crate) fn world_names(m: &WorldTable) -> (r: Vec<String>)
    ensures
        r@.map_values(|s: String| s@).no_duplicates(),
        r@.map_values(|s: String| s@).to_set() == world_table(*m).dom(),
{
    m.iter().map(|e| e.key().clone()).collect()
}

/// A packet waiting to be broadcast: the player it skips, if any, and its bytes.
pub struct BroadcastItem {
    pub excluded: Option<i8>,
    pub data: Vec<u8>,
}

/// First-in first-out queue of packets to broadcast.
pub struct PacketQueue {
    queue: VecDeque<BroadcastItem>,
}

impl View for PacketQueue {
    type V = Seq<(Option<i8>, Seq<u8>)>;

    closed spec fn view(&self) -> Seq<(Option<i8>, Seq<u8>)> {
        self.queue@.map_values(|b: BroadcastItem| (b.excluded, b.data@))
    }
}

impl PacketQueue {
    pub fn new() -> (r: Self)
        ensures
            r@ == Seq::<(Option<i8>, Seq<u8>)>::empty(),
    {
        let r = Self { queue: VecDeque::new() };
        assert(r@ =~= Seq::<(Option<i8>, Seq<u8>)>::empty());
        r
    }

    pub fn enqueue(&mut self, owner_id: Option<i8>, data: Vec<u8>)
        ensures
            final(self)@ == old(self)@.push((owner_id, data@)),
    {
        self.queue.push_back(BroadcastItem { excluded: owner_id, data });
        assert(self@ =~= old(self)@.push((owner_id, data@)));
    }

    pub fn dequeue(&mut self) -> (r: Option<BroadcastItem>)
        ensures
            old(self)@.len() == 0 ==> r is None && final(self)@ == old(self)@,
            old(self)@.len() > 0 ==> (r matches Some(b) && (b.excluded, b.data@) == old(self)@[0]
                && final(self)@ == old(self)@.drop_first()),
    {
        let r = self.queue.pop_front();
        assert(old(self)@.len() > 0 ==> self@ =~= old(self)@.drop_first());
        r
    }

    pub fn len(&self) -> (r: usize)
        ensures
            r == self@.len(),
    {
        self.queue.len()
    }
}

} // verus!
