use vstd::prelude::*;
use crate::config::Config;
use crate::dmf_map::{DmfMap, DmfView};
use crate::player::{Player, PlayerView};
use crate::registry::{
    PlayerTable, WorldTable, new_player_table, new_world_table, put_player, take_player,
    has_player, player_ids, player_count, put_world, take_world, world_names, player_table,
    world_table,
};
use crate::text::{decimal, decimal_string, push_char};

verus! {

/// Length of the salt a server advertises.
pub const SALT_LEN: usize = 16;

/// Relies on `rand::thread_rng` and `Rng::gen_range`: a number drawn below `bound`.
#[verifier::external_body]
fn random_below(bound: usize) -> (r: usize)
    requires
        bound > 0,
    ensures
        r < bound,
{
    rand::Rng::gen_range(&mut rand::thread_rng(), 0..bound)
}

/// The base-62 digit for `i`: 0-9, then a-z, then A-Z.
pub open spec fn base62_char(i: int) -> char {
    if i < 10 {
        (48 + i) as char
    } else if i < 36 {
        (97 + i - 10) as char
    } else {
        (65 + i - 36) as char
    }
}

/// A character of the base-62 alphabet.
pub open spec fn is_base62(c: char) -> bool {
    exists|i: int| 0 <= i < 62 && c == base62_char(i)
}

fn base62_digit(i: usize) -> (r: char)
    requires
        i < 62,
    ensures
        r == base62_char(i as int),
{
    if i < 10 {
        ((48 + i) as u8) as char
    } else if i < 36 {
        ((97 + i - 10) as u8) as char
    } else {
        ((65 + i - 36) as u8) as char
    }
}

/// The salt spelled by draws from the base-62 alphabet.
pub open spec fn salt_of(draws: Seq<usize>) -> Seq<char> {
    draws.map_values(|i: usize| base62_char(i as int))
}

/// The salt spelled by `draws`, one base-62 character per draw.
pub fn salt_from_draws(draws: &Vec<usize>) -> (r: String)
    requires
        forall|k: int| 0 <= k < draws@.len() ==> draws@[k] < 62,
    ensures
        r@ == salt_of(draws@),
{
    let mut s = String::new();
    let mut n: usize = 0;
    while n < draws.len()
        invariant
            n <= draws@.len(),
            forall|k: int| 0 <= k < draws@.len() ==> draws@[k] < 62,
            s@ == salt_of(draws@.subrange(0, n as int)),
        decreases draws@.len() - n,
    {
        let c = base62_digit(draws[n]);
        push_char(&mut s, c);
        assert(salt_of(draws@.subrange(0, n + 1)) =~= salt_of(draws@.subrange(0, n as int)).push(c));
        n = n + 1;
    }
    assert(draws@.subrange(0, n as int) =~= draws@);
    s
}

/// A random string of `length` base-62 characters, one per uniform draw.
pub fn generate_salt(length: usize) -> (r: String)
    ensures
        r@.len() == length,
        forall|k: int| 0 <= k < length ==> is_base62(#[trigger] r@[k]),
        exists|draws: Seq<usize>|
            draws.len() == length && (forall|k: int| 0 <= k < length ==> draws[k] < 62) && r@
                == salt_of(draws),
{
    let mut draws: Vec<usize> = Vec::new();
    let mut n: usize = 0;
    while n < length
        invariant
            n <= length,
            draws@.len() == n,
            forall|k: int| 0 <= k < n ==> draws@[k] < 62,
        decreases length - n,
    {
        draws.push(random_below(62));
        n = n + 1;
    }
    let s = salt_from_draws(&draws);
    assert forall|k: int| 0 <= k < length implies is_base62(#[trigger] s@[k]) by {
        assert(s@[k] == base62_char(draws@[k] as int));
    }
    s
}

/// What a server holds: its players by id and its worlds by name.
pub struct ServerState {
    pub players: Map<i8, PlayerView>,
    pub worlds: Map<Seq<char>, DmfView>,
}

/// Each player sits under its own id, which lies in [0, 127].
pub open spec fn players_wf(players: Map<i8, PlayerView>) -> bool {
    forall|k: i8| #[trigger] players.contains_key(k) ==> 0 <= k <= 127 && players[k].id == k
}

/// In a well-formed registry the players' ids are pairwise distinct and
/// all lie in [0, 127].
pub proof fn lemma_ids_distinct(players: Map<i8, PlayerView>)
    requires
        players_wf(players),
    ensures
        forall|a: i8, b: i8|
            players.contains_key(a) && players.contains_key(b) && a != b ==> #[trigger] players[a].id
                != #[trigger] players[b].id,
        forall|a: i8| players.contains_key(a) ==> 0 <= #[trigger] players[a].id <= 127,
{
}

/// Every loaded world is well formed.
pub open spec fn worlds_wf(worlds: Map<Seq<char>, DmfView>) -> bool {
    forall|n: Seq<char>| #[trigger] worlds.contains_key(n) ==> worlds[n].wf()
}

/// An id in [0, 127] that no player holds.
pub open spec fn is_free_id(players: Map<i8, PlayerView>, i: int) -> bool {
    0 <= i <= 127 && !players.contains_key(i as i8)
}

/// The registries, the settings and the salt of one server.
pub struct Server {
    connected_players: PlayerTable,
    loaded_maps: WorldTable,
    config: Config,
    salt: String,
}

impl View for Server {
    type V = ServerState;

    closed spec fn view(&self) -> ServerState {
        ServerState {
            players: player_table(self.connected_players),
            worlds: world_table(self.loaded_maps),
        }
    }
}

impl Server {
    pub open spec fn wf(&self) -> bool {
        players_wf(self@.players) && worlds_wf(self@.worlds)
    }

    pub closed spec fn config_spec(&self) -> Config {
        self.config
    }

    pub closed spec fn salt_spec(&self) -> Seq<char> {
        self.salt@
    }

    /// A server with no players and no worlds, and a fresh salt.
    pub fn new(config: Config) -> (r: Server)
        ensures
            r.wf(),
            r@.players.dom() == Set::<i8>::empty(),
            r@.worlds.dom() == Set::<Seq<char>>::empty(),
            r.config_spec() == config,
            r.salt_spec().len() == SALT_LEN,
            forall|k: int| 0 <= k < SALT_LEN ==> is_base62(#[trigger] r.salt_spec()[k]),
    {
        Server {
            connected_players: new_player_table(),
            loaded_maps: new_world_table(),
            config,
            salt: generate_salt(SALT_LEN),
        }
    }

    pub fn config(&self) -> (r: &Config)
        ensures
            *r == self.config_spec(),
    {
        &self.config
    }

    pub fn salt(&self) -> (r: &str)
        ensures
            r@ == self.salt_spec(),
    {
        self.salt.as_str()
    }

    pub fn player_count(&self) -> (r: usize)
        ensures
            r == self@.players.len(),
    {
        player_count(&self.connected_players)
    }

    pub fn has_player(&self, id: i8) -> (r: bool)
        ensures
            r == self@.players.contains_key(id),
    {
        has_player(&self.connected_players, id)
    }

    /// The ids of all players, each once, in no promised order.
    pub fn player_ids(&self) -> (r: Vec<i8>)
        ensures
            r@.no_duplicates(),
            r@.to_set() == self@.players.dom(),
    {
        player_ids(&self.connected_players)
    }

    /// A copy of the player under `id`.
    pub fn get_player(&mut self, id: i8) -> (r: Option<Player>)
        ensures
            final(self)@ == old(self)@,
            final(self).config_spec() == old(self).config_spec(),
            final(self).salt_spec() == old(self).salt_spec(),
            match r {
                Some(p) => old(self)@.players.contains_key(id) && p@ == old(self)@.players[id],
                None => !old(self)@.players.contains_key(id),
            },
    {
        match take_player(&mut self.connected_players, id) {
            Some(p) => {
                let copy = p.duplicate();
                put_player(&mut self.connected_players, id, p);
                assert(self@.players =~= old(self)@.players);
                Some(copy)
            },
            None => {
                assert(self@.players =~= old(self)@.players);
                None
            },
        }
    }

    /// Registers `p` under its own id.
    pub fn add_player(&mut self, p: Player)
        requires
            old(self).wf(),
            0 <= p@.id <= 127,
        ensures
            final(self).wf(),
            final(self)@ == (ServerState { players: old(self)@.players.insert(p@.id, p@), ..old(self)@ }),
            final(self).config_spec() == old(self).config_spec(),
            final(self).salt_spec() == old(self).salt_spec(),
    {
        let id = p.get_id();
        put_player(&mut self.connected_players, id, p);
    }

    /// Takes the player under `id` out of the registry.
    pub fn remove_player(&mut self, id: i8) -> (r: Option<Player>)
        requires
            old(self).wf(),
        ensures
            final(self).wf(),
            final(self)@ == (ServerState { players: old(self)@.players.remove(id), ..old(self)@ }),
            final(self).config_spec() == old(self).config_spec(),
            final(self).salt_spec() == old(self).salt_spec(),
            match r {
                Some(p) => old(self)@.players.contains_key(id) && p@ == old(self)@.players[id],
                None => !old(self)@.players.contains_key(id),
            },
    {
        take_player(&mut self.connected_players, id)
    }

    /// Moves the player under `id`; nothing happens if there is none.
    pub fn set_player_pos(&mut self, id: i8, x: i16, y: i16, z: i16, pitch: u8, yaw: u8)
        requires
            old(self).wf(),
        ensures
            final(self).wf(),
            final(self).config_spec() == old(self).config_spec(),
            final(self).salt_spec() == old(self).salt_spec(),
            final(self)@ == if old(self)@.players.contains_key(id) {
                ServerState {
                    players: old(self)@.players.insert(
                        id,
                        PlayerView { pos: (x, y, z), yaw, pitch, ..old(self)@.players[id] },
                    ),
                    ..old(self)@
                }
            } else {
                old(self)@
            },
    {
        match take_player(&mut self.connected_players, id) {
            Some(mut p) => {
                p.set_pos(x, y, z, pitch, yaw);
                put_player(&mut self.connected_players, id, p);
                assert(self@.players =~= old(self)@.players.insert(
                    id,
                    PlayerView { pos: (x, y, z), yaw, pitch, ..old(self)@.players[id] },
                ));
            },
            None => {
                assert(self@.players =~= old(self)@.players);
            },
        }
    }

    /// The lowest id in [0, 127] that no player holds, if any.
    pub fn get_last_id(&self) -> (r: Option<i8>)
        ensures
            match r {
                Some(i) => is_free_id(self@.players, i as int) && forall|j: int|
                    0 <= j < i ==> !is_free_id(self@.players, j),
                None => forall|j: int| 0 <= j <= 127 ==> !is_free_id(self@.players, j),
            },
    {
        let mut id: i8 = 0;
        loop
            invariant
                0 <= id <= 127,
                forall|j: int| 0 <= j < id ==> !is_free_id(self@.players, j),
            decreases 127 - id,
        {
            if !has_player(&self.connected_players, id) {
                return Some(id);
            }
            if id == 127 {
                return None;
            }
            id = id + 1;
        }
    }

    /// Registers world `map` under `name`, replacing any world of that name.
    pub fn load_map(&mut self, name: String, map: DmfMap)
        requires
            old(self).wf(),
            map.wf(),
        ensures
            final(self).wf(),
            final(self)@ == (ServerState { worlds: old(self)@.worlds.insert(name@, map@), ..old(self)@ }),
            final(self).config_spec() == old(self).config_spec(),
            final(self).salt_spec() == old(self).salt_spec(),
    {
        put_world(&mut self.loaded_maps, name, map);
    }

    /// Takes world `name` out of the registry.
    pub fn unload_map(&mut self, name: &str) -> (r: Option<DmfMap>)
        requires
            old(self).wf(),
        ensures
            final(self).wf(),
            final(self)@ == (ServerState { worlds: old(self)@.worlds.remove(name@), ..old(self)@ }),
            final(self).config_spec() == old(self).config_spec(),
            final(self).salt_spec() == old(self).salt_spec(),
            match r {
                Some(m) => m.wf() && old(self)@.worlds.contains_key(name@) && m@ == old(self)@.worlds[name@],
                None => !old(self)@.worlds.contains_key(name@),
            },
    {
        take_world(&mut self.loaded_maps, name)
    }

    /// Each loaded world's name with the file that holds it.
    pub fn save_all(&mut self) -> (r: Vec<(String, Vec<u8>)>)
        requires
            old(self).wf(),
        ensures
            final(self).wf(),
            final(self)@ == old(self)@,
            final(self).config_spec() == old(self).config_spec(),
            final(self).salt_spec() == old(self).salt_spec(),
            r@.map_values(|e: (String, Vec<u8>)| e.0@).to_set() == old(self)@.worlds.dom(),
            forall|k: int|
                0 <= k < r@.len() ==> (#[trigger] r@[k]).1@ == old(self)@.worlds[r@[k].0@].encode(),
    {
        let names = world_names(&self.loaded_maps);
        let ghost names_view = names@.map_values(|s: String| s@);
        let mut out: Vec<(String, Vec<u8>)> = Vec::new();
        let mut i: usize = 0;
        while i < names.len()
            invariant
                self.wf(),
                self@ == old(self)@,
                self.config_spec() == old(self).config_spec(),
                self.salt_spec() == old(self).salt_spec(),
                names_view == names@.map_values(|s: String| s@),
                names_view.to_set() == old(self)@.worlds.dom(),
                i <= names@.len(),
                out@.len() == i,
                forall|k: int| 0 <= k < i ==> (#[trigger] out@[k]).0@ == names@[k]@,
                forall|k: int|
                    0 <= k < i ==> (#[trigger] out@[k]).1@ == old(self)@.worlds[out@[k].0@].encode(),
            decreases names@.len() - i,
        {
            let name = &names[i];
            assert(names_view[i as int] == name@);
            assert(old(self)@.worlds.contains_key(name@));
            match take_world(&mut self.loaded_maps, name.as_str()) {
                Some(m) => {
                    let bytes = m.to_bytes();
                    put_world(&mut self.loaded_maps, name.clone(), m);
                    assert(self@.worlds =~= old(self)@.worlds);
                    out.push((name.clone(), bytes));
                },
                None => {
                    assert(false);
                },
            }
            i = i + 1;
        }
        proof {
            assert(out@.map_values(|e: (String, Vec<u8>)| e.0@) =~= names_view);
        }
        out
    }

    /// The query parameters of a heartbeat announcing this server.
    pub fn heartbeat_query(&self) -> (r: Vec<(String, String)>)
        ensures
            r@.len() == 9,
            r@[0].0@ == "port"@ && r@[0].1@ == decimal(self.config_spec().port as nat),
            r@[1].0@ == "max"@ && r@[1].1@ == decimal(self.config_spec().max_players as nat),
            r@[2].0@ == "name"@ && r@[2].1@ == self.config_spec().name@,
            r@[3].0@ == "public"@ && r@[3].1@ == (if self.config_spec().public { "true"@ } else { "false"@ }),
            r@[4].0@ == "version"@ && r@[4].1@ == "7"@,
            r@[5].0@ == "salt"@ && r@[5].1@ == self.salt_spec(),
            r@[6].0@ == "users"@ && r@[6].1@ == decimal(self@.players.len()),
            r@[7].0@ == "software"@ && r@[7].1@ == "&eDANDELION &70.0.1"@,
            r@[8].0@ == "web"@ && r@[8].1@ == "false"@,
    {
        let users = player_count(&self.connected_players);
        let mut q: Vec<(String, String)> = Vec::new();
        q.push(("port".to_string(), decimal_string(self.config.port as u64)));
        q.push(("max".to_string(), decimal_string(self.config.max_players as u64)));
        q.push(("name".to_string(), self.config.name.clone()));
        q.push(("public".to_string(), if self.config.public { "true".to_string() } else { "false".to_string() }));
        q.push(("version".to_string(), "7".to_string()));
        q.push(("salt".to_string(), self.salt.clone()));
        q.push(("users".to_string(), decimal_string(users as u64)));
        q.push(("software".to_string(), "&eDANDELION &70.0.1".to_string()));
        q.push(("web".to_string(), "false".to_string()));
        q
    }
}

} // verus!
