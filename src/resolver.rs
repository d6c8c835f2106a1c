use vstd::prelude::*;
use crate::codec::{PacketReader, PacketWriter, sbyte_bits, short_be, string_field};
use crate::clientbound::{
    DespawnPlayerPacket, DisconnectPlayerPacket, PingPacket, SpawnPlayerPacket,
    SetBlockPacket as SetBlockUpdate,
};
use crate::serverbound::{
    MessagePacket, PlayerIndentificationPacket, PositionAndOrientationUpdatePacket, SetBlockPacket,
    short_at, string_at, IDENTIFICATION_LEN, MESSAGE_LEN, POSITION_LEN, SET_BLOCK_LEN,
};
use crate::player::{
    Player, PlayerView, gzip_of, level_payload, level_wire, message_bytes, message_wire,
    position_wire,
};
use crate::registry::PacketQueue;
use crate::server::{Server, ServerState, is_free_id};
use crate::text::concat;

verus! {

/// A block update on the wire.
pub open spec fn set_block_wire(x: i16, y: i16, z: i16, b: u8) -> Seq<u8> {
    seq![0x06u8] + short_be(x) + short_be(y) + short_be(z) + seq![b]
}

/// A spawn packet on the wire.
pub open spec fn spawn_wire(id: i8, name: Seq<char>, x: i16, y: i16, z: i16, yaw: u8, pitch: u8) -> Seq<u8> {
    seq![0x07u8, sbyte_bits(id)] + string_field(vstd::utf8::encode_utf8(name)) + short_be(x) + short_be(y)
        + short_be(z) + seq![yaw, pitch]
}

/// The spawn packet that shows player `p` where it stands.
pub open spec fn spawn_wire_of(p: PlayerView) -> Seq<u8> {
    spawn_wire(p.id, p.name, p.pos.0, p.pos.1, p.pos.2, p.yaw, p.pitch)
}

/// The spawn packets of the players listed in `order`, in that order.
pub open spec fn spawns_wire(players: Map<i8, PlayerView>, order: Seq<i8>) -> Seq<u8>
    decreases order.len(),
{
    if order.len() == 0 {
        Seq::empty()
    } else {
        spawns_wire(players, order.drop_last()) + spawn_wire_of(players[order.last()])
    }
}

/// A despawn packet on the wire.
pub open spec fn despawn_wire(id: i8) -> Seq<u8> {
    seq![0x0cu8, sbyte_bits(id)]
}

/// A disconnect packet on the wire.
pub open spec fn disconnect_wire(reason: Seq<char>) -> Seq<u8> {
    seq![0x0eu8] + string_field(vstd::utf8::encode_utf8(reason))
}

/// The server identification on the wire.
pub open spec fn identification_wire(name: Seq<char>, motd: Seq<char>) -> Seq<u8> {
    seq![0x00u8, 0x07u8] + string_field(vstd::utf8::encode_utf8(name)) + string_field(
        vstd::utf8::encode_utf8(motd),
    ) + seq![0x64u8]
}

/// The lines every newcomer is greeted with.
pub open spec fn welcome_wire() -> Seq<u8> {
    message_wire(-1i8, "&fwelcome to this silly server!"@)
        + message_wire(-1i8, "&edandelion &fis a &3server software&f in rust!"@)
        + message_wire(-1i8, "&fcheck the source code bellow!"@)
        + message_wire(-1i8, "&bhttps://github.com/flafmg/dandelion-classic"@)
        + message_wire(-1i8, "&cthis is indevelopment so it may be buggy"@)
}

/// The block a set-block request places: breaking always leaves air.
pub open spec fn applied_block(mode: u8, block_type: u8) -> u8 {
    if mode == 0 { 0 } else { block_type }
}

/// The registries and the broadcast queue together.
pub struct ResolverState {
    pub server: ServerState,
    pub queue: Seq<(Option<i8>, Seq<u8>)>,
}

/// A set-block request from `sender`: the sender's world changes and the
/// others are told, when the cell lies inside it; otherwise nothing happens.
pub open spec fn set_block_effect(s: ResolverState, sender: i8, x: i16, y: i16, z: i16, mode: u8, block_type: u8) -> ResolverState {
    if s.server.players.contains_key(sender) {
        let w = s.server.players[sender].world;
        if s.server.worlds.contains_key(w) && s.server.worlds[w].in_bounds(x, y, z) {
            let b = applied_block(mode, block_type);
            ResolverState {
                server: ServerState {
                    worlds: s.server.worlds.insert(w, s.server.worlds[w].with_block(x, y, z, b)),
                    ..s.server
                },
                queue: s.queue.push((Some(sender), set_block_wire(x, y, z, b))),
            }
        } else {
            s
        }
    } else {
        s
    }
}

/// A movement from `sender`: its record moves and the others are told.
pub open spec fn position_effect(s: ResolverState, sender: i8, x: i16, y: i16, z: i16, yaw: u8, pitch: u8) -> ResolverState {
    if s.server.players.contains_key(sender) {
        ResolverState {
            server: ServerState {
                players: s.server.players.insert(
                    sender,
                    PlayerView { pos: (x, y, z), yaw, pitch, ..s.server.players[sender] },
                ),
                ..s.server
            },
            queue: s.queue.push((Some(sender), position_wire(sender, x, y, z, yaw, pitch))),
        }
    } else {
        s
    }
}

/// The chat line everyone sees when `name` says `msg`.
pub open spec fn chat_line(name: Seq<char>, msg: Seq<char>) -> Seq<char> {
    name + ": "@ + msg
}

/// A chat line from `sender`: relayed to everyone, the sender included.
pub open spec fn message_effect(s: ResolverState, sender: i8, msg: Seq<char>) -> ResolverState {
    if s.server.players.contains_key(sender) {
        ResolverState {
            queue: s.queue.push(
                (None, message_wire(sender, chat_line(s.server.players[sender].name, msg))),
            ),
            ..s
        }
    } else {
        s
    }
}

/// A session closing: its player leaves and everyone is told.
pub open spec fn disconnect_effect(s: ResolverState, id: i8) -> ResolverState {
    if s.server.players.contains_key(id) {
        ResolverState {
            server: ServerState { players: s.server.players.remove(id), ..s.server },
            queue: s.queue.push((None, despawn_wire(id))).push(
                (None, message_wire(-1i8, "goodbye "@ + s.server.players[id].name)),
            ),
        }
    } else {
        s
    }
}

/// What a session's frame leads to, for that session.
pub struct Reply {
    /// Bytes for the session, to be written in one piece.
    pub to_sender: Vec<u8>,
    /// The id the session now plays as, after an identification.
    pub joined: Option<i8>,
    /// Whether the session is to be closed.
    pub close: bool,
}

/// A successful join of `name` as player `id`, where `order` is the order in
/// which the players already there are shown to the newcomer.
pub open spec fn joined_as(
    s: ResolverState,
    default_map: Seq<char>,
    server_name: Seq<char>,
    server_motd: Seq<char>,
    name: Seq<char>,
    id: i8,
    order: Seq<i8>,
    t: ResolverState,
    to_sender: Seq<u8>,
    joined: Option<i8>,
    close: bool,
) -> bool {
    let w = s.server.worlds[default_map];
    &&& is_free_id(s.server.players, id as int)
    &&& forall|j: int| 0 <= j < id ==> !is_free_id(s.server.players, j)
    &&& order.no_duplicates()
    &&& order.to_set() == s.server.players.dom()
    &&& joined == Some(id)
    &&& !close
    &&& t.server == ServerState {
        players: s.server.players.insert(
            id,
            PlayerView { id, name, world: default_map, pos: w.spawn, yaw: 0, pitch: 0 },
        ),
        ..s.server
    }
    &&& t.queue == s.queue.push(
        (Some(id), spawn_wire(id, name, w.spawn.0, w.spawn.1, w.spawn.2, 0, 0)),
    ).push((None, message_wire(-1i8, "welcome "@ + name + "!"@)))
    &&& to_sender == identification_wire(server_name, server_motd) + level_wire(
        gzip_of(level_payload(w.blocks)),
        w.size.0,
        w.size.1,
        w.size.2,
    ) + position_wire(-1i8, w.spawn.0, w.spawn.1, w.spawn.2, 0, 0) + spawns_wire(
        s.server.players,
        order,
    ) + welcome_wire()
}

/// The outcome of an identification by `name`, from state `s` to `t`. With
/// no free id the session is refused; without the default world, or when
/// its block count does not fit in 32 bits, it is answered and closed;
/// otherwise the player joins with the lowest free id.
pub open spec fn connect_result(
    s: ResolverState,
    default_map: Seq<char>,
    server_name: Seq<char>,
    server_motd: Seq<char>,
    name: Seq<char>,
    t: ResolverState,
    to_sender: Seq<u8>,
    joined: Option<i8>,
    close: bool,
) -> bool {
    let refused = {
        &&& t == s
        &&& to_sender == identification_wire(server_name, server_motd) + disconnect_wire(
            "world unavailable"@,
        )
        &&& joined is None
        &&& close
    };
    if forall|j: int| 0 <= j <= 127 ==> !is_free_id(s.server.players, j) {
        &&& t == s
        &&& to_sender == disconnect_wire("server full"@)
        &&& joined is None
        &&& close
    } else if !s.server.worlds.contains_key(default_map) {
        refused
    } else if s.server.worlds[default_map].blocks.len() > u32::MAX {
        refused
    } else {
        exists|id: i8, order: Seq<i8>|
            #[trigger] joined_as(
                s,
                default_map,
                server_name,
                server_motd,
                name,
                id,
                order,
                t,
                to_sender,
                joined,
                close,
            )
    }
}

/// How long a client frame that starts with `id` is, for the ids this
/// server reads.
pub open spec fn frame_len_spec(id: u8) -> Option<usize> {
    if id == 0x00 {
        Some(IDENTIFICATION_LEN)
    } else if id == 0x05 {
        Some(SET_BLOCK_LEN)
    } else if id == 0x08 {
        Some(POSITION_LEN)
    } else if id == 0x0d {
        Some(MESSAGE_LEN)
    } else {
        None
    }
}

/// The length of a client frame that starts with `id`; `None` for an id this
/// server does not read.
pub fn frame_len(id: u8) -> (r: Option<usize>)
    ensures
        r == frame_len_spec(id),
{
    if id == 0x00 {
        Some(IDENTIFICATION_LEN)
    } else if id == 0x05 {
        Some(SET_BLOCK_LEN)
    } else if id == 0x08 {
        Some(POSITION_LEN)
    } else if id == 0x0d {
        Some(MESSAGE_LEN)
    } else {
        None
    }
}

/// What the bytes at the head of a session's input hold.
pub enum FrameStep {
    /// A whole frame of this many bytes.
    Frame(usize),
    /// The start of a frame; more bytes are needed.
    NeedMore,
    /// An id this server does not read: the rest cannot be framed.
    Unknown,
}

/// Splits the next frame off `buf`, by its id and declared length.
pub fn next_frame(buf: &[u8]) -> (r: FrameStep)
    ensures
        buf@.len() == 0 ==> r is NeedMore,
        buf@.len() > 0 ==> match frame_len_spec(buf@[0]) {
            None => r is Unknown,
            Some(n) => if buf@.len() >= n {
                r == FrameStep::Frame(n)
            } else {
                r is NeedMore
            },
        },
{
    if buf.len() == 0 {
        return FrameStep::NeedMore;
    }
    match frame_len(buf[0]) {
        None => FrameStep::Unknown,
        Some(n) => if buf.len() >= n {
            FrameStep::Frame(n)
        } else {
            FrameStep::NeedMore
        },
    }
}

/// The keepalive packet.
pub fn ping_bytes() -> (r: Vec<u8>)
    ensures
        r@ == seq![0x01u8],
{
    let mut p = PingPacket::new();
    let mut w = PacketWriter::new();
    p.write(&mut w);
    let r = w.into_inner();
    assert(r@ =~= seq![0x01u8]);
    r
}

fn disconnect_bytes(reason: &str) -> (r: Vec<u8>)
    ensures
        r@ == disconnect_wire(reason@),
{
    let mut p = DisconnectPlayerPacket::new(reason.to_string());
    let mut w = PacketWriter::new();
    p.write(&mut w);
    w.into_inner()
}

fn spawn_bytes(p: &Player) -> (r: Vec<u8>)
    ensures
        r@ == spawn_wire_of(p@),
{
    let (x, y, z, yaw, pitch) = p.get_pos();
    let mut packet = SpawnPlayerPacket::new(p.get_id(), p.get_name().to_string(), x, y, z, yaw, pitch);
    let mut w = PacketWriter::new();
    packet.write(&mut w);
    w.into_inner()
}

/// Turns frames into registry changes, replies and broadcasts.
pub struct PacketResolver {
    pub server: Server,
    pub packet_queue: PacketQueue,
}

impl PacketResolver {
    pub open spec fn state(&self) -> ResolverState {
        ResolverState { server: self.server@, queue: self.packet_queue@ }
    }

    pub open spec fn wf(&self) -> bool {
        self.server.wf()
    }

    /// The settings and salt stay as they were.
    pub open spec fn same_setup(&self, other: &PacketResolver) -> bool {
        self.server.config_spec() == other.server.config_spec() && self.server.salt_spec()
            == other.server.salt_spec()
    }

    pub fn new(server: Server) -> (r: Self)
        requires
            server.wf(),
        ensures
            r.wf(),
            r.server == server,
            r.packet_queue@ == Seq::<(Option<i8>, Seq<u8>)>::empty(),
    {
        PacketResolver { server, packet_queue: PacketQueue::new() }
    }

    /// Applies a set-block request from player `sender`.
    pub fn handle_set_block(&mut self, sender: i8, packet: &SetBlockPacket)
        requires
            old(self).wf(),
        ensures
            final(self).wf(),
            final(self).same_setup(old(self)),
            final(self).state() == set_block_effect(
                old(self).state(),
                sender,
                packet.x,
                packet.y,
                packet.z,
                packet.mode,
                packet.block_type,
            ),
    {
        let player = match self.server.get_player(sender) {
            Some(p) => p,
            None => {
                return ;
            },
        };
        let world_name = player.get_current_world().to_string();
        let mut world = match self.server.unload_map(world_name.as_str()) {
            Some(w) => w,
            None => {
                assert(self.server@.worlds =~= old(self).server@.worlds);
                return ;
            },
        };
        let x = packet.x;
        let y = packet.y;
        let z = packet.z;
        let block = if packet.mode == 0x00 { 0x00 } else { packet.block_type };
        let inside = 0 <= x && x < world.x_size && 0 <= y && y < world.y_size && 0 <= z && z
            < world.z_size;
        world.set_block(x, y, z, block);
        let ghost edited = world@;
        self.server.load_map(world_name, world);
        assert(self.server@.worlds =~= old(self).server@.worlds.insert(world_name@, edited));
        if inside {
            let mut update = SetBlockUpdate::new(x, y, z, block);
            let mut w = PacketWriter::new();
            update.write(&mut w);
            self.packet_queue.enqueue(Some(sender), w.into_inner());
        } else {
            assert(self.server@.worlds =~= old(self).server@.worlds);
        }
    }

    /// Applies a movement from player `sender`.
    pub fn handle_position_and_orientation(&mut self, sender: i8, packet: &PositionAndOrientationUpdatePacket)
        requires
            old(self).wf(),
        ensures
            final(self).wf(),
            final(self).same_setup(old(self)),
            final(self).state() == position_effect(
                old(self).state(),
                sender,
                packet.x,
                packet.y,
                packet.z,
                packet.yaw,
                packet.pitch,
            ),
    {
        if !self.server.has_player(sender) {
            return ;
        }
        self.server.set_player_pos(sender, packet.x, packet.y, packet.z, packet.pitch, packet.yaw);
        let mut update = crate::clientbound::SetPositionAndOrientationPacket::new(
            sender,
            packet.x,
            packet.y,
            packet.z,
            packet.yaw,
            packet.pitch,
        );
        let mut w = PacketWriter::new();
        update.write(&mut w);
        let bytes = w.into_inner();
        assert(bytes@ =~= position_wire(sender, packet.x, packet.y, packet.z, packet.yaw, packet.pitch));
        self.packet_queue.enqueue(Some(sender), bytes);
    }

    /// Relays a chat line from player `sender` to everyone.
    pub fn handle_message(&mut self, sender: i8, packet: &MessagePacket)
        requires
            old(self).wf(),
        ensures
            final(self).wf(),
            final(self).same_setup(old(self)),
            final(self).state() == message_effect(old(self).state(), sender, packet.message@),
    {
        let player = match self.server.get_player(sender) {
            Some(p) => p,
            None => {
                return ;
            },
        };
        let head = concat(player.get_name(), ": ");
        let line = concat(head.as_str(), packet.message.as_str());
        self.packet_queue.enqueue(None, message_bytes(sender, line));
    }

    /// Closes the session of player `id`: it leaves the registry, and
    /// everyone is told it despawned and said goodbye.
    pub fn despawn_player(&mut self, id: i8)
        requires
            old(self).wf(),
        ensures
            final(self).wf(),
            final(self).same_setup(old(self)),
            final(self).state() == disconnect_effect(old(self).state(), id),
    {
        let player = match self.server.remove_player(id) {
            Some(p) => p,
            None => {
                assert(self.server@.players =~= old(self).server@.players);
                return ;
            },
        };
        let mut despawn = DespawnPlayerPacket::new(id);
        let mut w = PacketWriter::new();
        despawn.write(&mut w);
        let bytes = w.into_inner();
        assert(bytes@ =~= despawn_wire(id));
        self.packet_queue.enqueue(None, bytes);
        let line = concat("goodbye ", player.get_name());
        self.packet_queue.enqueue(None, message_bytes(-1, line));
    }

    /// Runs the join of a client that sent `packet`.
    pub fn player_connect(&mut self, packet: &PlayerIndentificationPacket) -> (r: Reply)
        requires
            old(self).wf(),
        ensures
            final(self).wf(),
            final(self).same_setup(old(self)),
            connect_result(
                old(self).state(),
                old(self).server.config_spec().default_map@,
                packet.server_name@,
                packet.server_motd@,
                packet.username@,
                final(self).state(),
                r.to_sender@,
                r.joined,
                r.close,
            ),
    {
        let id = match self.server.get_last_id() {
            Some(i) => i,
            None => {
                return Reply { to_sender: disconnect_bytes("server full"), joined: None, close: true };
            },
        };
        let mut sid = packet.response();
        let mut w = PacketWriter::new();
        sid.write(&mut w);
        let mut out = w.into_inner();
        assert(out@ =~= identification_wire(packet.server_name@, packet.server_motd@));
        let default_map = self.server.config().default_map.clone();
        let world = match self.server.unload_map(default_map.as_str()) {
            Some(m) => m,
            None => {
                assert(self.server@.worlds =~= old(self).server@.worlds);
                assert(self.state() == old(self).state());
                assert(is_free_id(old(self).state().server.players, id as int));
                let mut d = disconnect_bytes("world unavailable");
                out.append(&mut d);
                return Reply { to_sender: out, joined: None, close: true };
            },
        };
        let name = packet.username.clone();
        let mut player = Player::new(id, name.clone(), default_map.clone());
        let level = player.send_to_level(&world);
        let sx = world.x_spawn;
        let sy = world.y_spawn;
        let sz = world.z_spawn;
        let ghost wv = world@;
        self.server.load_map(default_map.clone(), world);
        assert(self.server@.worlds =~= old(self).server@.worlds);
        assert(self.state() == old(self).state());
        let mut level = match level {
            Some(l) => l,
            None => {
                assert(is_free_id(old(self).state().server.players, id as int));
                assert(wv.blocks.len() > u32::MAX);
                let mut d = disconnect_bytes("world unavailable");
                out.append(&mut d);
                return Reply { to_sender: out, joined: None, close: true };
            },
        };
        out.append(&mut level);
        let mut tp = player.teleport(sx, sy, sz, 0, 0);
        out.append(&mut tp);
        let ids = self.server.player_ids();
        let ghost prefix = out@;
        let mut i: usize = 0;
        while i < ids.len()
            invariant
                self.wf(),
                self.state() == old(self).state(),
                self.same_setup(old(self)),
                i <= ids@.len(),
                ids@.to_set() == old(self).server@.players.dom(),
                out@ == prefix + spawns_wire(old(self).server@.players, ids@.subrange(0, i as int)),
            decreases ids@.len() - i,
        {
            let k = ids[i];
            assert(ids@.to_set().contains(k));
            match self.server.get_player(k) {
                Some(p) => {
                    let mut b = spawn_bytes(&p);
                    out.append(&mut b);
                },
                None => {
                    assert(false);
                },
            }
            assert(ids@.subrange(0, i + 1).drop_last() =~= ids@.subrange(0, i as int));
            i = i + 1;
        }
        assert(ids@.subrange(0, i as int) =~= ids@);
        self.server.add_player(player);
        let mut spawn = SpawnPlayerPacket::new(id, name.clone(), sx, sy, sz, 0, 0);
        let mut sw = PacketWriter::new();
        spawn.write(&mut sw);
        let spawned = sw.into_inner();
        assert(spawned@ =~= spawn_wire(id, name@, sx, sy, sz, 0, 0));
        self.packet_queue.enqueue(Some(id), spawned);
        let greeting = concat("welcome ", name.as_str());
        let banner = concat(greeting.as_str(), "!");
        self.packet_queue.enqueue(None, message_bytes(-1, banner));
        let mut w0 = message_bytes(-1, "&fwelcome to this silly server!".to_string());
        out.append(&mut w0);
        let mut w1 = message_bytes(-1, "&edandelion &fis a &3server software&f in rust!".to_string());
        out.append(&mut w1);
        let mut w2 = message_bytes(-1, "&fcheck the source code bellow!".to_string());
        out.append(&mut w2);
        let mut w3 = message_bytes(-1, "&bhttps://github.com/flafmg/dandelion-classic".to_string());
        out.append(&mut w3);
        let mut w4 = message_bytes(-1, "&cthis is indevelopment so it may be buggy".to_string());
        out.append(&mut w4);
        let r = Reply { to_sender: out, joined: Some(id), close: false };
        assert(r.to_sender@ =~= identification_wire(packet.server_name@, packet.server_motd@) + level_wire(
            gzip_of(level_payload(wv.blocks)),
            wv.size.0,
            wv.size.1,
            wv.size.2,
        ) + position_wire(-1i8, wv.spawn.0, wv.spawn.1, wv.spawn.2, 0, 0) + spawns_wire(
            old(self).server@.players,
            ids@,
        ) + welcome_wire());
        assert(joined_as(
            old(self).state(),
            old(self).server.config_spec().default_map@,
            packet.server_name@,
            packet.server_motd@,
            packet.username@,
            id,
            ids@,
            self.state(),
            r.to_sender@,
            r.joined,
            r.close,
        ));
        r
    }

    /// Handles one client frame. `session` is the id the session plays as,
    /// once it has identified. An identification is read only before that,
    /// the other frames only after it; frames that are short, unknown or out
    /// of turn change nothing and get no answer.
    pub fn handle_packet(&mut self, session: Option<i8>, data: &[u8]) -> (r: Reply)
        requires
            old(self).wf(),
        ensures
            final(self).wf(),
            final(self).same_setup(old(self)),
            ({
                let b = data@;
                let s = old(self).state();
                let t = final(self).state();
                let silent = r.to_sender@.len() == 0 && r.joined is None && !r.close;
                if b.len() > 0 && b[0] == 0x00 && session is None && b.len() >= IDENTIFICATION_LEN {
                    connect_result(
                        s,
                        old(self).server.config_spec().default_map@,
                        old(self).server.config_spec().name@,
                        old(self).server.config_spec().motd@,
                        string_at(b, 2),
                        t,
                        r.to_sender@,
                        r.joined,
                        r.close,
                    )
                } else if b.len() > 0 && b[0] == 0x05 && session is Some && b.len() >= SET_BLOCK_LEN {
                    silent && t == set_block_effect(
                        s,
                        session->0,
                        short_at(b, 1),
                        short_at(b, 3),
                        short_at(b, 5),
                        b[7],
                        b[8],
                    )
                } else if b.len() > 0 && b[0] == 0x08 && session is Some && b.len() >= POSITION_LEN {
                    silent && t == position_effect(
                        s,
                        session->0,
                        short_at(b, 2),
                        short_at(b, 4),
                        short_at(b, 6),
                        b[8],
                        b[9],
                    )
                } else if b.len() > 0 && b[0] == 0x0d && session is Some && b.len() >= MESSAGE_LEN {
                    silent && t == message_effect(s, session->0, string_at(b, 2))
                } else {
                    silent && t == s
                }
            }),
    {
        let silent = Reply { to_sender: Vec::new(), joined: None, close: false };
        if data.len() == 0 {
            return silent;
        }
        let id = data[0];
        let mut reader = PacketReader::new(data);
        match session {
            None => {
                if id == 0x00 && data.len() >= IDENTIFICATION_LEN {
                    let config = self.server.config();
                    let mut packet = PlayerIndentificationPacket::new(
                        config.name.clone(),
                        config.motd.clone(),
                    );
                    packet.read(&mut reader);
                    self.player_connect(&packet)
                } else {
                    silent
                }
            },
            Some(sender) => {
                if id == 0x05 && data.len() >= SET_BLOCK_LEN {
                    let mut packet = SetBlockPacket::new();
                    packet.read(&mut reader);
                    self.handle_set_block(sender, &packet);
                    silent
                } else if id == 0x08 && data.len() >= POSITION_LEN {
                    let mut packet = PositionAndOrientationUpdatePacket::new();
                    packet.read(&mut reader);
                    self.handle_position_and_orientation(sender, &packet);
                    silent
                } else if id == 0x0d && data.len() >= MESSAGE_LEN {
                    let mut packet = MessagePacket::new();
                    packet.read(&mut reader);
                    self.handle_message(sender, &packet);
                    silent
                } else {
                    silent
                }
            },
        }
    }

    /// Takes the oldest queued broadcast and says who receives it: every
    /// connected player but the one it excludes.
    pub fn next_broadcast(&mut self) -> (r: Option<(Vec<i8>, Vec<u8>)>)
        requires
            old(self).wf(),
        ensures
            final(self).wf(),
            final(self).same_setup(old(self)),
            final(self).server@ == old(self).server@,
            old(self).packet_queue@.len() == 0 ==> r is None && final(self).packet_queue@
                == old(self).packet_queue@,
            old(self).packet_queue@.len() > 0 ==> (r matches Some(item) && {
                let (excluded, bytes) = old(self).packet_queue@[0];
                &&& item.1@ == bytes
                &&& item.0@.no_duplicates()
                &&& forall|k: i8|
                    item.0@.contains(k) <==> (old(self).server@.players.contains_key(k)
                        && excluded != Some(k))
                &&& final(self).packet_queue@ == old(self).packet_queue@.drop_first()
            }),
    {
        match self.packet_queue.dequeue() {
            Some(item) => {
                let to = self.recipients(item.excluded);
                Some((to, item.data))
            },
            None => None,
        }
    }

    /// The players a broadcast reaches: everyone but `excluded`.
    pub fn recipients(&self, excluded: Option<i8>) -> (r: Vec<i8>)
        ensures
            r@.no_duplicates(),
            forall|k: i8|
                r@.contains(k) <==> (self.server@.players.contains_key(k) && excluded != Some(k)),
    {
        let ids = self.server.player_ids();
        let mut out: Vec<i8> = Vec::new();
        let mut i: usize = 0;
        while i < ids.len()
            invariant
                i <= ids@.len(),
                ids@.no_duplicates(),
                ids@.to_set() == self.server@.players.dom(),
                out@.no_duplicates(),
                forall|k: i8|
                    out@.contains(k) <==> (ids@.subrange(0, i as int).contains(k) && excluded
                        != Some(k)),
            decreases ids@.len() - i,
        {
            let k = ids[i];
            let ghost before = out@;
            let ghost pre = ids@.subrange(0, i as int);
            let ghost nxt = ids@.subrange(0, i + 1);
            assert forall|q: i8| nxt.contains(q) <==> (pre.contains(q) || q == k) by {
                if nxt.contains(q) {
                    let j = choose|j: int| 0 <= j < nxt.len() && #[trigger] nxt[j] == q;
                    if j < i {
                        assert(pre[j] == q);
                    }
                }
                if pre.contains(q) {
                    let j = choose|j: int| 0 <= j < pre.len() && #[trigger] pre[j] == q;
                    assert(nxt[j] == q);
                }
                if q == k {
                    assert(nxt[i as int] == q);
                }
            }
            if excluded != Some(k) {
                assert(!before.contains(k)) by {
                    if pre.contains(k) {
                        let j = choose|j: int| 0 <= j < pre.len() && #[trigger] pre[j] == k;
                        assert(ids@[j] == ids@[i as int]);
                    }
                }
                out.push(k);
                assert forall|q: i8| out@.contains(q) <==> (before.contains(q) || q == k) by {
                    if out@.contains(q) {
                        let j = choose|j: int| 0 <= j < out@.len() && #[trigger] out@[j] == q;
                        if j < before.len() {
                            assert(before[j] == q);
                        }
                    }
                    if before.contains(q) {
                        let j = choose|j: int| 0 <= j < before.len() && #[trigger] before[j] == q;
                        assert(out@[j] == q);
                    }
                    if q == k {
                        assert(out@[before.len() as int] == q);
                    }
                }
            }
            assert forall|q: i8| out@.contains(q) <==> (nxt.contains(q) && excluded != Some(q)) by {
                if excluded != Some(k) {
                    assert(out@.contains(q) <==> (before.contains(q) || q == k));
                } else {
                    assert(out@ == before);
                }
                assert(nxt.contains(q) <==> (pre.contains(q) || q == k));
                assert(before.contains(q) <==> (pre.contains(q) && excluded != Some(q)));
            }
            i = i + 1;
        }
        proof {
            assert(ids@.subrange(0, i as int) =~= ids@);
            assert forall|k: i8| ids@.contains(k) <==> self.server@.players.contains_key(k) by {
                if ids@.contains(k) {
                    assert(ids@.to_set().contains(k));
                }
                if self.server@.players.contains_key(k) {
                    assert(ids@.to_set().contains(k));
                }
            }
        }
        out
    }
}

} // verus!
