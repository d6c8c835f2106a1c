use vstd::prelude::*;
use crate::codec::{PacketWriter, pad_to, sbyte_bits, short_be, string_field, BYTE_ARRAY_LEN};
use crate::clientbound::{
    LevelDataChunkPacket, LevelFinalizePacket, LevelInitializePacket, MessagePacket,
    SetPositionAndOrientationPacket,
};
use crate::dmf_map::DmfMap;

verus! {

/// A chat line on the wire.
pub open spec fn message_wire(source: i8, text: Seq<char>) -> Seq<u8> {
    seq![0x0du8, sbyte_bits(source)] + string_field(vstd::utf8::encode_utf8(text))
}

/// A position-and-orientation packet on the wire.
pub open spec fn position_wire(id: i8, x: i16, y: i16, z: i16, yaw: u8, pitch: u8) -> Seq<u8> {
    seq![0x08u8, sbyte_bits(id)] + short_be(x) + short_be(y) + short_be(z) + seq![yaw, pitch]
}

/// The big-endian bytes of a 32-bit length.
pub open spec fn u32_be(n: nat) -> Seq<u8> {
    seq![
        (n / 16777216 % 256) as u8,
        (n / 65536 % 256) as u8,
        (n / 256 % 256) as u8,
        (n % 256) as u8,
    ]
}

/// What is compressed for a level transfer: the block count, then the blocks.
pub open spec fn level_payload(blocks: Seq<u8>) -> Seq<u8> {
    u32_be(blocks.len()) + blocks
}

/// The bytes that gzip with default compression makes of `b`.
pub uninterp spec fn gzip_of(b: Seq<u8>) -> Seq<u8>;

/// Relies on flate2's `GzEncoder` (default compression, writing into a `Vec`)
/// for the gzip stream of `data`. flate2 fixes the header's time and system
/// bytes, so the stream depends on `data` alone; it always holds the 10-byte
/// header and the 8-byte trailer. Writing into a `Vec` does not fail.
#[verifier::external_body]
fn gzip(data: &[u8]) -> (r: Vec<u8>)
    ensures
        r@ == gzip_of(data@),
        r@.len() >= 18,
{
    let mut encoder = flate2::write::GzEncoder::new(Vec::new(), flate2::Compression::default());
    std::io::Write::write_all(&mut encoder, data).unwrap();
    encoder.finish().unwrap()
}

/// Bytes per level chunk.
pub const CHUNK_SIZE: usize = 1024;

/// How many chunks `n` compressed bytes take.
pub open spec fn chunk_count(n: nat) -> nat {
    ((n + 1023) / 1024) as nat
}

/// How many real bytes chunk `i` of `n` holds.
pub open spec fn chunk_len(n: nat, i: nat) -> nat {
    if n >= i * 1024 + 1024 {
        1024
    } else {
        (n - i * 1024) as nat
    }
}

/// The real bytes of chunk `i`.
pub open spec fn chunk_payload(c: Seq<u8>, i: nat) -> Seq<u8> {
    c.subrange((i * 1024) as int, (i * 1024 + chunk_len(c.len(), i)) as int)
}

/// Percentage of the transfer done once chunk `i` is sent.
pub open spec fn chunk_percent(n: nat, i: nat) -> u8 {
    ((i * 1024 + chunk_len(n, i)) * 100 / n) as u8
}

/// Chunk `i` of the compressed level `c` on the wire.
pub open spec fn chunk_wire(c: Seq<u8>, i: nat) -> Seq<u8> {
    seq![0x03u8] + short_be(chunk_len(c.len(), i) as i16) + pad_to(chunk_payload(c, i), 1024, 0)
        + seq![chunk_percent(c.len(), i)]
}

/// The first `k` chunks of `c` on the wire.
pub open spec fn chunks_wire(c: Seq<u8>, k: nat) -> Seq<u8>
    decreases k,
{
    if k == 0 {
        Seq::empty()
    } else {
        chunks_wire(c, (k - 1) as nat) + chunk_wire(c, (k - 1) as nat)
    }
}

/// The real bytes of the first `k` chunks, joined.
pub open spec fn chunk_payloads(c: Seq<u8>, k: nat) -> Seq<u8>
    decreases k,
{
    if k == 0 {
        Seq::empty()
    } else {
        chunk_payloads(c, (k - 1) as nat) + chunk_payload(c, (k - 1) as nat)
    }
}

/// A whole level transfer of compressed bytes `c`: initialize, every chunk
/// in order, then one finalize with the world's size.
pub open spec fn level_wire(c: Seq<u8>, xs: i16, ys: i16, zs: i16) -> Seq<u8> {
    seq![0x02u8] + chunks_wire(c, chunk_count(c.len())) + seq![0x04u8] + short_be(xs) + short_be(ys)
        + short_be(zs)
}

proof fn lemma_chunk_payloads_prefix(c: Seq<u8>, k: nat)
    requires
        k <= chunk_count(c.len()),
    ensures
        k * 1024 <= c.len() ==> chunk_payloads(c, k) == c.subrange(0, (k * 1024) as int),
        k * 1024 > c.len() ==> chunk_payloads(c, k) == c,
    decreases k,
{
    if k > 0 {
        lemma_chunk_payloads_prefix(c, (k - 1) as nat);
        assert(chunk_payloads(c, k) =~= if k * 1024 <= c.len() {
            c.subrange(0, (k * 1024) as int)
        } else {
            c
        });
    } else {
        assert(chunk_payloads(c, 0) =~= c.subrange(0, 0));
    }
}

/// Each chunk carries exactly 1024 data bytes; their first `chunk_length`
/// bytes, joined in order, are the compressed level again.
pub proof fn lemma_chunks_reassemble(c: Seq<u8>)
    ensures
        forall|i: nat|
            i < chunk_count(c.len()) ==> {
                &&& #[trigger] pad_to(chunk_payload(c, i), 1024, 0).len() == 1024
                &&& pad_to(chunk_payload(c, i), 1024, 0).subrange(0, chunk_len(c.len(), i) as int)
                    == chunk_payload(c, i)
            },
        chunk_payloads(c, chunk_count(c.len())) == c,
{
    assert forall|i: nat| i < chunk_count(c.len()) implies {
        &&& #[trigger] pad_to(chunk_payload(c, i), 1024, 0).len() == 1024
        &&& pad_to(chunk_payload(c, i), 1024, 0).subrange(0, chunk_len(c.len(), i) as int)
            == chunk_payload(c, i)
    } by {
        assert(chunk_payload(c, i).len() == chunk_len(c.len(), i));
        assert(pad_to(chunk_payload(c, i), 1024, 0).subrange(0, chunk_len(c.len(), i) as int)
            =~= chunk_payload(c, i));
    }
    lemma_chunk_payloads_prefix(c, chunk_count(c.len()));
    if chunk_count(c.len()) * 1024 <= c.len() {
        assert(c.subrange(0, (chunk_count(c.len()) * 1024) as int) =~= c);
    }
}

proof fn lemma_chunk_wire_len(c: Seq<u8>, i: nat)
    requires
        i < chunk_count(c.len()),
    ensures
        chunk_wire(c, i).len() == 1028,
        chunk_wire(c, i)[0] == 0x03,
{
}

proof fn lemma_chunks_wire_layout(c: Seq<u8>, k: nat)
    requires
        k <= chunk_count(c.len()),
    ensures
        chunks_wire(c, k).len() == 1028 * k,
        forall|i: nat|
            i < k ==> chunks_wire(c, k).subrange(1028 * (i as int), 1028 * (i as int + 1)) == #[trigger] chunk_wire(c, i),
    decreases k,
{
    if k > 0 {
        let k1 = (k - 1) as nat;
        lemma_chunks_wire_layout(c, k1);
        lemma_chunk_wire_len(c, k1);
        let prev = chunks_wire(c, k1);
        let all = chunks_wire(c, k);
        assert forall|i: nat| i < k implies all.subrange(1028 * (i as int), 1028 * (i as int + 1)) == #[trigger] chunk_wire(c, i) by {
            if i < k1 {
                assert(all.subrange(1028 * (i as int), 1028 * (i as int + 1)) =~= prev.subrange(1028 * (i as int), 1028 * (i as int + 1)));
            } else {
                assert(all.subrange(1028 * (i as int), 1028 * (i as int + 1)) =~= chunk_wire(c, i));
            }
        }
    }
}

/// A level transfer is one initialize packet, then one 1028-byte chunk
/// packet per 1024 compressed bytes, in order, then exactly one finalize
/// packet; nothing else is interleaved.
pub proof fn lemma_level_framing(c: Seq<u8>, xs: i16, ys: i16, zs: i16)
    ensures
        ({
            let w = level_wire(c, xs, ys, zs);
            let n = chunk_count(c.len());
            &&& c.len() > 0 ==> n >= 1
            &&& w.len() == 1 + 1028 * n + 7
            &&& w[0] == 0x02
            &&& forall|i: nat|
                i < n ==> w.subrange(1 + 1028 * (i as int), 1 + 1028 * (i as int + 1)) == #[trigger] chunk_wire(c, i)
                    && chunk_wire(c, i)[0] == 0x03
            &&& w.subrange(1 + 1028 * (n as int), w.len() as int) == seq![0x04u8] + short_be(xs) + short_be(ys)
                + short_be(zs)
        }),
{
    let n = chunk_count(c.len());
    let w = level_wire(c, xs, ys, zs);
    let body = chunks_wire(c, n);
    lemma_chunks_wire_layout(c, n);
    assert forall|i: nat| i < n implies w.subrange(1 + 1028 * (i as int), 1 + 1028 * (i as int + 1)) == #[trigger] chunk_wire(c, i)
        && chunk_wire(c, i)[0] == 0x03 by {
        lemma_chunk_wire_len(c, i);
        assert(w.subrange(1 + 1028 * (i as int), 1 + 1028 * (i as int + 1)) =~= body.subrange(1028 * (i as int), 1028 * (i as int + 1)));
    }
    assert(w.subrange(1 + 1028 * (n as int), w.len() as int) =~= seq![0x04u8] + short_be(xs) + short_be(ys) + short_be(zs));
}

/// Writes the chunks of compressed level `c` into `writer`.
pub fn write_level_chunks(c: &Vec<u8>, writer: &mut PacketWriter)
    ensures
        final(writer)@ == old(writer)@ + chunks_wire(c@, chunk_count(c@.len())),
{
    let n = c.len();
    let count: usize = n / CHUNK_SIZE + if n % CHUNK_SIZE == 0 { 0 } else { 1 };
    assert(count == chunk_count(n as nat));
    let mut i: usize = 0;
    while i < count
        invariant
            n == c@.len(),
            count == chunk_count(n as nat),
            i <= count,
            writer@ == old(writer)@ + chunks_wire(c@, i as nat),
        decreases count - i,
    {
        let start: usize = i * CHUNK_SIZE;
        let len: usize = if n - start >= CHUNK_SIZE { CHUNK_SIZE } else { n - start };
        assert(len == chunk_len(n as nat, i as nat));
        let mut data: Vec<u8> = Vec::new();
        let mut k: usize = 0;
        while k < CHUNK_SIZE
            invariant
                n == c@.len(),
                start + len <= n,
                len <= CHUNK_SIZE,
                k <= CHUNK_SIZE,
                data@ == pad_to(c@.subrange(start as int, start + len), 1024, 0).subrange(0, k as int),
            decreases CHUNK_SIZE - k,
        {
            let b: u8 = if k < len { c[start + k] } else { 0 };
            data.push(b);
            k = k + 1;
            assert(data@ =~= pad_to(c@.subrange(start as int, start + len), 1024, 0).subrange(0, k as int));
        }
        let done: u128 = (start + len) as u128;
        let percent: u128 = done * 100 / (n as u128);
        assert(percent <= 100) by (nonlinear_arith)
            requires
                done <= n,
                n > 0,
                percent == done * 100 / (n as int),
        ;
        let mut packet = LevelDataChunkPacket::new(len as i16, data, percent as u8);
        let ghost before = writer@;
        packet.write(writer);
        proof {
            assert(pad_to(c@.subrange(start as int, start + len), 1024, 0).subrange(0, 1024)
                =~= pad_to(chunk_payload(c@, i as nat), 1024, 0));
            assert(pad_to(pad_to(chunk_payload(c@, i as nat), 1024, 0), BYTE_ARRAY_LEN as nat, 0)
                =~= pad_to(chunk_payload(c@, i as nat), 1024, 0));
            assert(writer@ =~= old(writer)@ + chunks_wire(c@, (i + 1) as nat));
        }
        i = i + 1;
    }
}

/// The bytes of a chat line from `source`.
pub fn message_bytes(source: i8, text: String) -> (r: Vec<u8>)
    ensures
        r@ == message_wire(source, text@),
{
    let mut packet = MessagePacket::new(source, text);
    let mut writer = PacketWriter::new();
    packet.write(&mut writer);
    writer.into_inner()
}

/// Big-endian bytes of a length that fits in 32 bits.
fn push_u32_be(out: &mut Vec<u8>, n: u32)
    ensures
        final(out)@ == old(out)@ + u32_be(n as nat),
{
    out.push((n / 16777216 % 256) as u8);
    out.push((n / 65536 % 256) as u8);
    out.push((n / 256 % 256) as u8);
    out.push((n % 256) as u8);
    assert(out@ =~= old(out)@ + u32_be(n as nat));
}

/// The block count, big-endian, then the blocks.
pub fn level_prefix(blocks: &Vec<u8>) -> (r: Vec<u8>)
    requires
        blocks@.len() <= u32::MAX,
    ensures
        r@ == level_payload(blocks@),
{
    let mut out: Vec<u8> = Vec::new();
    push_u32_be(&mut out, blocks.len() as u32);
    let ghost head = out@;
    let mut i: usize = 0;
    while i < blocks.len()
        invariant
            i <= blocks@.len(),
            out@ == head + blocks@.subrange(0, i as int),
        decreases blocks@.len() - i,
    {
        out.push(blocks[i]);
        i = i + 1;
        assert(out@ =~= head + blocks@.subrange(0, i as int));
    }
    assert(blocks@.subrange(0, i as int) =~= blocks@);
    out
}

/// The whole level transfer for compressed level `c` and a world of the given size.
pub fn level_bytes(c: &Vec<u8>, x_size: i16, y_size: i16, z_size: i16) -> (r: Vec<u8>)
    ensures
        r@ == level_wire(c@, x_size, y_size, z_size),
{
    let mut writer = PacketWriter::new();
    let mut init = LevelInitializePacket::new();
    init.write(&mut writer);
    write_level_chunks(c, &mut writer);
    let mut fin = LevelFinalizePacket::new(x_size, y_size, z_size);
    fin.write(&mut writer);
    let r = writer.into_inner();
    assert(r@ =~= level_wire(c@, x_size, y_size, z_size));
    r
}

/// What is known of a player: id, name, world, position and orientation.
pub struct PlayerView {
    pub id: i8,
    pub name: Seq<char>,
    pub world: Seq<char>,
    pub pos: (i16, i16, i16),
    pub yaw: u8,
    pub pitch: u8,
}

/// A connected player. The id and name are fixed for the session.
#[derive(Debug, Clone)]
pub struct Player {
    id: i8,
    name: String,
    current_map: String,
    x: i16,
    y: i16,
    z: i16,
    yaw: u8,
    pitch: u8,
}

impl View for Player {
    type V = PlayerView;

    closed spec fn view(&self) -> PlayerView {
        PlayerView {
            id: self.id,
            name: self.name@,
            world: self.current_map@,
            pos: (self.x, self.y, self.z),
            yaw: self.yaw,
            pitch: self.pitch,
        }
    }
}

impl Player {
    /// A player at the origin, looking straight ahead.
    pub fn new(id: i8, name: String, current_map: String) -> (r: Self)
        ensures
            r@ == (PlayerView {
                id,
                name: name@,
                world: current_map@,
                pos: (0, 0, 0),
                yaw: 0,
                pitch: 0,
            }),
    {
        Self { id, name, current_map, x: 0, y: 0, z: 0, yaw: 0, pitch: 0 }
    }

    /// A copy of this record.
    pub fn duplicate(&self) -> (r: Player)
        ensures
            r@ == self@,
    {
        Player {
            id: self.id,
            name: self.name.clone(),
            current_map: self.current_map.clone(),
            x: self.x,
            y: self.y,
            z: self.z,
            yaw: self.yaw,
            pitch: self.pitch,
        }
    }

    pub fn get_id(&self) -> (r: i8)
        ensures
            r == self@.id,
    {
        self.id
    }

    pub fn get_name(&self) -> (r: &str)
        ensures
            r@ == self@.name,
    {
        self.name.as_str()
    }

    pub fn get_current_world(&self) -> (r: &str)
        ensures
            r@ == self@.world,
    {
        self.current_map.as_str()
    }

    /// Position and orientation as (x, y, z, yaw, pitch).
    pub fn get_pos(&self) -> (r: (i16, i16, i16, u8, u8))
        ensures
            r == (self@.pos.0, self@.pos.1, self@.pos.2, self@.yaw, self@.pitch),
    {
        (self.x, self.y, self.z, self.yaw, self.pitch)
    }

    pub fn set_pos(&mut self, x: i16, y: i16, z: i16, pitch: u8, yaw: u8)
        ensures
            final(self)@ == (PlayerView { pos: (x, y, z), yaw, pitch, ..old(self)@ }),
    {
        self.x = x;
        self.y = y;
        self.z = z;
        self.pitch = pitch;
        self.yaw = yaw;
    }

    /// Moves the player and returns what tells its own client so: a
    /// position packet addressed to id -1.
    pub fn teleport(&mut self, x: i16, y: i16, z: i16, pitch: u8, yaw: u8) -> (r: Vec<u8>)
        ensures
            final(self)@ == (PlayerView { pos: (x, y, z), yaw, pitch, ..old(self)@ }),
            r@ == position_wire(-1i8, x, y, z, yaw, pitch),
    {
        self.set_pos(x, y, z, pitch, yaw);
        let mut packet = SetPositionAndOrientationPacket::new(-1, x, y, z, yaw, pitch);
        let mut writer = PacketWriter::new();
        packet.write(&mut writer);
        writer.into_inner()
    }

    /// What tells this player's client a chat line from the server.
    pub fn send_message(&self, msg: &str) -> (r: Vec<u8>)
        ensures
            r@ == message_wire(-1i8, msg@),
    {
        message_bytes(-1, msg.to_string())
    }

    /// The level transfer of `map` for this player's client, to be written
    /// in one piece; `None` exactly when the block count does not fit in 32
    /// bits. The compressed level is never empty, so at least one chunk is sent.
    pub fn send_to_level(&self, map: &DmfMap) -> (r: Option<Vec<u8>>)
        ensures
            r is Some <==> map.blocks@.len() <= u32::MAX,
            r matches Some(s) ==> s@ == level_wire(
                gzip_of(level_payload(map.blocks@)),
                map.x_size,
                map.y_size,
                map.z_size,
            ),
            map.blocks@.len() <= u32::MAX ==> gzip_of(level_payload(map.blocks@)).len() >= 18,
    {
        if map.blocks.len() > u32::MAX as usize {
            return None;
        }
        let prefixed = level_prefix(&map.blocks);
        let compressed = gzip(prefixed.as_slice());
        Some(level_bytes(&compressed, map.x_size, map.y_size, map.z_size))
    }
}

} // verus!
