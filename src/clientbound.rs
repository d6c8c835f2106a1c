use vstd::prelude::*;
use crate::codec::{PacketWriter, short_be, string_field, pad_to, sbyte_bits, BYTE_ARRAY_LEN};

verus! {

/// Tells a joining client the server's name and message of the day.
pub struct ServerIdentificationPacket {
    /// What the last `write` left in the writer; empty before it.
    pub data: Vec<u8>,
    pub protocol_version: u8,
    pub server_name: String,
    pub server_motd: String,
    pub user_type: u8,
}

impl ServerIdentificationPacket {
    /// This packet on the wire.
    pub open spec fn wire(&self) -> Seq<u8> {
        seq![0x00u8]
            + seq![self.protocol_version]
            + string_field(vstd::utf8::encode_utf8(self.server_name@))
            + string_field(vstd::utf8::encode_utf8(self.server_motd@))
            + seq![self.user_type]
    }

    /// The bytes of the last `write`.
    pub open spec fn bytes(&self) -> Seq<u8> {
        self.data@
    }

    pub fn new(server_name: String, server_motd: String) -> (r: Self)
        ensures
            r.protocol_version == 0x07,
            r.server_name@ == server_name@,
            r.server_motd@ == server_motd@,
            r.user_type == 0x64,
            r.bytes() == Seq::<u8>::empty(),
    {
        Self { data: Vec::new(), protocol_version: 0x07, server_name, server_motd, user_type: 0x64 }
    }

    pub fn packet_id(&self) -> (r: u8)
        ensures
            r == 0x00,
    {
        0x00
    }

    /// Appends this packet to `writer` and keeps what the writer then holds.
    pub fn write(&mut self, writer: &mut PacketWriter)
        ensures
            final(writer)@ == old(writer)@ + old(self).wire(),
            final(self).wire() == old(self).wire(),
            final(self).bytes() == final(writer)@,
    {
        writer.write_byte(self.packet_id());
        writer.write_byte(self.protocol_version);
        writer.write_string(self.server_name.as_str());
        writer.write_string(self.server_motd.as_str());
        writer.write_byte(self.user_type);
        self.data = writer.to_bytes().clone();
        assert(writer@ =~= old(writer)@ + old(self).wire());
    }

    /// The bytes of the last `write`, empty before it.
    pub fn data(&self) -> (r: &Vec<u8>)
        ensures
            r@ == self.bytes(),
    {
        &self.data
    }
}

/// Opens a level transfer.
pub struct LevelInitializePacket {
    /// What the last `write` left in the writer; empty before it.
    pub data: Vec<u8>,
}

impl LevelInitializePacket {
    /// This packet on the wire.
    pub open spec fn wire(&self) -> Seq<u8> {
        seq![0x02u8]
    }

    /// The bytes of the last `write`.
    pub open spec fn bytes(&self) -> Seq<u8> {
        self.data@
    }

    pub fn new() -> (r: Self)
        ensures
            r.bytes() == Seq::<u8>::empty(),
    {
        Self { data: Vec::new() }
    }

    pub fn packet_id(&self) -> (r: u8)
        ensures
            r == 0x02,
    {
        0x02
    }

    /// Appends this packet to `writer` and keeps what the writer then holds.
    pub fn write(&mut self, writer: &mut PacketWriter)
        ensures
            final(writer)@ == old(writer)@ + old(self).wire(),
            final(self).wire() == old(self).wire(),
            final(self).bytes() == final(writer)@,
    {
        writer.write_byte(self.packet_id());
        self.data = writer.to_bytes().clone();
        assert(writer@ =~= old(writer)@ + old(self).wire());
    }

    /// The bytes of the last `write`, empty before it.
    pub fn data(&self) -> (r: &Vec<u8>)
        ensures
            r@ == self.bytes(),
    {
        &self.data
    }
}

/// One chunk of the compressed level.
pub struct LevelDataChunkPacket {
    /// What the last `write` left in the writer; empty before it.
    pub data: Vec<u8>,
    pub chunk_length: i16,
    pub chunk_data: Vec<u8>,
    pub completed: u8,
}

impl LevelDataChunkPacket {
    /// This packet on the wire.
    pub open spec fn wire(&self) -> Seq<u8> {
        seq![0x03u8]
            + short_be(self.chunk_length)
            + pad_to(self.chunk_data@, BYTE_ARRAY_LEN as nat, 0)
            + seq![self.completed]
    }

    /// The bytes of the last `write`.
    pub open spec fn bytes(&self) -> Seq<u8> {
        self.data@
    }

    pub fn new(chunk_length: i16, chunk_data: Vec<u8>, completed: u8) -> (r: Self)
        ensures
            r.chunk_length == chunk_length,
            r.chunk_data@ == chunk_data@,
            r.completed == completed,
            r.bytes() == Seq::<u8>::empty(),
    {
        Self { data: Vec::new(), chunk_length, chunk_data, completed }
    }

    pub fn packet_id(&self) -> (r: u8)
        ensures
            r == 0x03,
    {
        0x03
    }

    /// Appends this packet to `writer` and keeps what the writer then holds.
    pub fn write(&mut self, writer: &mut PacketWriter)
        ensures
            final(writer)@ == old(writer)@ + old(self).wire(),
            final(self).wire() == old(self).wire(),
            final(self).bytes() == final(writer)@,
    {
        writer.write_byte(self.packet_id());
        writer.write_short(self.chunk_length);
        writer.write_byte_array(self.chunk_data.as_slice(), BYTE_ARRAY_LEN);
        writer.write_byte(self.completed);
        self.data = writer.to_bytes().clone();
        assert(writer@ =~= old(writer)@ + old(self).wire());
    }

    /// The bytes of the last `write`, empty before it.
    pub fn data(&self) -> (r: &Vec<u8>)
        ensures
            r@ == self.bytes(),
    {
        &self.data
    }
}

/// Closes a level transfer with the world's size.
pub struct LevelFinalizePacket {
    /// What the last `write` left in the writer; empty before it.
    pub data: Vec<u8>,
    pub x_size: i16,
    pub y_size: i16,
    pub z_size: i16,
}

impl LevelFinalizePacket {
    /// This packet on the wire.
    pub open spec fn wire(&self) -> Seq<u8> {
        seq![0x04u8]
            + short_be(self.x_size)
            + short_be(self.y_size)
            + short_be(self.z_size)
    }

    /// The bytes of the last `write`.
    pub open spec fn bytes(&self) -> Seq<u8> {
        self.data@
    }

    pub fn new(x_size: i16, y_size: i16, z_size: i16) -> (r: Self)
        ensures
            r.x_size == x_size,
            r.y_size == y_size,
            r.z_size == z_size,
            r.bytes() == Seq::<u8>::empty(),
    {
        Self { data: Vec::new(), x_size, y_size, z_size }
    }

    pub fn packet_id(&self) -> (r: u8)
        ensures
            r == 0x04,
    {
        0x04
    }

    /// Appends this packet to `writer` and keeps what the writer then holds.
    pub fn write(&mut self, writer: &mut PacketWriter)
        ensures
            final(writer)@ == old(writer)@ + old(self).wire(),
            final(self).wire() == old(self).wire(),
            final(self).bytes() == final(writer)@,
    {
        writer.write_byte(self.packet_id());
        writer.write_short(self.x_size);
        writer.write_short(self.y_size);
        writer.write_short(self.z_size);
        self.data = writer.to_bytes().clone();
        assert(writer@ =~= old(writer)@ + old(self).wire());
    }

    /// The bytes of the last `write`, empty before it.
    pub fn data(&self) -> (r: &Vec<u8>)
        ensures
            r@ == self.bytes(),
    {
        &self.data
    }
}

/// Keeps the connection alive.
pub struct PingPacket {
    /// What the last `write` left in the writer; empty before it.
    pub data: Vec<u8>,
}

impl PingPacket {
    /// This packet on the wire.
    pub open spec fn wire(&self) -> Seq<u8> {
        seq![0x01u8]
    }

    /// The bytes of the last `write`.
    pub open spec fn bytes(&self) -> Seq<u8> {
        self.data@
    }

    pub fn new() -> (r: Self)
        ensures
            r.bytes() == Seq::<u8>::empty(),
    {
        Self { data: Vec::new() }
    }

    pub fn packet_id(&self) -> (r: u8)
        ensures
            r == 0x01,
    {
        0x01
    }

    /// Appends this packet to `writer` and keeps what the writer then holds.
    pub fn write(&mut self, writer: &mut PacketWriter)
        ensures
            final(writer)@ == old(writer)@ + old(self).wire(),
            final(self).wire() == old(self).wire(),
            final(self).bytes() == final(writer)@,
    {
        writer.write_byte(self.packet_id());
        self.data = writer.to_bytes().clone();
        assert(writer@ =~= old(writer)@ + old(self).wire());
    }

    /// The bytes of the last `write`, empty before it.
    pub fn data(&self) -> (r: &Vec<u8>)
        ensures
            r@ == self.bytes(),
    {
        &self.data
    }
}

/// Tells a client that a block changed.
pub struct SetBlockPacket {
    /// What the last `write` left in the writer; empty before it.
    pub data: Vec<u8>,
    pub x: i16,
    pub y: i16,
    pub z: i16,
    pub block_type: u8,
}

impl SetBlockPacket {
    /// This packet on the wire.
    pub open spec fn wire(&self) -> Seq<u8> {
        seq![0x06u8]
            + short_be(self.x)
            + short_be(self.y)
            + short_be(self.z)
            + seq![self.block_type]
    }

    /// The bytes of the last `write`.
    pub open spec fn bytes(&self) -> Seq<u8> {
        self.data@
    }

    pub fn new(x: i16, y: i16, z: i16, block_type: u8) -> (r: Self)
        ensures
            r.x == x,
            r.y == y,
            r.z == z,
            r.block_type == block_type,
            r.bytes() == Seq::<u8>::empty(),
    {
        Self { data: Vec::new(), x, y, z, block_type }
    }

    pub fn packet_id(&self) -> (r: u8)
        ensures
            r == 0x06,
    {
        0x06
    }

    /// Appends this packet to `writer` and keeps what the writer then holds.
    pub fn write(&mut self, writer: &mut PacketWriter)
        ensures
            final(writer)@ == old(writer)@ + old(self).wire(),
            final(self).wire() == old(self).wire(),
            final(self).bytes() == final(writer)@,
    {
        writer.write_byte(self.packet_id());
        writer.write_short(self.x);
        writer.write_short(self.y);
        writer.write_short(self.z);
        writer.write_byte(self.block_type);
        self.data = writer.to_bytes().clone();
        assert(writer@ =~= old(writer)@ + old(self).wire());
    }

    /// The bytes of the last `write`, empty before it.
    pub fn data(&self) -> (r: &Vec<u8>)
        ensures
            r@ == self.bytes(),
    {
        &self.data
    }
}

/// Makes a player appear.
pub struct SpawnPlayerPacket {
    /// What the last `write` left in the writer; empty before it.
    pub data: Vec<u8>,
    pub player_id: i8,
    pub player_name: String,
    pub x: i16,
    pub y: i16,
    pub z: i16,
    pub yaw: u8,
    pub pitch: u8,
}

impl SpawnPlayerPacket {
    /// This packet on the wire.
    pub open spec fn wire(&self) -> Seq<u8> {
        seq![0x07u8]
            + seq![sbyte_bits(self.player_id)]
            + string_field(vstd::utf8::encode_utf8(self.player_name@))
            + short_be(self.x)
            + short_be(self.y)
            + short_be(self.z)
            + seq![self.yaw]
            + seq![self.pitch]
    }

    /// The bytes of the last `write`.
    pub open spec fn bytes(&self) -> Seq<u8> {
        self.data@
    }

    pub fn new(player_id: i8, player_name: String, x: i16, y: i16, z: i16, yaw: u8, pitch: u8) -> (r: Self)
        ensures
            r.player_id == player_id,
            r.player_name@ == player_name@,
            r.x == x,
            r.y == y,
            r.z == z,
            r.yaw == yaw,
            r.pitch == pitch,
            r.bytes() == Seq::<u8>::empty(),
    {
        Self { data: Vec::new(), player_id, player_name, x, y, z, yaw, pitch }
    }

    pub fn packet_id(&self) -> (r: u8)
        ensures
            r == 0x07,
    {
        0x07
    }

    /// Appends this packet to `writer` and keeps what the writer then holds.
    pub fn write(&mut self, writer: &mut PacketWriter)
        ensures
            final(writer)@ == old(writer)@ + old(self).wire(),
            final(self).wire() == old(self).wire(),
            final(self).bytes() == final(writer)@,
    {
        writer.write_byte(self.packet_id());
        writer.write_sbyte(self.player_id);
        writer.write_string(self.player_name.as_str());
        writer.write_short(self.x);
        writer.write_short(self.y);
        writer.write_short(self.z);
        writer.write_byte(self.yaw);
        writer.write_byte(self.pitch);
        self.data = writer.to_bytes().clone();
        assert(writer@ =~= old(writer)@ + old(self).wire());
    }

    /// The bytes of the last `write`, empty before it.
    pub fn data(&self) -> (r: &Vec<u8>)
        ensures
            r@ == self.bytes(),
    {
        &self.data
    }
}

/// Moves a player; id -1 moves the recipient itself.
pub struct SetPositionAndOrientationPacket {
    /// What the last `write` left in the writer; empty before it.
    pub data: Vec<u8>,
    pub player_id: i8,
    pub x: i16,
    pub y: i16,
    pub z: i16,
    pub yaw: u8,
    pub pitch: u8,
}

impl SetPositionAndOrientationPacket {
    /// This packet on the wire.
    pub open spec fn wire(&self) -> Seq<u8> {
        seq![0x08u8]
            + seq![sbyte_bits(self.player_id)]
            + short_be(self.x)
            + short_be(self.y)
            + short_be(self.z)
            + seq![self.yaw]
            + seq![self.pitch]
    }

    /// The bytes of the last `write`.
    pub open spec fn bytes(&self) -> Seq<u8> {
        self.data@
    }

    pub fn new(player_id: i8, x: i16, y: i16, z: i16, yaw: u8, pitch: u8) -> (r: Self)
        ensures
            r.player_id == player_id,
            r.x == x,
            r.y == y,
            r.z == z,
            r.yaw == yaw,
            r.pitch == pitch,
            r.bytes() == Seq::<u8>::empty(),
    {
        Self { data: Vec::new(), player_id, x, y, z, yaw, pitch }
    }

    pub fn packet_id(&self) -> (r: u8)
        ensures
            r == 0x08,
    {
        0x08
    }

    /// Appends this packet to `writer` and keeps what the writer then holds.
    pub fn write(&mut self, writer: &mut PacketWriter)
        ensures
            final(writer)@ == old(writer)@ + old(self).wire(),
            final(self).wire() == old(self).wire(),
            final(self).bytes() == final(writer)@,
    {
        writer.write_byte(self.packet_id());
        writer.write_sbyte(self.player_id);
        writer.write_short(self.x);
        writer.write_short(self.y);
        writer.write_short(self.z);
        writer.write_byte(self.yaw);
        writer.write_byte(self.pitch);
        self.data = writer.to_bytes().clone();
        assert(writer@ =~= old(writer)@ + old(self).wire());
    }

    /// The bytes of the last `write`, empty before it.
    pub fn data(&self) -> (r: &Vec<u8>)
        ensures
            r@ == self.bytes(),
    {
        &self.data
    }
}

/// Moves and turns a player by a relative amount.
pub struct PositionAndOrientationUpdatePacket {
    /// What the last `write` left in the writer; empty before it.
    pub data: Vec<u8>,
    pub player_id: i8,
    pub delta_x: i8,
    pub delta_y: i8,
    pub delta_z: i8,
    pub yaw: u8,
    pub pitch: u8,
}

impl PositionAndOrientationUpdatePacket {
    /// This packet on the wire.
    pub open spec fn wire(&self) -> Seq<u8> {
        seq![0x09u8]
            + seq![sbyte_bits(self.player_id)]
            + seq![sbyte_bits(self.delta_x)]
            + seq![sbyte_bits(self.delta_y)]
            + seq![sbyte_bits(self.delta_z)]
            + seq![self.yaw]
            + seq![self.pitch]
    }

    /// The bytes of the last `write`.
    pub open spec fn bytes(&self) -> Seq<u8> {
        self.data@
    }

    pub fn new(player_id: i8, delta_x: i8, delta_y: i8, delta_z: i8, yaw: u8, pitch: u8) -> (r: Self)
        ensures
            r.player_id == player_id,
            r.delta_x == delta_x,
            r.delta_y == delta_y,
            r.delta_z == delta_z,
            r.yaw == yaw,
            r.pitch == pitch,
            r.bytes() == Seq::<u8>::empty(),
    {
        Self { data: Vec::new(), player_id, delta_x, delta_y, delta_z, yaw, pitch }
    }

    pub fn packet_id(&self) -> (r: u8)
        ensures
            r == 0x09,
    {
        0x09
    }

    /// Appends this packet to `writer` and keeps what the writer then holds.
    pub fn write(&mut self, writer: &mut PacketWriter)
        ensures
            final(writer)@ == old(writer)@ + old(self).wire(),
            final(self).wire() == old(self).wire(),
            final(self).bytes() == final(writer)@,
    {
        writer.write_byte(self.packet_id());
        writer.write_sbyte(self.player_id);
        writer.write_sbyte(self.delta_x);
        writer.write_sbyte(self.delta_y);
        writer.write_sbyte(self.delta_z);
        writer.write_byte(self.yaw);
        writer.write_byte(self.pitch);
        self.data = writer.to_bytes().clone();
        assert(writer@ =~= old(writer)@ + old(self).wire());
    }

    /// The bytes of the last `write`, empty before it.
    pub fn data(&self) -> (r: &Vec<u8>)
        ensures
            r@ == self.bytes(),
    {
        &self.data
    }
}

/// Moves a player by a relative amount.
pub struct PositionUpdatePacket {
    /// What the last `write` left in the writer; empty before it.
    pub data: Vec<u8>,
    pub player_id: i8,
    pub delta_x: i8,
    pub delta_y: i8,
    pub delta_z: i8,
}

impl PositionUpdatePacket {
    /// This packet on the wire.
    pub open spec fn wire(&self) -> Seq<u8> {
        seq![0x0au8]
            + seq![sbyte_bits(self.player_id)]
            + seq![sbyte_bits(self.delta_x)]
            + seq![sbyte_bits(self.delta_y)]
            + seq![sbyte_bits(self.delta_z)]
    }

    /// The bytes of the last `write`.
    pub open spec fn bytes(&self) -> Seq<u8> {
        self.data@
    }

    pub fn new(player_id: i8, delta_x: i8, delta_y: i8, delta_z: i8) -> (r: Self)
        ensures
            r.player_id == player_id,
            r.delta_x == delta_x,
            r.delta_y == delta_y,
            r.delta_z == delta_z,
            r.bytes() == Seq::<u8>::empty(),
    {
        Self { data: Vec::new(), player_id, delta_x, delta_y, delta_z }
    }

    pub fn packet_id(&self) -> (r: u8)
        ensures
            r == 0x0a,
    {
        0x0a
    }

    /// Appends this packet to `writer` and keeps what the writer then holds.
    pub fn write(&mut self, writer: &mut PacketWriter)
        ensures
            final(writer)@ == old(writer)@ + old(self).wire(),
            final(self).wire() == old(self).wire(),
            final(self).bytes() == final(writer)@,
    {
        writer.write_byte(self.packet_id());
        writer.write_sbyte(self.player_id);
        writer.write_sbyte(self.delta_x);
        writer.write_sbyte(self.delta_y);
        writer.write_sbyte(self.delta_z);
        self.data = writer.to_bytes().clone();
        assert(writer@ =~= old(writer)@ + old(self).wire());
    }

    /// The bytes of the last `write`, empty before it.
    pub fn data(&self) -> (r: &Vec<u8>)
        ensures
            r@ == self.bytes(),
    {
        &self.data
    }
}

/// Turns a player.
pub struct OrientationUpdatePacket {
    /// What the last `write` left in the writer; empty before it.
    pub data: Vec<u8>,
    pub player_id: i8,
    pub yaw: u8,
    pub pitch: u8,
}

impl OrientationUpdatePacket {
    /// This packet on the wire.
    pub open spec fn wire(&self) -> Seq<u8> {
        seq![0x0bu8]
            + seq![sbyte_bits(self.player_id)]
            + seq![self.yaw]
            + seq![self.pitch]
    }

    /// The bytes of the last `write`.
    pub open spec fn bytes(&self) -> Seq<u8> {
        self.data@
    }

    pub fn new(player_id: i8, yaw: u8, pitch: u8) -> (r: Self)
        ensures
            r.player_id == player_id,
            r.yaw == yaw,
            r.pitch == pitch,
            r.bytes() == Seq::<u8>::empty(),
    {
        Self { data: Vec::new(), player_id, yaw, pitch }
    }

    pub fn packet_id(&self) -> (r: u8)
        ensures
            r == 0x0b,
    {
        0x0b
    }

    /// Appends this packet to `writer` and keeps what the writer then holds.
    pub fn write(&mut self, writer: &mut PacketWriter)
        ensures
            final(writer)@ == old(writer)@ + old(self).wire(),
            final(self).wire() == old(self).wire(),
            final(self).bytes() == final(writer)@,
    {
        writer.write_byte(self.packet_id());
        writer.write_sbyte(self.player_id);
        writer.write_byte(self.yaw);
        writer.write_byte(self.pitch);
        self.data = writer.to_bytes().clone();
        assert(writer@ =~= old(writer)@ + old(self).wire());
    }

    /// The bytes of the last `write`, empty before it.
    pub fn data(&self) -> (r: &Vec<u8>)
        ensures
            r@ == self.bytes(),
    {
        &self.data
    }
}

/// Removes a player from view.
pub struct DespawnPlayerPacket {
    /// What the last `write` left in the writer; empty before it.
    pub data: Vec<u8>,
    pub player_id: i8,
}

impl DespawnPlayerPacket {
    /// This packet on the wire.
    pub open spec fn wire(&self) -> Seq<u8> {
        seq![0x0cu8]
            + seq![sbyte_bits(self.player_id)]
    }

    /// The bytes of the last `write`.
    pub open spec fn bytes(&self) -> Seq<u8> {
        self.data@
    }

    pub fn new(player_id: i8) -> (r: Self)
        ensures
            r.player_id == player_id,
            r.bytes() == Seq::<u8>::empty(),
    {
        Self { data: Vec::new(), player_id }
    }

    pub fn packet_id(&self) -> (r: u8)
        ensures
            r == 0x0c,
    {
        0x0c
    }

    /// Appends this packet to `writer` and keeps what the writer then holds.
    pub fn write(&mut self, writer: &mut PacketWriter)
        ensures
            final(writer)@ == old(writer)@ + old(self).wire(),
            final(self).wire() == old(self).wire(),
            final(self).bytes() == final(writer)@,
    {
        writer.write_byte(self.packet_id());
        writer.write_sbyte(self.player_id);
        self.data = writer.to_bytes().clone();
        assert(writer@ =~= old(writer)@ + old(self).wire());
    }

    /// The bytes of the last `write`, empty before it.
    pub fn data(&self) -> (r: &Vec<u8>)
        ensures
            r@ == self.bytes(),
    {
        &self.data
    }
}

/// A chat line; source -1 is the server.
pub struct MessagePacket {
    /// What the last `write` left in the writer; empty before it.
    pub data: Vec<u8>,
    pub player_id: i8,
    pub message: String,
}

impl MessagePacket {
    /// This packet on the wire.
    pub open spec fn wire(&self) -> Seq<u8> {
        seq![0x0du8]
            + seq![sbyte_bits(self.player_id)]
            + string_field(vstd::utf8::encode_utf8(self.message@))
    }

    /// The bytes of the last `write`.
    pub open spec fn bytes(&self) -> Seq<u8> {
        self.data@
    }

    pub fn new(player_id: i8, message: String) -> (r: Self)
        ensures
            r.player_id == player_id,
            r.message@ == message@,
            r.bytes() == Seq::<u8>::empty(),
    {
        Self { data: Vec::new(), player_id, message }
    }

    pub fn packet_id(&self) -> (r: u8)
        ensures
            r == 0x0d,
    {
        0x0d
    }

    /// Appends this packet to `writer` and keeps what the writer then holds.
    pub fn write(&mut self, writer: &mut PacketWriter)
        ensures
            final(writer)@ == old(writer)@ + old(self).wire(),
            final(self).wire() == old(self).wire(),
            final(self).bytes() == final(writer)@,
    {
        writer.write_byte(self.packet_id());
        writer.write_sbyte(self.player_id);
        writer.write_string(self.message.as_str());
        self.data = writer.to_bytes().clone();
        assert(writer@ =~= old(writer)@ + old(self).wire());
    }

    /// The bytes of the last `write`, empty before it.
    pub fn data(&self) -> (r: &Vec<u8>)
        ensures
            r@ == self.bytes(),
    {
        &self.data
    }
}

/// Closes the session with a reason.
pub struct DisconnectPlayerPacket {
    /// What the last `write` left in the writer; empty before it.
    pub data: Vec<u8>,
    pub reason: String,
}

impl DisconnectPlayerPacket {
    /// This packet on the wire.
    pub open spec fn wire(&self) -> Seq<u8> {
        seq![0x0eu8]
            + string_field(vstd::utf8::encode_utf8(self.reason@))
    }

    /// The bytes of the last `write`.
    pub open spec fn bytes(&self) -> Seq<u8> {
        self.data@
    }

    pub fn new(reason: String) -> (r: Self)
        ensures
            r.reason@ == reason@,
            r.bytes() == Seq::<u8>::empty(),
    {
        Self { data: Vec::new(), reason }
    }

    pub fn packet_id(&self) -> (r: u8)
        ensures
            r == 0x0e,
    {
        0x0e
    }

    /// Appends this packet to `writer` and keeps what the writer then holds.
    pub fn write(&mut self, writer: &mut PacketWriter)
        ensures
            final(writer)@ == old(writer)@ + old(self).wire(),
            final(self).wire() == old(self).wire(),
            final(self).bytes() == final(writer)@,
    {
        writer.write_byte(self.packet_id());
        writer.write_string(self.reason.as_str());
        self.data = writer.to_bytes().clone();
        assert(writer@ =~= old(writer)@ + old(self).wire());
    }

    /// The bytes of the last `write`, empty before it.
    pub fn data(&self) -> (r: &Vec<u8>)
        ensures
            r@ == self.bytes(),
    {
        &self.data
    }
}

/// Changes the recipient's user type.
pub struct UpdateUserTypePacket {
    /// What the last `write` left in the writer; empty before it.
    pub data: Vec<u8>,
    pub user_type: u8,
}

impl UpdateUserTypePacket {
    /// This packet on the wire.
    pub open spec fn wire(&self) -> Seq<u8> {
        seq![0x0fu8]
            + seq![self.user_type]
    }

    /// The bytes of the last `write`.
    pub open spec fn bytes(&self) -> Seq<u8> {
        self.data@
    }

    pub fn new(user_type: u8) -> (r: Self)
        ensures
            r.user_type == user_type,
            r.bytes() == Seq::<u8>::empty(),
    {
        Self { data: Vec::new(), user_type }
    }

    pub fn packet_id(&self) -> (r: u8)
        ensures
            r == 0x0f,
    {
        0x0f
    }

    /// Appends this packet to `writer` and keeps what the writer then holds.
    pub fn write(&mut self, writer: &mut PacketWriter)
        ensures
            final(writer)@ == old(writer)@ + old(self).wire(),
            final(self).wire() == old(self).wire(),
            final(self).bytes() == final(writer)@,
    {
        writer.write_byte(self.packet_id());
        writer.write_byte(self.user_type);
        self.data = writer.to_bytes().clone();
        assert(writer@ =~= old(writer)@ + old(self).wire());
    }

    /// The bytes of the last `write`, empty before it.
    pub fn data(&self) -> (r: &Vec<u8>)
        ensures
            r@ == self.bytes(),
    {
        &self.data
    }
}

} // verus!
