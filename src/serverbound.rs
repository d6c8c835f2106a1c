use vstd::prelude::*;
use crate::codec::{PacketReader, short_of_be, sbyte_bits, trimmed_end, utf8_lossy, STRING_LEN};
use crate::clientbound::ServerIdentificationPacket;

verus! {

/// Bytes of an identification frame, id included.
pub const IDENTIFICATION_LEN: usize = 130;

/// Bytes of a set-block frame, id included.
pub const SET_BLOCK_LEN: usize = 9;

/// Bytes of a position frame, id included.
pub const POSITION_LEN: usize = 10;

/// Bytes of a message frame, id included.
pub const MESSAGE_LEN: usize = 66;

/// The string field that starts at `b[at]`, as the reader returns it.
pub open spec fn string_at(b: Seq<u8>, at: int) -> Seq<char> {
    trimmed_end(utf8_lossy(b.subrange(at, at + STRING_LEN)))
}

/// The big-endian short that starts at `b[at]`.
pub open spec fn short_at(b: Seq<u8>, at: int) -> i16 {
    short_of_be(b[at], b[at + 1])
}

/// The first packet a client sends: protocol version, name and key.
pub struct PlayerIndentificationPacket {
    pub protocol_version: u8,
    pub username: String,
    pub verification_key: String,
    /// Name the answer carries.
    pub server_name: String,
    /// Message of the day the answer carries.
    pub server_motd: String,
}

impl PlayerIndentificationPacket {
    /// An empty packet that will answer with this server's name and motd.
    pub fn new(server_name: String, server_motd: String) -> (r: Self)
        ensures
            r.protocol_version == 0,
            r.username@.len() == 0,
            r.verification_key@.len() == 0,
            r.server_name@ == server_name@,
            r.server_motd@ == server_motd@,
    {
        Self {
            protocol_version: 0,
            username: String::new(),
            verification_key: String::new(),
            server_name,
            server_motd,
        }
    }

    pub fn packet_id(&self) -> (r: u8)
        ensures
            r == 0x00,
    {
        0x00
    }

    /// Reads a whole identification frame, id byte included.
    pub fn read(&mut self, reader: &mut PacketReader)
        requires
            old(reader).wf(),
            old(reader).remaining() >= IDENTIFICATION_LEN,
        ensures
            final(reader).wf(),
            final(reader).bytes() == old(reader).bytes(),
            final(reader).pos() == old(reader).pos() + IDENTIFICATION_LEN,
            final(self).protocol_version == old(reader).bytes()[old(reader).pos() + 1],
            final(self).username@ == string_at(old(reader).bytes(), old(reader).pos() + 2),
            final(self).verification_key@ == string_at(old(reader).bytes(), old(reader).pos() + 66),
            final(self).server_name@ == old(self).server_name@,
            final(self).server_motd@ == old(self).server_motd@,
    {
        reader.read_byte();
        self.protocol_version = reader.read_byte();
        self.username = reader.read_string();
        self.verification_key = reader.read_string();
    }

    /// The server's answer to this identification.
    pub fn response(&self) -> (r: ServerIdentificationPacket)
        ensures
            r.protocol_version == 0x07,
            r.server_name@ == self.server_name@,
            r.server_motd@ == self.server_motd@,
            r.user_type == 0x64,
            r.data@.len() == 0,
    {
        ServerIdentificationPacket::new(self.server_name.clone(), self.server_motd.clone())
    }
}

/// A client placing or breaking a block.
pub struct SetBlockPacket {
    pub x: i16,
    pub y: i16,
    pub z: i16,
    pub mode: u8,
    pub block_type: u8,
}

impl SetBlockPacket {
    pub fn new() -> (r: Self)
        ensures
            r.x == 0 && r.y == 0 && r.z == 0 && r.mode == 0 && r.block_type == 0,
    {
        Self { x: 0, y: 0, z: 0, mode: 0, block_type: 0 }
    }

    pub fn packet_id(&self) -> (r: u8)
        ensures
            r == 0x05,
    {
        0x05
    }

    /// Reads a whole set-block frame, id byte included.
    pub fn read(&mut self, reader: &mut PacketReader)
        requires
            old(reader).wf(),
            old(reader).remaining() >= SET_BLOCK_LEN,
        ensures
            final(reader).wf(),
            final(reader).bytes() == old(reader).bytes(),
            final(reader).pos() == old(reader).pos() + SET_BLOCK_LEN,
            final(self).x == short_at(old(reader).bytes(), old(reader).pos() + 1),
            final(self).y == short_at(old(reader).bytes(), old(reader).pos() + 3),
            final(self).z == short_at(old(reader).bytes(), old(reader).pos() + 5),
            final(self).mode == old(reader).bytes()[old(reader).pos() + 7],
            final(self).block_type == old(reader).bytes()[old(reader).pos() + 8],
    {
        reader.read_byte();
        self.x = reader.read_short();
        self.y = reader.read_short();
        self.z = reader.read_short();
        self.mode = reader.read_byte();
        self.block_type = reader.read_byte();
    }
}

/// A client reporting where it stands and looks.
pub struct PositionAndOrientationUpdatePacket {
    pub player_id: i8,
    pub x: i16,
    pub y: i16,
    pub z: i16,
    pub yaw: u8,
    pub pitch: u8,
}

impl PositionAndOrientationUpdatePacket {
    pub fn new() -> (r: Self)
        ensures
            r.player_id == -1,
            r.x == 0 && r.y == 0 && r.z == 0 && r.yaw == 0 && r.pitch == 0,
    {
        Self { player_id: -1, x: 0, y: 0, z: 0, yaw: 0, pitch: 0 }
    }

    pub fn packet_id(&self) -> (r: u8)
        ensures
            r == 0x08,
    {
        0x08
    }

    /// Reads a whole position frame, id byte included.
    pub fn read(&mut self, reader: &mut PacketReader)
        requires
            old(reader).wf(),
            old(reader).remaining() >= POSITION_LEN,
        ensures
            final(reader).wf(),
            final(reader).bytes() == old(reader).bytes(),
            final(reader).pos() == old(reader).pos() + POSITION_LEN,
            sbyte_bits(final(self).player_id) == old(reader).bytes()[old(reader).pos() + 1],
            final(self).x == short_at(old(reader).bytes(), old(reader).pos() + 2),
            final(self).y == short_at(old(reader).bytes(), old(reader).pos() + 4),
            final(self).z == short_at(old(reader).bytes(), old(reader).pos() + 6),
            final(self).yaw == old(reader).bytes()[old(reader).pos() + 8],
            final(self).pitch == old(reader).bytes()[old(reader).pos() + 9],
    {
        reader.read_byte();
        self.player_id = reader.read_sbyte();
        self.x = reader.read_short();
        self.y = reader.read_short();
        self.z = reader.read_short();
        self.yaw = reader.read_byte();
        self.pitch = reader.read_byte();
    }
}

/// A chat line from a client.
pub struct MessagePacket {
    pub player_id: i8,
    pub message: String,
}

impl MessagePacket {
    pub fn new() -> (r: Self)
        ensures
            r.player_id == -1,
            r.message@.len() == 0,
    {
        Self { player_id: -1, message: String::new() }
    }

    pub fn packet_id(&self) -> (r: u8)
        ensures
            r == 0x0d,
    {
        0x0d
    }

    /// Reads a whole message frame, id byte included.
    pub fn read(&mut self, reader: &mut PacketReader)
        requires
            old(reader).wf(),
            old(reader).remaining() >= MESSAGE_LEN,
        ensures
            final(reader).wf(),
            final(reader).bytes() == old(reader).bytes(),
            final(reader).pos() == old(reader).pos() + MESSAGE_LEN,
            sbyte_bits(final(self).player_id) == old(reader).bytes()[old(reader).pos() + 1],
            final(self).message@ == string_at(old(reader).bytes(), old(reader).pos() + 2),
    {
        reader.read_byte();
        self.player_id = reader.read_sbyte();
        self.message = reader.read_string();
    }
}

} // verus!
