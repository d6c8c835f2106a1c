use vstd::prelude::*;
use crate::codec::{short_bits, short_of_be};
use crate::map_builder::lemma_index_cell;

verus! {

/// The file-format version this library reads and writes.
pub const HEADER_VERSION: u8 = 0x00;

/// Length of the fixed part of a world file, before the blocks.
pub const HEADER_LEN: usize = 33;

/// The identifier that opens a world file: "DANDELION MAP FORMAT" in ASCII.
pub open spec fn dmf_identifier() -> Seq<u8> {
    seq![68u8, 65, 78, 68, 69, 76, 73, 79, 78, 32, 77, 65, 80, 32, 70, 79, 82, 77, 65, 84]
}

fn identifier_bytes() -> (r: Vec<u8>)
    ensures
        r@ == dmf_identifier(),
{
    let r = vec![68u8, 65, 78, 68, 69, 76, 73, 79, 78, 32, 77, 65, 80, 32, 70, 79, 82, 77, 65, 84];
    assert(r@ =~= dmf_identifier());
    r
}

/// A short in a world file: little-endian, two's complement.
pub open spec fn short_le(v: i16) -> Seq<u8> {
    seq![(short_bits(v) % 256) as u8, (short_bits(v) / 256) as u8]
}

/// Why a world file could not be read.
#[derive(Debug, Clone, Copy, PartialEq, Eq, Structural)]
pub enum DmfError {
    /// The identifier does not match, or a size is negative.
    InvalidFormat,
    /// The version byte is not the one this library writes.
    UnsupportedVersion,
    /// The data ends before a field does.
    Truncated,
}

/// What a world is: its spawn point, its size and its blocks.
pub struct DmfView {
    pub spawn: (i16, i16, i16),
    pub size: (i16, i16, i16),
    pub blocks: Seq<u8>,
}

impl DmfView {
    pub open spec fn volume(self) -> int {
        self.size.0 * self.size.1 * self.size.2
    }

    /// Sizes are not negative and there is one block per cell.
    pub open spec fn wf(self) -> bool {
        &&& self.size.0 >= 0
        &&& self.size.1 >= 0
        &&& self.size.2 >= 0
        &&& self.blocks.len() == self.volume()
    }

    pub open spec fn in_bounds(self, x: i16, y: i16, z: i16) -> bool {
        0 <= x < self.size.0 && 0 <= y < self.size.1 && 0 <= z < self.size.2
    }

    /// Where cell (x, y, z) lies in the block array.
    pub open spec fn index_of(self, x: i16, y: i16, z: i16) -> int {
        y * self.size.2 * self.size.0 + z * self.size.0 + x
    }

    /// The block at (x, y, z); 0 outside the world.
    pub open spec fn block_at(self, x: i16, y: i16, z: i16) -> u8 {
        if self.in_bounds(x, y, z) {
            self.blocks[self.index_of(x, y, z)]
        } else {
            0
        }
    }

    /// The world after placing `b` at (x, y, z); unchanged outside the world.
    pub open spec fn with_block(self, x: i16, y: i16, z: i16, b: u8) -> DmfView {
        if self.in_bounds(x, y, z) {
            DmfView { blocks: self.blocks.update(self.index_of(x, y, z), b), ..self }
        } else {
            self
        }
    }

    /// The world file holding this world.
    pub open spec fn encode(self) -> Seq<u8> {
        dmf_identifier() + seq![HEADER_VERSION] + short_le(self.spawn.0) + short_le(self.spawn.1)
            + short_le(self.spawn.2) + short_le(self.size.0) + short_le(self.size.1) + short_le(
            self.size.2,
        ) + self.blocks
    }
}

/// The little-endian short at `b[at]`, `b[at + 1]`.
pub open spec fn short_le_at(b: Seq<u8>, at: int) -> i16 {
    short_of_be(b[at + 1], b[at])
}

/// What a world file holds. Bytes after the blocks are ignored.
pub open spec fn parse_dmf(b: Seq<u8>) -> Result<DmfView, DmfError> {
    if b.len() < 20 {
        Err(DmfError::Truncated)
    } else if b.subrange(0, 20) != dmf_identifier() {
        Err(DmfError::InvalidFormat)
    } else if b.len() < 21 {
        Err(DmfError::Truncated)
    } else if b[20] != HEADER_VERSION {
        Err(DmfError::UnsupportedVersion)
    } else if b.len() < HEADER_LEN {
        Err(DmfError::Truncated)
    } else {
        let size = (short_le_at(b, 27), short_le_at(b, 29), short_le_at(b, 31));
        let volume = size.0 * size.1 * size.2;
        if size.0 < 0 || size.1 < 0 || size.2 < 0 {
            Err(DmfError::InvalidFormat)
        } else if b.len() - HEADER_LEN < volume {
            Err(DmfError::Truncated)
        } else {
            Ok(
                DmfView {
                    spawn: (short_le_at(b, 21), short_le_at(b, 23), short_le_at(b, 25)),
                    size,
                    blocks: b.subrange(HEADER_LEN as int, HEADER_LEN + volume),
                },
            )
        }
    }
}

proof fn lemma_index_in_range(x: int, y: int, z: int, xs: int, ys: int, zs: int)
    requires
        0 <= x < xs,
        0 <= y < ys,
        0 <= z < zs,
    ensures
        0 <= y * zs * xs + z * xs + x < xs * ys * zs,
        0 <= y * zs * xs <= y * zs * xs + z * xs,
        0 <= y * zs <= y * zs * xs,
{
    assert(0 <= y * zs <= y * zs * xs) by (nonlinear_arith)
        requires
            0 <= y,
            0 <= zs,
            1 <= xs,
    ;
    assert(0 <= z * xs + x < zs * xs) by (nonlinear_arith)
        requires
            0 <= x < xs,
            0 <= z < zs,
    ;
    assert(0 <= y * zs * xs && y * zs * xs + zs * xs <= ys * zs * xs) by (nonlinear_arith)
        requires
            0 <= y < ys,
            0 <= zs,
            0 <= xs,
    ;
    assert(ys * zs * xs == xs * ys * zs) by (nonlinear_arith);
    assert(0 <= z * xs) by (nonlinear_arith)
        requires
            0 <= z,
            0 <= xs,
    ;
}

fn le_short(lo: u8, hi: u8) -> (r: i16)
    ensures
        r == short_of_be(hi, lo),
{
    let u: u32 = hi as u32 * 256 + lo as u32;
    if u >= 32768 {
        (u as i32 - 65536) as i16
    } else {
        u as i16
    }
}

fn push_short_le(out: &mut Vec<u8>, v: i16)
    ensures
        final(out)@ == old(out)@ + short_le(v),
{
    let u: u32 = if v < 0 { (v as i32 + 65536) as u32 } else { v as u32 };
    out.push((u % 256) as u8);
    out.push((u / 256) as u8);
    assert(out@ =~= old(out)@ + short_le(v));
}

proof fn lemma_short_le_round_trip(v: i16)
    ensures
        short_of_be(short_le(v)[1], short_le(v)[0]) == v,
{
}

/// Placing a block never changes the size of the block array: a world keeps
/// one block per cell.
pub proof fn lemma_set_keeps_wf(m: DmfView, x: i16, y: i16, z: i16, b: u8)
    requires
        m.wf(),
    ensures
        m.with_block(x, y, z, b).wf(),
        m.with_block(x, y, z, b).size == m.size,
{
    if m.in_bounds(x, y, z) {
        lemma_index_in_range(
            x as int,
            y as int,
            z as int,
            m.size.0 as int,
            m.size.1 as int,
            m.size.2 as int,
        );
    }
}

/// Inside the world, the block read after placing `b` is `b`.
pub proof fn lemma_set_then_get(m: DmfView, x: i16, y: i16, z: i16, b: u8)
    requires
        m.wf(),
        m.in_bounds(x, y, z),
    ensures
        m.with_block(x, y, z, b).block_at(x, y, z) == b,
{
    lemma_index_in_range(
        x as int,
        y as int,
        z as int,
        m.size.0 as int,
        m.size.1 as int,
        m.size.2 as int,
    );
}

/// A block placed inside the world is still read back after a block is
/// placed at any other cell.
pub proof fn lemma_set_survives_other_edit(
    m: DmfView,
    x: i16,
    y: i16,
    z: i16,
    b: u8,
    x2: i16,
    y2: i16,
    z2: i16,
    b2: u8,
)
    requires
        m.wf(),
        m.in_bounds(x, y, z),
        (x2, y2, z2) != (x, y, z),
    ensures
        m.with_block(x, y, z, b).with_block(x2, y2, z2, b2).block_at(x, y, z) == b,
{
    let m1 = m.with_block(x, y, z, b);
    lemma_set_keeps_wf(m, x, y, z, b);
    lemma_set_then_get(m, x, y, z, b);
    lemma_index_in_range(
        x as int,
        y as int,
        z as int,
        m.size.0 as int,
        m.size.1 as int,
        m.size.2 as int,
    );
    if m1.in_bounds(x2, y2, z2) {
        lemma_index_cell(m1, x, y, z);
        lemma_index_cell(m1, x2, y2, z2);
        lemma_index_in_range(
            x2 as int,
            y2 as int,
            z2 as int,
            m.size.0 as int,
            m.size.1 as int,
            m.size.2 as int,
        );
        assert(m1.index_of(x, y, z) != m1.index_of(x2, y2, z2));
    }
}

/// Outside the world, placing a block changes nothing and reading gives 0.
pub proof fn lemma_outside_is_inert(m: DmfView, x: i16, y: i16, z: i16, b: u8)
    requires
        m.wf(),
        !m.in_bounds(x, y, z),
    ensures
        m.with_block(x, y, z, b) == m,
        m.block_at(x, y, z) == 0,
{
}

/// Reading back the file that a world was saved to gives that world.
pub proof fn lemma_save_load(m: DmfView)
    requires
        m.wf(),
    ensures
        parse_dmf(m.encode()) == Ok::<DmfView, DmfError>(m),
{
    let b = m.encode();
    assert(b.subrange(0, 20) =~= dmf_identifier());
    lemma_short_le_round_trip(m.spawn.0);
    lemma_short_le_round_trip(m.spawn.1);
    lemma_short_le_round_trip(m.spawn.2);
    lemma_short_le_round_trip(m.size.0);
    lemma_short_le_round_trip(m.size.1);
    lemma_short_le_round_trip(m.size.2);
    assert(b[20] == HEADER_VERSION);
    assert(b[21] == short_le(m.spawn.0)[0] && b[22] == short_le(m.spawn.0)[1]);
    assert(b[23] == short_le(m.spawn.1)[0] && b[24] == short_le(m.spawn.1)[1]);
    assert(b[25] == short_le(m.spawn.2)[0] && b[26] == short_le(m.spawn.2)[1]);
    assert(b[27] == short_le(m.size.0)[0] && b[28] == short_le(m.size.0)[1]);
    assert(b[29] == short_le(m.size.1)[0] && b[30] == short_le(m.size.1)[1]);
    assert(b[31] == short_le(m.size.2)[0] && b[32] == short_le(m.size.2)[1]);
    assert(b.subrange(HEADER_LEN as int, HEADER_LEN + m.volume()) =~= m.blocks);
}

/// A world: spawn point, size and a block array indexed by
/// `y * z_size * x_size + z * x_size + x`.
#[derive(Debug, Clone)]
pub struct DmfMap {
    pub x_spawn: i16,
    pub y_spawn: i16,
    pub z_spawn: i16,
    pub x_size: i16,
    pub y_size: i16,
    pub z_size: i16,
    pub blocks: Vec<u8>,
}

impl View for DmfMap {
    type V = DmfView;

    open spec fn view(&self) -> DmfView {
        DmfView {
            spawn: (self.x_spawn, self.y_spawn, self.z_spawn),
            size: (self.x_size, self.y_size, self.z_size),
            blocks: self.blocks@,
        }
    }
}

impl DmfMap {
    pub open spec fn wf(&self) -> bool {
        self@.wf()
    }

    /// A world of the given size, filled with block 0.
    pub fn new(x_spawn: i16, y_spawn: i16, z_spawn: i16, x_size: i16, y_size: i16, z_size: i16) -> (r: Self)
        requires
            x_size >= 0,
            y_size >= 0,
            z_size >= 0,
            x_size * y_size * z_size <= usize::MAX,
        ensures
            r.wf(),
            r.blocks@.len() == x_size * y_size * z_size,
            r@.spawn == (x_spawn, y_spawn, z_spawn),
            r@.size == (x_size, y_size, z_size),
            forall|i: int| 0 <= i < r@.blocks.len() ==> r@.blocks[i] == 0,
    {
        assert(0 <= x_size as int * y_size as int <= 32767 * 32767) by (nonlinear_arith)
            requires
                0 <= x_size <= 32767,
                0 <= y_size <= 32767,
        ;
        assert(0 <= x_size as int * y_size as int * z_size as int <= 32767 * 32767 * 32767)
            by (nonlinear_arith)
            requires
                0 <= x_size as int * y_size as int <= 32767 * 32767,
                0 <= z_size <= 32767,
        ;
        let xy: u64 = x_size as u64 * y_size as u64;
        let total: u64 = xy * z_size as u64;
        let total_blocks = total as usize;
        let mut blocks: Vec<u8> = Vec::new();
        let mut i: usize = 0;
        while i < total_blocks
            invariant
                i <= total_blocks,
                blocks@.len() == i,
                forall|j: int| 0 <= j < i ==> blocks@[j] == 0,
            decreases total_blocks - i,
        {
            blocks.push(0);
            i = i + 1;
        }
        DmfMap { x_spawn, y_spawn, z_spawn, x_size, y_size, z_size, blocks }
    }

    fn index(&self, x: i16, y: i16, z: i16) -> (r: usize)
        requires
            self.wf(),
            self@.in_bounds(x, y, z),
        ensures
            r == self@.index_of(x, y, z),
            r < self.blocks@.len(),
    {
        let _n = self.blocks.len();
        proof {
            lemma_index_in_range(
                x as int,
                y as int,
                z as int,
                self.x_size as int,
                self.y_size as int,
                self.z_size as int,
            );
        }
        let row = y as usize * self.z_size as usize * self.x_size as usize;
        row + z as usize * self.x_size as usize + x as usize
    }

    /// The block at (x, y, z), or 0 outside the world.
    pub fn get_block(&self, x: i16, y: i16, z: i16) -> (r: u8)
        requires
            self.wf(),
        ensures
            r == self@.block_at(x, y, z),
    {
        if 0 <= x && x < self.x_size && 0 <= y && y < self.y_size && 0 <= z && z < self.z_size {
            let i = self.index(x, y, z);
            self.blocks[i]
        } else {
            0x00
        }
    }

    /// Places `block` at (x, y, z); does nothing outside the world.
    pub fn set_block(&mut self, x: i16, y: i16, z: i16, block: u8)
        requires
            old(self).wf(),
        ensures
            final(self).wf(),
            final(self)@ == old(self)@.with_block(x, y, z, block),
    {
        if 0 <= x && x < self.x_size && 0 <= y && y < self.y_size && 0 <= z && z < self.z_size {
            let i = self.index(x, y, z);
            self.blocks.set(i, block);
        }
    }

    pub fn set_spawn_point(&mut self, x: i16, y: i16, z: i16)
        requires
            old(self).wf(),
        ensures
            final(self).wf(),
            final(self)@ == (DmfView { spawn: (x, y, z), ..old(self)@ }),
    {
        self.x_spawn = x;
        self.y_spawn = y;
        self.z_spawn = z;
    }

    /// The world file holding this world.
    pub fn to_bytes(&self) -> (r: Vec<u8>)
        ensures
            r@ == self@.encode(),
    {
        let mut out = identifier_bytes();
        out.push(HEADER_VERSION);
        push_short_le(&mut out, self.x_spawn);
        push_short_le(&mut out, self.y_spawn);
        push_short_le(&mut out, self.z_spawn);
        push_short_le(&mut out, self.x_size);
        push_short_le(&mut out, self.y_size);
        push_short_le(&mut out, self.z_size);
        let ghost head = out@;
        let mut i: usize = 0;
        while i < self.blocks.len()
            invariant
                i <= self.blocks@.len(),
                out@ == head + self.blocks@.subrange(0, i as int),
            decreases self.blocks@.len() - i,
        {
            out.push(self.blocks[i]);
            i = i + 1;
            assert(out@ =~= head + self.blocks@.subrange(0, i as int));
        }
        assert(self.blocks@.subrange(0, i as int) =~= self.blocks@);
        assert(out@ =~= self@.encode());
        out
    }

    /// Reads a world file.
    pub fn from_bytes(data: &[u8]) -> (r: Result<DmfMap, DmfError>)
        ensures
            match r {
                Ok(m) => m.wf() && parse_dmf(data@) == Ok::<DmfView, DmfError>(m@),
                Err(e) => parse_dmf(data@) == Err::<DmfView, DmfError>(e),
            },
    {
        let n = data.len();
        if n < 20 {
            return Err(DmfError::Truncated);
        }
        let ident = identifier_bytes();
        let mut i: usize = 0;
        while i < 20
            invariant
                i <= 20 <= n == data@.len(),
                ident@ == dmf_identifier(),
                forall|j: int| 0 <= j < i ==> data@[j] == ident@[j],
            decreases 20 - i,
        {
            if data[i] != ident[i] {
                assert(data@.subrange(0, 20)[i as int] != dmf_identifier()[i as int]);
                return Err(DmfError::InvalidFormat);
            }
            i = i + 1;
        }
        assert(data@.subrange(0, 20) =~= dmf_identifier());
        if n < 21 {
            return Err(DmfError::Truncated);
        }
        if data[20] != HEADER_VERSION {
            return Err(DmfError::UnsupportedVersion);
        }
        if n < HEADER_LEN {
            return Err(DmfError::Truncated);
        }
        let x_spawn = le_short(data[21], data[22]);
        let y_spawn = le_short(data[23], data[24]);
        let z_spawn = le_short(data[25], data[26]);
        let x_size = le_short(data[27], data[28]);
        let y_size = le_short(data[29], data[30]);
        let z_size = le_short(data[31], data[32]);
        if x_size < 0 || y_size < 0 || z_size < 0 {
            return Err(DmfError::InvalidFormat);
        }
        assert(0 <= x_size as int * y_size as int <= 32767 * 32767) by (nonlinear_arith)
            requires
                0 <= x_size <= 32767,
                0 <= y_size <= 32767,
        ;
        assert(0 <= x_size as int * y_size as int * z_size as int <= 32767 * 32767 * 32767)
            by (nonlinear_arith)
            requires
                0 <= x_size as int * y_size as int <= 32767 * 32767,
                0 <= z_size <= 32767,
        ;
        let xy: u64 = x_size as u64 * y_size as u64;
        let volume: u64 = xy * z_size as u64;
        if ((n - HEADER_LEN) as u64) < volume {
            return Err(DmfError::Truncated);
        }
        let total = volume as usize;
        let mut blocks: Vec<u8> = Vec::new();
        let mut k: usize = 0;
        while k < total
            invariant
                k <= total,
                HEADER_LEN + total <= n == data@.len(),
                blocks@ == data@.subrange(HEADER_LEN as int, HEADER_LEN + k),
            decreases total - k,
        {
            blocks.push(data[HEADER_LEN + k]);
            k = k + 1;
            assert(blocks@ =~= data@.subrange(HEADER_LEN as int, HEADER_LEN + k));
        }
        Ok(DmfMap { x_spawn, y_spawn, z_spawn, x_size, y_size, z_size, blocks })
    }
}

} // verus!
