use vstd::prelude::*;
use vstd::arithmetic::div_mod::lemma_fundamental_div_mod_converse;
use crate::dmf_map::{DmfMap, DmfView};

verus! {

/// Generates worlds.
pub struct MapBuilder;

/// The size of a world to generate.
#[derive(Clone, Copy)]
pub struct Dimensions {
    pub x: i16,
    pub y: i16,
    pub z: i16,
}

/// The block of a flat world with ground level `g` at height `y`: stone
/// below the ground, three layers of dirt, one of grass, then air.
pub open spec fn flat_block(g: int, y: int) -> u8 {
    if y < g {
        1
    } else if y < g + 3 {
        3
    } else if y == g + 3 {
        2
    } else {
        0
    }
}

/// The column (x, z) and height y of block index `j`.
pub open spec fn cell_x(j: int, xs: int) -> int {
    j % xs
}

pub open spec fn cell_z(j: int, xs: int, zs: int) -> int {
    (j / xs) % zs
}

pub open spec fn cell_y(j: int, xs: int, zs: int) -> int {
    (j / xs) / zs
}

/// Block index `j` lies in a column already generated, or below height
/// `cy` in column (cx, cz) being generated.
pub open spec fn cell_done(j: int, xs: int, zs: int, cx: int, cz: int, cy: int) -> bool {
    let jx = cell_x(j, xs);
    let jz = cell_z(j, xs, zs);
    jx < cx || (jx == cx && jz < cz) || (jx == cx && jz == cz && cell_y(j, xs, zs) < cy)
}

pub(crate) proof fn lemma_index_cell(m: DmfView, x: i16, y: i16, z: i16)
    requires
        m.wf(),
        m.in_bounds(x, y, z),
    ensures
        cell_x(m.index_of(x, y, z), m.size.0 as int) == x,
        cell_z(m.index_of(x, y, z), m.size.0 as int, m.size.2 as int) == z,
        cell_y(m.index_of(x, y, z), m.size.0 as int, m.size.2 as int) == y,
{
    let xs = m.size.0 as int;
    let zs = m.size.2 as int;
    let j = m.index_of(x, y, z);
    assert(j == (y * zs + z) * xs + x) by (nonlinear_arith)
        requires
            j == y * zs * xs + z * xs + x,
    ;
    lemma_fundamental_div_mod_converse(j, xs, y * zs + z, x as int);
    lemma_fundamental_div_mod_converse(j / xs, zs, y as int, z as int);
}

proof fn lemma_cell_index(m: DmfView, j: int)
    requires
        m.wf(),
        0 <= j < m.blocks.len(),
    ensures
        ({
            let xs = m.size.0 as int;
            let zs = m.size.2 as int;
            &&& 0 <= cell_x(j, xs) < xs
            &&& 0 <= cell_z(j, xs, zs) < zs
            &&& 0 <= cell_y(j, xs, zs) < m.size.1
            &&& j == m.index_of(
                cell_x(j, xs) as i16,
                cell_y(j, xs, zs) as i16,
                cell_z(j, xs, zs) as i16,
            )
        }),
{
    let xs = m.size.0 as int;
    let ys = m.size.1 as int;
    let zs = m.size.2 as int;
    assert(xs > 0 && zs > 0 && ys > 0) by (nonlinear_arith)
        requires
            0 <= j < xs * ys * zs,
            xs >= 0,
            ys >= 0,
            zs >= 0,
    ;
    let q = j / xs;
    let jx = j % xs;
    let jz = q % zs;
    let jy = q / zs;
    assert(j == xs * q + jx && 0 <= jx < xs) by (nonlinear_arith)
        requires
            xs > 0,
            q == j / xs,
            jx == j % xs,
    ;
    assert(q == zs * jy + jz && 0 <= jz < zs && q >= 0 && jy >= 0) by (nonlinear_arith)
        requires
            zs > 0,
            j >= 0,
            xs > 0,
            q == j / xs,
            jz == q % zs,
            jy == q / zs,
    ;
    assert(j == jy * zs * xs + jz * xs + jx) by (nonlinear_arith)
        requires
            j == xs * q + jx,
            q == zs * jy + jz,
    ;
    assert(jy < ys) by (nonlinear_arith)
        requires
            j == jy * zs * xs + jz * xs + jx,
            j < xs * ys * zs,
            0 <= jz,
            0 <= jx,
            xs > 0,
            zs > 0,
            jy >= 0,
    ;
}

impl MapBuilder {
    /// A flat world: stone up to `ground_level`, three layers of dirt and a
    /// layer of grass, spawning above the grass.
    pub fn create_flat_map(ground_level: u32, dimensions: Dimensions) -> (r: DmfMap)
        requires
            ground_level <= 32763,
            dimensions.x >= 0,
            dimensions.y >= 0,
            dimensions.z >= 0,
            dimensions.x * dimensions.y * dimensions.z <= usize::MAX,
        ensures
            r.wf(),
            r@.size == (dimensions.x, dimensions.y, dimensions.z),
            r@.spawn == (0i16, (ground_level + 4) as i16, 0i16),
            forall|x: i16, y: i16, z: i16|
                r@.in_bounds(x, y, z) ==> #[trigger] r@.block_at(x, y, z) == flat_block(
                    ground_level as int,
                    y as int,
                ),
    {
        let g = ground_level as i16;
        let mut map = DmfMap::new(0, g + 4, 0, dimensions.x, dimensions.y, dimensions.z);
        let ghost xs = dimensions.x as int;
        let ghost zs = dimensions.z as int;
        let ghost gi = ground_level as int;
        proof {
            assert forall|j: int| 0 <= j < map@.blocks.len() implies #[trigger] map@.blocks[j]
                == if cell_done(j, xs, zs, 0, 0, 0) {
                flat_block(gi, cell_y(j, xs, zs))
            } else {
                0
            } by {
                lemma_cell_index(map@, j);
            }
        }
        let mut x: i16 = 0;
        while x < dimensions.x
            invariant
                0 <= x <= dimensions.x,
                ground_level <= 32763,
                xs == dimensions.x as int && zs == dimensions.z as int && gi == ground_level as int,
                g == ground_level,
                map.wf(),
                map@.size == (dimensions.x, dimensions.y, dimensions.z),
                map@.spawn == (0i16, (ground_level + 4) as i16, 0i16),
                forall|j: int|
                    0 <= j < map@.blocks.len() ==> #[trigger] map@.blocks[j] == if cell_done(
                        j,
                        xs,
                        zs,
                        x as int,
                        0,
                        0,
                    ) {
                        flat_block(gi, cell_y(j, xs, zs))
                    } else {
                        0
                    },
            decreases dimensions.x - x,
        {
            let mut z: i16 = 0;
            while z < dimensions.z
                invariant
                    0 <= x < dimensions.x,
                    ground_level <= 32763,
                    xs == dimensions.x as int && zs == dimensions.z as int && gi == ground_level as int,
                    0 <= z <= dimensions.z,
                    g == ground_level,
                    map.wf(),
                    map@.size == (dimensions.x, dimensions.y, dimensions.z),
                    map@.spawn == (0i16, (ground_level + 4) as i16, 0i16),
                    forall|j: int|
                        0 <= j < map@.blocks.len() ==> #[trigger] map@.blocks[j] == if cell_done(
                            j,
                            xs,
                            zs,
                            x as int,
                            z as int,
                            0,
                        ) {
                            flat_block(gi, cell_y(j, xs, zs))
                        } else {
                            0
                        },
                decreases dimensions.z - z,
            {
                let mut y: u32 = 0;
                while y < ground_level + 4
                    invariant
                        0 <= x < dimensions.x,
                        0 <= z < dimensions.z,
                        y <= ground_level + 4,
                        ground_level <= 32763,
                        xs == dimensions.x as int && zs == dimensions.z as int && gi == ground_level as int,
                        g == ground_level,
                        map.wf(),
                        map@.size == (dimensions.x, dimensions.y, dimensions.z),
                        map@.spawn == (0i16, (ground_level + 4) as i16, 0i16),
                        forall|j: int|
                            0 <= j < map@.blocks.len() ==> #[trigger] map@.blocks[j] == if cell_done(
                                j,
                                xs,
                                zs,
                                x as int,
                                z as int,
                                y as int,
                            ) {
                                flat_block(gi, cell_y(j, xs, zs))
                            } else {
                                0
                            },
                    decreases ground_level + 4 - y,
                {
                    let block: u8 = if y < ground_level {
                        0x01
                    } else if y < ground_level + 3 {
                        0x03
                    } else {
                        0x02
                    };
                    let ghost before = map@;
                    map.set_block(x, y as i16, z, block);
                    proof {
                        assert forall|j: int| 0 <= j < map@.blocks.len() implies #[trigger] map@.blocks[j]
                            == if cell_done(j, xs, zs, x as int, z as int, y + 1) {
                            flat_block(gi, cell_y(j, xs, zs))
                        } else {
                            0
                        } by {
                            lemma_cell_index(before, j);
                            let jx = cell_x(j, xs);
                            let jz = cell_z(j, xs, zs);
                            let jy = cell_y(j, xs, zs);
                            if jx == x && jz == z && jy == y {
                                assert(j == before.index_of(x, y as i16, z));
                                assert(before.in_bounds(x, y as i16, z));
                                assert(map@.blocks[j] == block);
                            } else {
                                if before.in_bounds(x, y as i16, z) {
                                    lemma_index_cell(before, x, y as i16, z);
                                    lemma_index_in_bounds(before, x, y as i16, z);
                                    let idx = before.index_of(x, y as i16, z);
                                    assert(j != idx);
                                    assert(map@.blocks == before.blocks.update(idx, block));
                                    assert(map@.blocks[j] == before.blocks[j]);
                                } else {
                                    assert(map@ == before);
                                }
                                assert(map@.blocks[j] == before.blocks[j]);
                            }
                        }
                    }
                    y = y + 1;
                }
                proof {
                    assert forall|j: int| 0 <= j < map@.blocks.len() implies #[trigger] map@.blocks[j]
                        == if cell_done(j, xs, zs, x as int, z + 1, 0) {
                        flat_block(gi, cell_y(j, xs, zs))
                    } else {
                        0
                    } by {
                        lemma_cell_index(map@, j);
                        let jy = cell_y(j, xs, zs);
                        if jy >= gi + 4 {
                            assert(flat_block(gi, jy) == 0);
                        }
                    }
                }
                z = z + 1;
            }
            proof {
                assert forall|j: int| 0 <= j < map@.blocks.len() implies #[trigger] map@.blocks[j]
                    == if cell_done(j, xs, zs, x + 1, 0, 0) {
                    flat_block(gi, cell_y(j, xs, zs))
                } else {
                    0
                } by {
                    lemma_cell_index(map@, j);
                }
            }
            x = x + 1;
        }
        proof {
            assert forall|x: i16, y: i16, z: i16| map@.in_bounds(x, y, z) implies #[trigger] map@.block_at(
                x,
                y,
                z,
            ) == flat_block(gi, y as int) by {
                lemma_index_in_bounds(map@, x, y, z);
                lemma_index_cell(map@, x, y, z);
            }
        }
        map
    }
}

proof fn lemma_index_in_bounds(m: DmfView, x: i16, y: i16, z: i16)
    requires
        m.wf(),
        m.in_bounds(x, y, z),
    ensures
        0 <= m.index_of(x, y, z) < m.blocks.len(),
{
    let xs = m.size.0 as int;
    let ys = m.size.1 as int;
    let zs = m.size.2 as int;
    assert(0 <= z * xs + x < zs * xs) by (nonlinear_arith)
        requires
            0 <= x < xs,
            0 <= z < zs,
    ;
    assert(0 <= y * zs * xs && y * zs * xs + zs * xs <= ys * zs * xs) by (nonlinear_arith)
        requires
            0 <= y < ys,
            0 <= zs,
            0 <= xs,
    ;
    assert(ys * zs * xs == xs * ys * zs) by (nonlinear_arith);
}

} // verus!
