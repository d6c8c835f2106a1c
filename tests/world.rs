use dandelion::dmf_map::{DmfError, DmfMap};
use dandelion::map_builder::{Dimensions, MapBuilder};

#[test]
fn new_map_has_one_block_per_cell() {
    let m = DmfMap::new(1, 2, 3, 4, 5, 6);
    assert_eq!(m.blocks.len(), 4 * 5 * 6);
    assert!(m.blocks.iter().all(|b| *b == 0));
}

#[test]
fn set_then_get_inside() {
    let mut m = DmfMap::new(0, 0, 0, 64, 64, 64);
    m.set_block(16, 32, 48, 2);
    assert_eq!(m.get_block(16, 32, 48), 2);
    assert_eq!(m.blocks[32 * 64 * 64 + 48 * 64 + 16], 2);
    assert_eq!(m.get_block(16, 32, 47), 0);
}

#[test]
fn outside_is_ignored() {
    let mut m = DmfMap::new(0, 0, 0, 4, 4, 4);
    let before = m.blocks.clone();
    m.set_block(4, 0, 0, 9);
    m.set_block(-1, 0, 0, 9);
    m.set_block(0, 0, 100, 9);
    assert_eq!(m.blocks, before);
    assert_eq!(m.get_block(-1, 0, 0), 0);
    assert_eq!(m.get_block(0, 4, 0), 0);
}

#[test]
fn save_then_load_gives_same_world() {
    let mut m = DmfMap::new(1, -2, 3, 3, 2, 4);
    m.set_block(2, 1, 3, 7);
    m.set_spawn_point(5, 6, 7);
    let bytes = m.to_bytes();
    assert_eq!(bytes.len(), 33 + 24);
    assert_eq!(&bytes[..20], b"DANDELION MAP FORMAT");
    assert_eq!(bytes[20], 0);
    assert_eq!(&bytes[21..23], &[5, 0]);
    let back = DmfMap::from_bytes(&bytes).unwrap();
    assert_eq!((back.x_spawn, back.y_spawn, back.z_spawn), (5, 6, 7));
    assert_eq!((back.x_size, back.y_size, back.z_size), (3, 2, 4));
    assert_eq!(back.blocks, m.blocks);
    assert_eq!(back.get_block(2, 1, 3), 7);
}

#[test]
fn negative_spawn_round_trips() {
    let m = DmfMap::new(-300, 0, 0, 1, 1, 1);
    let back = DmfMap::from_bytes(&m.to_bytes()).unwrap();
    assert_eq!(back.x_spawn, -300);
}

#[test]
fn load_errors() {
    let good = DmfMap::new(0, 0, 0, 2, 2, 2).to_bytes();
    let mut bad_id = good.clone();
    bad_id[0] = b'X';
    assert!(matches!(DmfMap::from_bytes(&bad_id), Err(DmfError::InvalidFormat)));
    let mut bad_version = good.clone();
    bad_version[20] = 1;
    assert!(matches!(DmfMap::from_bytes(&bad_version), Err(DmfError::UnsupportedVersion)));
    assert!(matches!(DmfMap::from_bytes(&good[..10]), Err(DmfError::Truncated)));
    assert!(matches!(DmfMap::from_bytes(&good[..30]), Err(DmfError::Truncated)));
    assert!(matches!(DmfMap::from_bytes(&good[..good.len() - 1]), Err(DmfError::Truncated)));
    let mut negative = good.clone();
    negative[28] = 0xff;
    assert!(matches!(DmfMap::from_bytes(&negative), Err(DmfError::InvalidFormat)));
}

#[test]
fn flat_map_layers() {
    let m = MapBuilder::create_flat_map(2, Dimensions { x: 3, y: 8, z: 2 });
    assert_eq!(m.y_spawn, 6);
    for x in 0..3 {
        for z in 0..2 {
            assert_eq!(m.get_block(x, 0, z), 1);
            assert_eq!(m.get_block(x, 1, z), 1);
            assert_eq!(m.get_block(x, 2, z), 3);
            assert_eq!(m.get_block(x, 4, z), 3);
            assert_eq!(m.get_block(x, 5, z), 2);
            assert_eq!(m.get_block(x, 6, z), 0);
        }
    }
}
