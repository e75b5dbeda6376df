use exopteron::world::legacy::{compress_to_nibble, make_nibble_byte, World};
use exopteron::world::ChunkCoords;

#[test]
fn positions_to_indices() {
    assert_eq!(World::pos_to_index(0, 0, 0), 1);
    assert_eq!(World::pos_to_index(1, 5, 2), 2274);
    assert_eq!(World::pos_to_index(-1, 0, -1), 2143);
    assert_eq!(World::pos_to_index(17, 5, 18), 2274);
    assert_eq!(World::pos_to_index(0, -10, 0), 0);
}

#[test]
fn generated_world_has_sixteen_chunks() {
    let w = World::crappy_generate();
    for x in -2..2 {
        for z in -2..2 {
            assert!(w.check_chunk_exists(ChunkCoords { x, z }));
        }
    }
    assert!(!w.check_chunk_exists(ChunkCoords { x: 2, z: 0 }));
    assert!(!w.check_chunk_exists(ChunkCoords { x: 0, z: -3 }));
}

#[test]
fn blocks_of_the_generated_world() {
    let mut w = World::crappy_generate();
    assert_eq!(w.get_block(0, 0, 0).unwrap().get_type(), 1);
    assert_eq!(w.get_block(0, 125, 0).unwrap().get_type(), 20);
    assert_eq!(w.get_block(0, 20, 0).unwrap().get_type(), 0);
    // Chunk coordinates round toward zero, so x = -1 is in chunk 0.
    assert_eq!(w.get_block(-1, 0, -1).unwrap().get_type(), 1);
    assert!(w.get_block(40, 0, 0).is_none());
}

#[test]
fn blocks_can_be_changed_in_place() {
    let mut w = World::crappy_generate();
    w.get_block(3, 4, 5).unwrap().set_type(7);
    assert_eq!(w.get_block(3, 4, 5).unwrap().get_type(), 7);
    // The same index in another chunk is untouched.
    assert_eq!(w.get_block(19, 4, 5).unwrap().get_type(), 1);
}

#[test]
fn overlapping_nibble_pairs() {
    assert_eq!(make_nibble_byte(1, 2), Some(0x12));
    assert_eq!(make_nibble_byte(16, 2), None);
    assert_eq!(compress_to_nibble(vec![1, 2, 3]), Some(vec![0x12, 0x23]));
    assert_eq!(compress_to_nibble(vec![9]), Some(vec![]));
    assert_eq!(compress_to_nibble(vec![1, 16]), None);
}
