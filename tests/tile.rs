use pathtracer::tile::{tile_grid, tile_origins};
use pathtracer::TextureBlock;

#[test]
fn grid_drops_partial_tiles() {
    assert_eq!(tile_grid(64, 96), (2, 3));
    assert_eq!(tile_grid(100, 31), (3, 0));
}

#[test]
fn origins_are_row_major() {
    let o = tile_origins(64, 70);
    assert_eq!(o, vec![(0, 0), (32, 0), (0, 32), (32, 32)]);
    assert!(tile_origins(31, 500).is_empty());
}

#[test]
fn block_set_get() {
    let mut b = TextureBlock::new(3, 2, 0u32);
    assert_eq!(b.data.len(), 6);
    b.set(2, 1, 7);
    b.set(0, 1, 5);
    assert_eq!(*b.get(2, 1), 7);
    assert_eq!(*b.get(0, 1), 5);
    assert_eq!(*b.get(1, 0), 0);
    assert_eq!(b.data, vec![0, 0, 0, 5, 0, 7]);
}

#[test]
fn merge_into_touches_only_the_tile() {
    let mut b = TextureBlock::new(2, 2, 0i64);
    b.set(0, 0, 1);
    b.set(1, 0, 2);
    b.set(0, 1, 3);
    b.set(1, 1, 4);
    let mut frame = vec![100i64; 4 * 3];
    b.merge_into(&mut frame, 4, 1, 1, |old, new| old * 10 + new);
    assert_eq!(
        frame,
        vec![100, 100, 100, 100, 100, 1001, 1002, 100, 100, 1003, 1004, 100]
    );
}

#[test]
fn merge_into_running_mean() {
    let mut frame = vec![0i64; 2];
    for n in 1..=4i64 {
        let b = TextureBlock::new(2, 1, 8i64);
        b.merge_into(&mut frame, 2, 0, 0, |old, new| (old * (n - 1) + new) / n);
    }
    assert_eq!(frame, vec![8, 8]);
}
