use pathtracer::import::{assemble_triangles, collect_rgba, MaterialSlots};

#[test]
fn test_vector_wrapper() {
    let data = vec![[1f32, 2., 3.], [4., 5., 6.], [7., 8., 9.]];

    let converted: Vec<f32> = collect_rgba(&data, 1.);

    assert_eq!(converted.len(), 4 * 3);
    assert_eq!(converted[0], 1.);
    assert_eq!(converted[1], 2.);
    assert_eq!(converted[2], 3.);
    assert_eq!(converted[3], 1.);

    assert_eq!(converted[4], 4.);
    assert_eq!(converted[5], 5.);
    assert_eq!(converted[6], 6.);
    assert_eq!(converted[7], 1.);

    assert_eq!(converted[8], 7.);
    assert_eq!(converted[9], 8.);
    assert_eq!(converted[10], 9.);
    assert_eq!(converted[11], 1.);
}

#[test]
fn triangles_from_index_buffer() {
    let vertices = vec!['a', 'b', 'c', 'd'];
    let t = assemble_triangles(&vertices, &vec![0, 1, 2, 2, 3, 0], '-');
    assert_eq!(t, vec![['a', 'b', 'c'], ['c', 'd', 'a']]);
}

#[test]
fn short_last_group_keeps_missing_corners() {
    let vertices = vec![10u8, 20, 30];
    let t = assemble_triangles(&vertices, &vec![2, 1, 0, 1], 0);
    assert_eq!(t, vec![[30, 20, 10], [20, 0, 0]]);
    assert!(assemble_triangles(&vertices, &vec![], 0).is_empty());
}

#[test]
fn material_slots_in_first_use_order() {
    let mut slots = MaterialSlots::new();
    assert_eq!(slots.slot(Some(7)), (0, true));
    assert_eq!(slots.slot(Some(3)), (1, true));
    assert_eq!(slots.slot(Some(7)), (0, false));
    assert_eq!(slots.slot(None), (-1, false));
    assert_eq!(slots.slot(Some(3)), (1, false));
    assert_eq!(slots.count, 2);
}
