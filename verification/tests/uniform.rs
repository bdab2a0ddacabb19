use myocyte::uniform::{pack_quads, pad_to_quads};

#[test]
fn pack_quads_four_per_vector() {
    let v: Vec<u32> = (0..10).collect();
    let q = pack_quads(&v, 8);
    assert_eq!(q, vec![[0, 1, 2, 3], [4, 5, 6, 7]]);
    assert!(pack_quads(&v, 0).is_empty());
}

#[test]
fn pack_quads_cursor_strengths() {
    let s: Vec<f32> = (0..360).map(|i| i as f32 * 0.5).collect();
    let q = pack_quads(&s, 360);
    assert_eq!(q.len(), 90);
    for i in 0..360 {
        assert_eq!(q[i / 4][i % 4], s[i]);
    }
}

#[test]
fn pad_to_quads_fills_fourth_lane() {
    let v = vec![[1.0f32, 2.0, 3.0], [4.0, 5.0, 6.0], [7.0, 8.0, 9.0]];
    let q = pad_to_quads(&v, 2, 0.0);
    assert_eq!(q, vec![[1.0, 2.0, 3.0, 0.0], [4.0, 5.0, 6.0, 0.0]]);
}
