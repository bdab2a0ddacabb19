use myocyte::sort::{sort_back_to_front, SplatWithDepth};
use myocyte::sphere::build_sphere_indices;

#[test]
fn sphere_indices_small_mesh() {
    let idx = build_sphere_indices(2, 3);
    assert_eq!(idx.len(), 36);
    assert_eq!(&idx[0..6], &[0, 4, 1, 1, 4, 5]);
    assert_eq!(&idx[6..12], &[1, 5, 2, 2, 5, 6]);
    assert_eq!(&idx[18..24], &[4, 8, 5, 5, 8, 9]);
    assert!(idx.iter().all(|i| *i < 12));
}

#[test]
fn sphere_indices_default_resolution() {
    let idx = build_sphere_indices(48, 64);
    assert_eq!(idx.len(), 48 * 64 * 6);
    assert!(idx.iter().all(|i| *i < 49 * 65));
    assert_eq!(*idx.last().unwrap(), 49 * 65 - 1);
}

#[test]
fn sphere_indices_empty() {
    assert!(build_sphere_indices(0, 5).is_empty());
    assert!(build_sphere_indices(5, 0).is_empty());
}

#[test]
fn sort_orders_back_to_front() {
    let mut v = vec![
        SplatWithDepth { gpu: 'a', depth_key: 5 },
        SplatWithDepth { gpu: 'b', depth_key: 1 },
        SplatWithDepth { gpu: 'c', depth_key: 3 },
        SplatWithDepth { gpu: 'd', depth_key: 1 },
    ];
    let out = sort_back_to_front(&mut v);
    let keys: Vec<u32> = v.iter().map(|s| s.depth_key).collect();
    assert_eq!(keys, vec![1, 1, 3, 5]);
    assert_eq!(out.len(), 4);
    assert_eq!(out[2], 'c');
    assert_eq!(out[3], 'a');
    let mut first_two = vec![out[0], out[1]];
    first_two.sort();
    assert_eq!(first_two, vec!['b', 'd']);
    for (o, s) in out.iter().zip(v.iter()) {
        assert_eq!(*o, s.gpu);
    }
}

#[test]
fn sort_empty_and_single() {
    let mut v: Vec<SplatWithDepth<u8>> = vec![];
    assert!(sort_back_to_front(&mut v).is_empty());
    let mut v = vec![SplatWithDepth { gpu: 9u8, depth_key: 4 }];
    assert_eq!(sort_back_to_front(&mut v), vec![9]);
}

#[test]
fn sort_is_a_permutation() {
    let mut v: Vec<SplatWithDepth<usize>> = (0..200)
        .map(|i| SplatWithDepth { gpu: i, depth_key: ((i * 7919) % 97) as u32 })
        .collect();
    let out = sort_back_to_front(&mut v);
    for w in v.windows(2) {
        assert!(w[0].depth_key <= w[1].depth_key);
    }
    let mut ids = out.clone();
    ids.sort();
    assert_eq!(ids, (0..200).collect::<Vec<_>>());
    for s in &v {
        assert_eq!(s.depth_key, ((s.gpu * 7919) % 97) as u32);
    }
}
