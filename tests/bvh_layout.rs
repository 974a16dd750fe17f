use rayonetta::bvh::{sort_on_axis, BvhChild, BVH};

fn objects(node: &BVH, out: &mut Vec<usize>) {
    if let (BvhChild::Object(a), BvhChild::Object(b)) = (&node.left, &node.right) {
        if a == b {
            out.push(*a);
            return;
        }
    }
    for child in [&node.left, &node.right] {
        match child {
            BvhChild::Object(o) => out.push(*o),
            BvhChild::Node(n) => objects(n, out),
        }
    }
}

fn count(node: &BVH) -> usize {
    let mut v = Vec::new();
    objects(node, &mut v);
    v.len()
}

fn check_shape(node: &BVH, keys: &[[i64; 3]]) {
    match (&node.left, &node.right) {
        (BvhChild::Object(a), BvhChild::Object(b)) => {
            assert!(*a < keys.len() && *b < keys.len());
        }
        (BvhChild::Node(l), BvhChild::Node(r)) => {
            let (nl, nr) = (count(l), count(r));
            assert!(nl + nr >= 3);
            assert_eq!(nl, (nl + nr) / 2);
            let mut lo = Vec::new();
            let mut hi = Vec::new();
            objects(l, &mut lo);
            objects(r, &mut hi);
            let split = (0..3).any(|axis| {
                lo.iter().all(|&a| hi.iter().all(|&b| keys[a][axis] <= keys[b][axis]))
            });
            assert!(split);
            check_shape(l, keys);
            check_shape(r, keys);
        }
        _ => panic!("a node holds two objects or two subtrees"),
    }
}

fn keys_for(n: usize) -> Vec<[i64; 3]> {
    (0..n as i64).map(|i| [(i * 37) % 101 - 50, (i * 53) % 97, -(i * 11) % 89]).collect()
}

fn check_cover(n: usize) {
    let keys = keys_for(n);
    let bvh = BVH::new(&keys);
    let mut seen = Vec::new();
    objects(&bvh, &mut seen);
    seen.sort();
    assert_eq!(seen, (0..n).collect::<Vec<_>>());
    check_shape(&bvh, &keys);
}

#[test]
fn single_object_is_aliased_on_both_sides() {
    let bvh = BVH::new(&vec![[1, 2, 3]]);
    assert!(matches!((&bvh.left, &bvh.right), (BvhChild::Object(0), BvhChild::Object(0))));
}

#[test]
fn two_objects_one_per_side() {
    let bvh = BVH::new(&vec![[5, 5, 5], [-5, -5, -5]]);
    assert!(matches!((&bvh.left, &bvh.right), (BvhChild::Object(0), BvhChild::Object(1))));
}

#[test]
fn three_objects_split_one_and_two() {
    let keys = vec![[3, 3, 3], [1, 1, 1], [2, 2, 2]];
    let bvh = BVH::new(&keys);
    match (&bvh.left, &bvh.right) {
        (BvhChild::Node(l), BvhChild::Node(r)) => {
            assert!(matches!((&l.left, &l.right), (BvhChild::Object(1), BvhChild::Object(1))));
            assert!(matches!((&r.left, &r.right), (BvhChild::Object(2), BvhChild::Object(0))));
        }
        _ => panic!("three objects make two subtrees"),
    }
}

#[test]
fn every_object_appears_once() {
    for n in [1usize, 2, 3, 4, 5, 8, 1000] {
        check_cover(n);
    }
}

#[test]
fn equal_keys_keep_every_object() {
    let keys = vec![[0, 0, 0]; 9];
    let bvh = BVH::new(&keys);
    let mut seen = Vec::new();
    objects(&bvh, &mut seen);
    seen.sort();
    assert_eq!(seen, (0..9).collect::<Vec<_>>());
    check_shape(&bvh, &keys);
}

#[test]
fn sort_on_axis_is_stable() {
    let keys = vec![[2, 0, 9], [1, 0, 8], [2, 0, 7], [0, 0, 6]];
    assert_eq!(sort_on_axis(&vec![0, 1, 2, 3], &keys, 0), vec![3, 1, 0, 2]);
    assert_eq!(sort_on_axis(&vec![0, 1, 2, 3], &keys, 1), vec![0, 1, 2, 3]);
    assert_eq!(sort_on_axis(&vec![0, 1, 2, 3], &keys, 2), vec![3, 2, 1, 0]);
    assert_eq!(sort_on_axis(&vec![], &keys, 2), Vec::<usize>::new());
}
