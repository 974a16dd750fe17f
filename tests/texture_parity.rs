use rayonetta::texture::checker_is_odd;

#[test]
fn checker_cells_alternate_across_origin() {
    // cells x in [-1, 0) and x in [0, 1) with scale 1
    assert_ne!(checker_is_odd(-1, 0, 0), checker_is_odd(0, 0, 0));
    assert!(checker_is_odd(-1, 0, 0));
    assert!(!checker_is_odd(0, 0, 0));
}

#[test]
fn checker_negative_sums_use_euclidean_parity() {
    assert!(!checker_is_odd(-1, -1, 0));
    assert!(checker_is_odd(-1, -1, -1));
    assert!(!checker_is_odd(-3, 1, 0));
    assert!(checker_is_odd(i32::MIN, 0, 1));
    assert!(checker_is_odd(i32::MAX, i32::MAX, i32::MAX));
}

#[test]
fn checker_neighbours_differ_on_every_axis() {
    for x in -3..3 {
        for y in -3..3 {
            for z in -3..3 {
                let c = checker_is_odd(x, y, z);
                assert_ne!(c, checker_is_odd(x + 1, y, z));
                assert_ne!(c, checker_is_odd(x, y + 1, z));
                assert_ne!(c, checker_is_odd(x, y, z + 1));
            }
        }
    }
}
