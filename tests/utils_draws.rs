use rayonetta::utils::{int_from_draw, random_draws, random_int};

#[test]
fn draw_maps_by_remainder() {
    assert_eq!(int_from_draw(10, 2), 1);
    assert_eq!(int_from_draw(9, 2), 0);
    assert_eq!(int_from_draw(u64::MAX, 0), 0);
    assert_eq!(int_from_draw(255, 255), 255);
    assert_eq!(int_from_draw(256, 255), 0);
}

#[test]
fn random_int_stays_in_range() {
    for _ in 0..1000 {
        let r = random_int(3, 7);
        assert!((3..=7).contains(&r));
    }
    assert_eq!(random_int(4, 4), 4);
    let _ = random_int(0, usize::MAX);
}

#[test]
fn random_draws_have_requested_length() {
    assert_eq!(random_draws(0).len(), 0);
    assert_eq!(random_draws(17).len(), 17);
}
