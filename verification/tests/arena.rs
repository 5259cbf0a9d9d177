use sparkdown::arena::bump_compute;

#[test]
fn compute_aligns_up() {
    assert_eq!(bump_compute(10, 8, 4, 1000), Some((16, 20)));
    assert_eq!(bump_compute(16, 8, 8, 1000), Some((16, 24)));
    assert_eq!(bump_compute(7, 1, 3, 1000), Some((7, 10)));
}

#[test]
fn compute_every_power_of_two_alignment() {
    for align in [1usize, 2, 4, 8, 16, 32, 64, 128, 256, 4096] {
        let (aligned, next) = bump_compute(1, align, 64, usize::MAX).unwrap();
        assert_eq!(aligned % align, 0, "align {align}");
        assert_eq!(next, aligned + 64);
    }
}

#[test]
fn compute_boundary_and_overflow() {
    assert_eq!(bump_compute(8, 8, 0, 100), Some((8, 8)));
    assert_eq!(bump_compute(0, 1, 100, 100), Some((0, 100)));
    assert_eq!(bump_compute(0, 1, 101, 100), None);
    assert_eq!(bump_compute(90, 8, 20, 100), None);
    assert_eq!(bump_compute(usize::MAX, 8, 0, usize::MAX), None);
    assert_eq!(bump_compute(usize::MAX - 3, 1, 10, usize::MAX), None);
}

#[test]
fn scope_state_resets_only_outermost() {
    let mut s = sparkdown::arena::ScopeState { depth: 0, cursor: 100, base: 64 };
    s.enter();
    s.enter();
    s.cursor = 200;
    s.leave();
    assert_eq!((s.depth, s.cursor), (1, 200));
    let saved = s.pause();
    assert_eq!((saved, s.depth), (1, 0));
    s.resume(saved);
    assert_eq!(s.depth, 1);
    s.leave();
    assert_eq!((s.depth, s.cursor), (0, 64));
    assert!(s.leave_no_reset());
    assert_eq!(s.depth, 0);
}
