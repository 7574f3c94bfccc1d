use dot_games::{Direction, Dot, DotScreen};

fn dot(x: usize, y: usize) -> Dot {
    Dot { x, y }
}

#[test]
fn opposite_directions() {
    assert!(Direction::Up.opposite() == Direction::Down);
    assert!(Direction::Down.opposite() == Direction::Up);
    assert!(Direction::Left.opposite() == Direction::Right);
    assert!(Direction::Right.opposite() == Direction::Left);
}

#[test]
fn interior_steps_move_one_cell() {
    let d = dot(3, 5);
    assert_eq!(d.left(), dot(2, 5));
    assert_eq!(d.right(), dot(4, 5));
    assert_eq!(d.up(), dot(3, 6));
    assert_eq!(d.down(), dot(3, 4));
}

#[test]
fn edge_steps_stay_put() {
    assert_eq!(dot(0, 3).left(), dot(0, 3));
    assert_eq!(dot(7, 3).right(), dot(7, 3));
    assert_eq!(dot(2, 7).up(), dot(2, 7));
    assert_eq!(dot(2, 0).down(), dot(2, 0));
    assert_eq!(dot(0, 0).down().left(), dot(0, 0));
    assert_eq!(dot(7, 7).up().right(), dot(7, 7));
}

#[test]
fn moves_in_place() {
    let mut d = dot(1, 6);
    d.move_left();
    assert_eq!(d, dot(0, 6));
    d.move_left();
    assert_eq!(d, dot(0, 6));
    d.move_up();
    assert_eq!(d, dot(0, 7));
    d.move_up();
    assert_eq!(d, dot(0, 7));
    d.move_right();
    assert_eq!(d, dot(1, 7));
    d.move_down();
    assert_eq!(d, dot(1, 6));
    let mut e = dot(7, 0);
    e.move_right();
    e.move_down();
    assert_eq!(e, dot(7, 0));
}

#[test]
fn set_then_clear_round_trip() {
    let mut s = DotScreen::new_empty();
    for x in 0..8 {
        for y in 0..8 {
            let p = dot(x, y);
            assert!(s.is_dot_off(&p));
            s.add(&p);
            assert!(s.is_dot_on(&p));
            s.add(&p);
            assert!(s.is_dot_on(&p));
            s.remove(&p);
            assert!(s.is_dot_off(&p));
            s.remove(&p);
            assert!(!s.is_on(x, y));
        }
    }
    assert_eq!(s.columns, [0u8; 8]);
}

#[test]
fn disjoint_changes_commute() {
    let p = dot(2, 3);
    let q = dot(5, 1);
    let mut a = DotScreen::new_empty();
    a.add(&p);
    a.add(&q);
    let mut b = DotScreen::new_empty();
    b.add(&q);
    b.add(&p);
    assert_eq!(a.columns, b.columns);
    let mut c = DotScreen::new_full();
    c.remove(&p);
    c.add(&q);
    let mut e = DotScreen::new_full();
    e.add(&q);
    e.remove(&p);
    assert_eq!(c.columns, e.columns);
    assert!(c.is_dot_off(&p) && c.is_dot_on(&q));
}

#[test]
fn column_byte_layout() {
    let mut s = DotScreen::new_empty();
    s.add(&dot(0, 0));
    s.add(&dot(2, 7));
    s.add(&dot(2, 1));
    assert_eq!(s.columns, [0b1000_0000, 0, 0b0100_0001, 0, 0, 0, 0, 0]);
    let t = DotScreen::new([0, 0b0001_0000, 0, 0, 0, 0, 0, 0]);
    assert!(t.is_on(1, 3));
    assert!(t.is_off(1, 4));
}

#[test]
fn full_and_cleared_screens() {
    let mut s = DotScreen::new_full();
    assert_eq!(s.columns, [255u8; 8]);
    assert!(s.is_on(4, 4));
    s.clear();
    assert_eq!(s.columns, [0u8; 8]);
    assert!(s.is_dot(7, 7));
    assert!(!s.is_dot(8, 0));
    assert!(!s.is_dot(0, 8));
}

fn collect(mut it: dot_games::IterDotScreen) -> Vec<Dot> {
    let mut out = Vec::new();
    while let Some(d) = it.next() {
        out.push(d);
    }
    out
}

#[test]
fn iteration_in_raster_order() {
    let all = collect(DotScreen::new_empty().iter());
    assert_eq!(all.len(), 64);
    assert_eq!(all[0], dot(0, 0));
    assert_eq!(all[1], dot(0, 1));
    assert_eq!(all[7], dot(0, 7));
    assert_eq!(all[8], dot(1, 0));
    assert_eq!(all[63], dot(7, 7));
}

#[test]
fn iter_on_and_off_split_the_grid() {
    let mut s = DotScreen::new_empty();
    s.add(&dot(5, 2));
    s.add(&dot(0, 7));
    s.add(&dot(5, 0));
    let on = collect(s.iter_on());
    assert_eq!(on, vec![dot(0, 7), dot(5, 0), dot(5, 2)]);
    let off = collect(s.iter_off());
    assert_eq!(off.len(), 61);
    for d in &off {
        assert!(s.is_dot_off(d));
        assert!(!on.contains(d));
    }
    let mut both: Vec<Dot> = on.iter().chain(off.iter()).cloned().collect();
    both.sort_by_key(|d| d.x * 8 + d.y);
    assert_eq!(both, collect(s.iter()));
}

#[test]
fn iterators_restart_and_nth() {
    let mut s = DotScreen::new_full();
    s.remove(&dot(3, 3));
    s.remove(&dot(6, 1));
    let mut it = s.iter_off();
    assert_eq!(it.nth(1), Some(dot(6, 1)));
    assert_eq!(it.next(), None);
    let mut again = s.iter_off();
    assert_eq!(again.nth(0), Some(dot(3, 3)));
    assert_eq!(again.nth(5), None);
    assert_eq!(collect(s.iter_on()).len(), 62);
}
