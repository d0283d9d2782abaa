use hunter_core::miller_columns::{Coordinates, MillerColumns};
use hunter_core::viewport::{Movement, Viewport};

fn at(v: &Viewport) -> (usize, usize) {
    (v.selection, v.offset)
}

#[test]
fn four_moves_down_scroll_by_two() {
    let mut v = Viewport::new(3);
    v.move_down(5);
    assert_eq!(at(&v), (1, 0));
    v.move_down(5);
    assert_eq!(at(&v), (2, 0));
    v.move_down(5);
    assert_eq!(at(&v), (3, 1));
    v.move_down(5);
    assert_eq!(at(&v), (4, 2));
    v.move_down(5);
    assert_eq!(at(&v), (4, 2));
}

#[test]
fn move_up_scrolls_back_at_the_top_row() {
    let mut v = Viewport::new(3);
    for _ in 0..4 {
        v.move_down(5);
    }
    v.move_up();
    assert_eq!(at(&v), (3, 2));
    v.move_up();
    assert_eq!(at(&v), (2, 2));
    v.move_up();
    assert_eq!(at(&v), (1, 1));
    v.move_up();
    v.move_up();
    assert_eq!(at(&v), (0, 0));
    v.move_up();
    assert_eq!(at(&v), (0, 0));
}

#[test]
fn empty_collection_keeps_selection_at_zero() {
    let mut v = Viewport::new(4);
    v.move_down(0);
    v.page_down(0);
    v.move_bottom(0);
    assert_eq!(at(&v), (0, 0));
}

#[test]
fn set_selection_scrolls_by_pages() {
    let mut v = Viewport::new(10);
    v.set_selection(25);
    assert_eq!(at(&v), (25, 20));
    v.set_selection(9);
    assert_eq!(at(&v), (9, 0));
    v.set_selection(10);
    assert_eq!(at(&v), (10, 10));
}

#[test]
fn page_moves_saturate() {
    let mut v = Viewport::new(4);
    v.page_down(10);
    assert_eq!(at(&v), (4, 1));
    v.page_down(10);
    assert_eq!(at(&v), (8, 5));
    v.page_down(10);
    assert_eq!(at(&v), (9, 6));
    v.page_up();
    assert_eq!(at(&v), (5, 5));
    v.page_up();
    assert_eq!(at(&v), (1, 1));
    v.page_up();
    assert_eq!(at(&v), (0, 0));
}

#[test]
fn bottom_and_top() {
    let mut v = Viewport::new(3);
    v.move_bottom(7);
    assert_eq!(at(&v), (6, 6));
    v.move_top();
    assert_eq!(at(&v), (0, 0));
}

#[test]
fn random_navigation_keeps_invariant() {
    let len: usize = 13;
    let mut v = Viewport::new(4);
    let mut seed: u64 = 7;
    for _ in 0..500 {
        seed = seed.wrapping_mul(6364136223846793005).wrapping_add(1442695040888963407);
        let m = match (seed >> 33) % 8 {
            0 => Movement::Up(((seed >> 40) % 5) as usize),
            1 => Movement::Down(((seed >> 40) % 5) as usize),
            2 => Movement::PageUp,
            3 => Movement::PageDown,
            4 => Movement::Top,
            5 => Movement::Bottom,
            6 => Movement::Left,
            _ => Movement::Right,
        };
        v.movement(m, len);
        assert!(v.selection < len);
        assert!(v.offset <= v.selection);
        assert!(v.selection - v.offset < v.height);
    }
}

#[test]
fn movement_up_and_down_by_counts() {
    let mut v = Viewport::new(3);
    v.movement(Movement::Down(3), 5);
    assert_eq!(at(&v), (3, 1));
    v.movement(Movement::Down(9), 5);
    assert_eq!(at(&v), (4, 2));
    v.movement(Movement::Up(2), 5);
    assert_eq!(at(&v), (2, 2));
    v.movement(Movement::Left, 5);
    assert_eq!(at(&v), (2, 2));
}

#[test]
fn columns_split_by_ratio() {
    let mut m: MillerColumns<u32> = MillerColumns::new();
    let c = Coordinates { x: 1, y: 2, xsize: 100, ysize: 40 };
    assert!(m.set_coordinates(&c));
    assert!(!m.set_coordinates(&c));
    let (l, main, p) = m.calculate_coordinates();
    assert_eq!(l, Coordinates { x: 1, y: 2, xsize: 20, ysize: 40 });
    assert_eq!(main, Coordinates { x: 22, y: 2, xsize: 30, ysize: 40 });
    assert_eq!(p, Coordinates { x: 53, y: 2, xsize: 49, ysize: 40 });
}

#[test]
fn columns_laid_out_on_push_and_resize() {
    let mut m: MillerColumns<u32> = MillerColumns::new();
    m.push_widget(1);
    assert_eq!(m.columns.0, Coordinates::new());
    m.set_coordinates(&Coordinates { x: 1, y: 1, xsize: 200, ysize: 10 });
    assert_eq!(m.columns.1, Coordinates { x: 42, y: 1, xsize: 60, ysize: 10 });
    m.ratio = (150, 20, 10);
    m.push_widget(2);
    assert_eq!(m.columns.0, Coordinates { x: 1, y: 1, xsize: 300, ysize: 10 });
    assert_eq!(m.columns.2, Coordinates { x: 343, y: 1, xsize: 19, ysize: 10 });
}

#[test]
fn movement_counts_move_the_offset() {
    let mut v = Viewport::new(2);
    v.movement(Movement::Down(3), 6);
    assert_eq!(at(&v), (3, 2));
    v.movement(Movement::Up(2), 6);
    assert_eq!(at(&v), (1, 1));
}

#[test]
fn columns_stack() {
    let mut m: MillerColumns<u32> = MillerColumns::new();
    assert!(m.get_left_widget().is_none());
    m.push_widget(1);
    assert!(m.get_left_widget().is_none());
    m.push_widget(2);
    m.prepend_widget(0);
    assert_eq!(m.widgets, vec![0, 1, 2]);
    assert_eq!(*m.get_main_widget(), 2);
    assert_eq!(m.get_left_widget(), Some(&1));
    *m.get_main_widget_mut() = 5;
    if let Some(w) = m.get_left_widget_mut() {
        *w = 4;
    }
    assert_eq!(m.widgets, vec![0, 4, 5]);
    assert_eq!(m.pop_widget(), Some(5));
    assert_eq!(m.pop_widget(), Some(4));
    assert_eq!(m.pop_widget(), Some(0));
    assert_eq!(m.pop_widget(), None);
}
