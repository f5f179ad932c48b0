use fleet::layout::{
    can_center, centered, footer, pane_area, pane_inner, pane_inner_rect, screen, Rect,
    SIDEBAR_WIDTH,
};

fn rect(x: u16, y: u16, width: u16, height: u16) -> Rect {
    Rect { x, y, width, height }
}

/// What a part of fixed length gets beside one that is to have at least `min`.
fn fixed(all: u16, min: u16, length: u16) -> u16 {
    length.min(all.saturating_sub(min))
}

#[test]
fn a_screen_has_a_sidebar_a_pane_and_a_status_bar() {
    let s = screen(rect(0, 0, 120, 40));
    assert_eq!(s.sidebar, rect(0, 0, SIDEBAR_WIDTH, 39));
    assert_eq!(s.pane, rect(36, 0, 84, 39));
    assert_eq!(s.status, rect(0, 39, 120, 1));
    assert_eq!(pane_area(rect(0, 0, 120, 40)), s.pane);
    assert_eq!(pane_inner_rect(s.pane), rect(37, 1, 82, 37));
    assert_eq!(pane_inner(s.pane), (37, 82));
}

#[test]
fn the_parts_tile_screens_of_every_size() {
    for width in 0..140 {
        for height in 0..12 {
            let s = screen(rect(0, 0, width, height));
            let left = fixed(width, 20, SIDEBAR_WIDTH);
            let below = fixed(height, 1, 1);
            assert_eq!(s.sidebar, rect(0, 0, left, height - below), "{width}x{height}");
            assert_eq!(s.pane, rect(left, 0, width - left, height - below), "{width}x{height}");
            assert_eq!(s.status, rect(0, height - below, width, below), "{width}x{height}");
        }
    }
}

#[test]
fn a_screen_need_not_start_at_the_corner() {
    let s = screen(rect(100, 200, 80, 24));
    assert_eq!(s.sidebar, rect(100, 200, 36, 23));
    assert_eq!(s.pane, rect(136, 200, 44, 23));
    assert_eq!(s.status, rect(100, 223, 80, 1));
}

#[test]
fn what_lies_beyond_the_largest_coordinate_is_not_there() {
    for width in [0, 10, 30, 60, 100, 65535] {
        for x in [0, 40000, 65400, 65480, 65500, 65530, 65535] {
            let s = screen(rect(x, x, width, width));
            let all = width.min(65535 - x);
            let left = fixed(all, 20, SIDEBAR_WIDTH);
            let below = fixed(all, 1, 1);
            assert_eq!(s.status, rect(x, x + (all - below), width, below), "{x} {width}");
            assert_eq!(s.sidebar, rect(x, x, left, all - below), "{x} {width}");
            assert_eq!(s.pane, rect(x + left, x, all - left, all - below), "{x} {width}");
        }
    }
}

#[test]
fn the_foot_of_the_sidebar_is_its_lowest_rows() {
    for height in 0..30 {
        for reserved in 0..35 {
            let (list, limits) = footer(reserved, rect(1, 2, 34, height));
            let got = reserved.min(height);
            assert_eq!(list, rect(1, 2, 34, height - got));
            assert_eq!(limits, rect(1, 2 + height - got, 34, got));
        }
    }
    assert_eq!(footer(65535, rect(0, 0, 5, 65535)), (rect(0, 0, 5, 0), rect(0, 0, 5, 65535)));
}

#[test]
fn a_border_takes_a_cell_on_each_side() {
    assert_eq!(pane_inner_rect(rect(3, 4, 10, 20)), rect(4, 5, 8, 18));
    assert_eq!(pane_inner_rect(rect(3, 4, 2, 2)), rect(4, 5, 0, 0));
    assert_eq!(pane_inner_rect(rect(3, 4, 1, 1)), rect(4, 5, 0, 0));
    assert_eq!(pane_inner_rect(rect(3, 4, 0, 0)), rect(3, 4, 0, 0));
    assert_eq!(pane_inner_rect(rect(65535, 65534, 9, 9)), rect(65535, 65535, 7, 7));
    // A PTY has at least one row and one column.
    assert_eq!(pane_inner(rect(3, 4, 2, 0)), (1, 1));
    assert_eq!(pane_inner(rect(3, 4, 3, 9)), (7, 1));
}

#[test]
fn a_dialog_stands_in_the_middle() {
    assert_eq!(centered(46, 5, rect(0, 0, 100, 40)), rect(27, 17, 46, 5));
    assert_eq!(centered(46, 5, rect(0, 0, 101, 40)), rect(27, 17, 46, 5));
    assert_eq!(centered(46, 5, rect(10, 10, 20, 3)), rect(10, 10, 20, 3));
    assert!(can_center(46, 5, rect(65490, 0, 45, 40)));
    assert!(!can_center(46, 5, rect(65500, 0, 200, 40)));
    assert!(!can_center(46, 5, rect(0, 65500, 200, 200)));
}
