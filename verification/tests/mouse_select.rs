use caliban::mouse_select::{Cell, MouseSelection, PositionMap};

#[test]
fn empty_map_reads_none_for_any_cell() {
    let m = PositionMap::new();
    assert!(m.get(0, 0).is_none());
    assert!(m.get(100, 100).is_none());
}

#[test]
fn record_then_get_round_trips() {
    let mut m = PositionMap::new();
    m.record(2, 5, 'X');
    assert_eq!(m.get(2, 5), Some('X'));
    assert_eq!(m.get(2, 4), None);
    assert_eq!(m.get(3, 5), None);
}

#[test]
fn record_overwrites_at_same_cell() {
    let mut m = PositionMap::new();
    m.record(0, 0, 'a');
    m.record(0, 0, 'b');
    assert_eq!(m.get(0, 0), Some('b'));
}

#[test]
fn extract_single_row_returns_substring() {
    let mut m = PositionMap::new();
    for (i, ch) in "hello".chars().enumerate() {
        m.record(0, u16::try_from(i).unwrap(), ch);
    }
    assert_eq!(m.extract_range(Cell::new(0, 0), Cell::new(0, 4)), "hello");
    assert_eq!(m.extract_range(Cell::new(0, 1), Cell::new(0, 3)), "ell");
}

#[test]
fn extract_normalises_reversed_endpoints() {
    let mut m = PositionMap::new();
    for (i, ch) in "world".chars().enumerate() {
        m.record(0, u16::try_from(i).unwrap(), ch);
    }
    // start > end: should produce the same result as start < end.
    assert_eq!(m.extract_range(Cell::new(0, 4), Cell::new(0, 0)), "world");
}

#[test]
fn extract_multi_row_joins_with_newline() {
    let mut m = PositionMap::new();
    for (i, ch) in "ab".chars().enumerate() {
        m.record(0, u16::try_from(i).unwrap(), ch);
    }
    for (i, ch) in "cd".chars().enumerate() {
        m.record(1, u16::try_from(i).unwrap(), ch);
    }
    // (0,0) .. (1,1) covers full first row + full second row.
    assert_eq!(m.extract_range(Cell::new(0, 0), Cell::new(1, 1)), "ab\ncd");
}

#[test]
fn extract_multi_row_partial_endpoints() {
    let mut m = PositionMap::new();
    for (i, ch) in "abcdef".chars().enumerate() {
        m.record(0, u16::try_from(i).unwrap(), ch);
    }
    for (i, ch) in "ghijkl".chars().enumerate() {
        m.record(1, u16::try_from(i).unwrap(), ch);
    }
    // (0,3) .. (1,2): "def" + "\n" + "ghi"
    assert_eq!(
        m.extract_range(Cell::new(0, 3), Cell::new(1, 2)),
        "def\nghi",
    );
}

#[test]
fn extract_skips_missing_cells() {
    let mut m = PositionMap::new();
    m.record(0, 0, 'a');
    m.record(0, 5, 'b'); // gap at cols 1-4
    m.record(0, 6, 'c');
    // Reads the recorded cells only; gaps are skipped, not filled.
    assert_eq!(m.extract_range(Cell::new(0, 0), Cell::new(0, 10)), "abc");
}

#[test]
fn clear_empties_map_but_keeps_capacity() {
    let mut m = PositionMap::new();
    m.record(0, 0, 'x');
    m.clear();
    assert!(m.get(0, 0).is_none());
    // Subsequent record still works.
    m.record(0, 0, 'y');
    assert_eq!(m.get(0, 0), Some('y'));
}

#[test]
fn default_is_idle_with_no_range() {
    let s = MouseSelection::default();
    assert!(s.range().is_none());
}

#[test]
fn on_down_transitions_to_selecting_with_collapsed_range() {
    let mut s = MouseSelection::default();
    s.on_down(Cell::new(2, 3));
    assert_eq!(s.range(), Some((Cell::new(2, 3), Cell::new(2, 3))));
}

#[test]
fn on_drag_extends_end_only_when_selecting() {
    let mut s = MouseSelection::default();
    s.on_down(Cell::new(0, 0));
    s.on_drag(Cell::new(0, 5));
    assert_eq!(s.range(), Some((Cell::new(0, 0), Cell::new(0, 5))));
}

#[test]
fn on_drag_without_prior_down_is_noop() {
    let mut s = MouseSelection::default();
    s.on_drag(Cell::new(0, 5));
    assert!(s.range().is_none());
}

#[test]
fn on_up_finalises_to_done() {
    let mut s = MouseSelection::default();
    s.on_down(Cell::new(0, 0));
    s.on_drag(Cell::new(0, 5));
    s.on_up(Cell::new(0, 5));
    assert!(matches!(s, MouseSelection::Done { .. }));
    assert_eq!(s.range(), Some((Cell::new(0, 0), Cell::new(0, 5))));
}

#[test]
fn on_up_without_prior_down_is_noop() {
    let mut s = MouseSelection::default();
    s.on_up(Cell::new(0, 0));
    assert!(s.range().is_none());
}

#[test]
fn cancel_returns_to_idle() {
    let mut s = MouseSelection::default();
    s.on_down(Cell::new(0, 0));
    s.on_drag(Cell::new(0, 5));
    s.cancel();
    assert_eq!(s, MouseSelection::Idle);
    assert!(s.range().is_none());
}

#[test]
fn new_down_after_done_starts_fresh() {
    let mut s = MouseSelection::default();
    s.on_down(Cell::new(0, 0));
    s.on_up(Cell::new(0, 5));
    // Done state still exposes the range.
    assert!(s.range().is_some());
    // A new Down resets the anchor.
    s.on_down(Cell::new(2, 2));
    assert_eq!(s.range(), Some((Cell::new(2, 2), Cell::new(2, 2))));
}
