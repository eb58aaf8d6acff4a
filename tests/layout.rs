use kas::geom::{Coord, Direction, Offset, Rect, Size};
use kas::layout::{distribute_span, grid_axis_rules, set_grid_rects, set_row_rects, solve_seq, sum_seq, CellInfo, GridDimensions};
use kas::size_rules::{AxisInfo, FrameRules, Margins, SizeRules, Stretch};

#[test]
fn coord_ops() {
    assert_eq!(Coord::splat(3), Coord(3, 3));
    assert_eq!(Coord(1, 5).min(Coord(2, 4)), Coord(1, 4));
    assert_eq!(Coord(1, 5).max(Coord(2, 4)), Coord(2, 5));
    assert_eq!(Coord(10, -10).clamp(Coord(0, 0), Coord(5, 5)), Coord(5, 0));
    assert_eq!(Coord(1, 2).transpose(), Coord(2, 1));
    assert_eq!(Coord(7, 9).sub(Coord(2, 3)), Offset(5, 6));
}

#[test]
fn clamp_with_min_above_max_gives_min() {
    assert_eq!(Coord(3, 3).clamp(Coord(8, 8), Coord(2, 2)), Coord(8, 8));
}

#[test]
fn size_ops() {
    assert_eq!(Size::splat(4), Size(4, 4));
    assert_eq!(Size(1, 9).min(Size(3, 2)), Size(1, 2));
    assert_eq!(Size(1, 9).max(Size(3, 2)), Size(3, 9));
    assert_eq!(Size(1, 2).transpose(), Size(2, 1));
    assert_eq!(Size(5, i32::MIN).saturating_sub(Size(7, 1)), Size(-2, i32::MIN));
}

#[test]
fn rect_ops() {
    let r = Rect::new(Coord(10, 20), Size(30, 40));
    assert_eq!(r.pos_end(), Coord(40, 60));
    assert!(r.contains(Coord(10, 20)));
    assert!(r.contains(Coord(39, 59)));
    assert!(!r.contains(Coord(40, 20)));
    assert!(!r.contains(Coord(9, 30)));
    let s = r.shrink(5);
    assert_eq!(s, Rect::new(Coord(15, 25), Size(20, 30)));
    assert_eq!(Rect::new(Coord(0, 0), Size(4, 4)).shrink(3).size, Size(-2, -2));
    assert_eq!(r.translate(Coord(1, 1)).pos, Coord(11, 21));
    assert_eq!(r.translate_back(Coord(1, 1)), Rect::new(Coord(9, 19), Size(30, 40)));
}

#[test]
fn margins_ops() {
    let m = Margins::hv((1, 2), (3, 4));
    assert_eq!(m.sum_horiz(), 3);
    assert_eq!(m.sum_vert(), 7);
    assert_eq!(m.pad(Size(10, 10)), Size(13, 17));
    assert_eq!(m.extract(Direction::Down), (3, 4));
    assert_eq!(m.extract(Direction::Left), (1, 2));
    assert_eq!(Margins::splat(2), Margins::hv((2, 2), (2, 2)));
    assert_eq!(Margins::hv_splat((5, 6)), Margins::hv((5, 5), (6, 6)));
    assert_eq!(Margins::zero(), Margins::default());
}

#[test]
fn size_rules_new_raises_ideal() {
    let r = SizeRules::new(10, 5, (1, 2), Stretch::High);
    assert_eq!(r.min_size(), 10);
    assert_eq!(r.ideal_size(), 10);
    assert_eq!(r.margins(), (1, 2));
    assert_eq!(r.margins_i32(), (1, 2));
    assert_eq!(r.stretch(), Stretch::High);
    assert_eq!(SizeRules::fixed(7, (0, 3)), SizeRules::new(7, 7, (0, 3), Stretch::NoStretch));
}

#[test]
fn size_rules_max_and_append() {
    let a = SizeRules::new(10, 20, (1, 5), Stretch::Low);
    let b = SizeRules::new(15, 18, (3, 2), Stretch::Filler);
    let m = a.max(b);
    assert_eq!(m, SizeRules::new(15, 20, (3, 5), Stretch::Low));
    let mut c = a;
    c.append(b);
    // the margins meeting between the two are 5 and 3: the larger counts
    assert_eq!(c, SizeRules::new(30, 43, (1, 2), Stretch::Low));
    assert!(c.min_size() <= c.ideal_size());
    let mut d = b;
    d.max_with(a);
    assert_eq!(d, m);
}

#[test]
fn sum_seq_appends_in_order() {
    let rules = vec![
        SizeRules::new(1, 2, (0, 4), Stretch::NoStretch),
        SizeRules::new(3, 5, (2, 1), Stretch::High),
        SizeRules::new(0, 1, (6, 7), Stretch::Low),
    ];
    assert_eq!(sum_seq(&rules), SizeRules::new(14, 18, (0, 7), Stretch::High));
    assert_eq!(sum_seq(&vec![]), SizeRules::empty());
}

#[test]
fn stretch_order() {
    assert_eq!(Stretch::Low.max(Stretch::High), Stretch::High);
    assert_eq!(Stretch::Maximize.max(Stretch::NoStretch), Stretch::Maximize);
    assert!(Stretch::NoStretch.rank() < Stretch::Filler.rank());
    assert_eq!(Stretch::default(), Stretch::NoStretch);
}

#[test]
fn frame_surround_with_margin() {
    let f = FrameRules::new(2, 3, 4, (7, 8));
    let content = SizeRules::new(10, 20, (1, 6), Stretch::Low);
    let (rules, offset, size) = f.surround_with_margin(content);
    // margins max(1, 4) = 4 and max(6, 4) = 6
    assert_eq!(offset, 6);
    assert_eq!(size, 15);
    assert_eq!(rules, SizeRules::new(25, 35, (7, 8), Stretch::Low));
}

#[test]
fn frame_surround_as_margin() {
    let f = FrameRules::new_sym(2, 1, 0);
    let content = SizeRules::new(10, 20, (5, 1), Stretch::High);
    let (rules, offset, size) = f.surround_as_margin(content);
    assert_eq!(offset, 3);
    assert_eq!(size, 6);
    // residual margins: 5 - 3 = 2 before, max(1 + 3 - 6, 0) = 0 after
    assert_eq!(rules, SizeRules::new(16, 26, (2, 0), Stretch::High));
}

#[test]
fn frame_surround_as_margin_saturates() {
    let f = FrameRules::new(-70000, 0, 0, (0, 0));
    let content = SizeRules::new(100000, 100000, (0, 0), Stretch::NoStretch);
    let (rules, _, _) = f.surround_as_margin(content);
    assert_eq!(rules.margins(), (u16::MAX, 0));
}

#[test]
fn frame_surround_no_margin() {
    let f = FrameRules::new(1, 2, 3, (4, 5));
    let content = SizeRules::new(10, 12, (9, 9), Stretch::Filler);
    let (rules, offset, size) = f.surround_no_margin(content);
    assert_eq!(offset, 4);
    assert_eq!(size, 9);
    assert_eq!(rules, SizeRules::new(19, 21, (4, 5), Stretch::Filler));
}

#[test]
fn axis_info_fixed() {
    let a = AxisInfo::new(true, Some(50));
    assert!(a.vertical());
    assert_eq!(a.fixed(true), Some(50));
    assert_eq!(a.fixed(false), None);
    assert_eq!(AxisInfo::new(false, None).fixed(false), None);
}

#[test]
fn column_low_stretch_absorbs_slack() {
    let rules = vec![
        SizeRules::new(50, 50, (0, 0), Stretch::Low),
        SizeRules::new(80, 80, (0, 0), Stretch::NoStretch),
    ];
    assert_eq!(solve_seq(&rules, 200), vec![120, 80]);
    let rects = set_row_rects(Rect::new(Coord(0, 0), Size(30, 200)), true, &rules);
    assert_eq!(rects[0], Rect::new(Coord(0, 0), Size(30, 120)));
    assert_eq!(rects[1], Rect::new(Coord(0, 120), Size(30, 80)));
}

#[test]
fn solve_splits_evenly_in_top_class() {
    let rules = vec![
        SizeRules::new(0, 10, (0, 0), Stretch::High),
        SizeRules::new(0, 10, (0, 0), Stretch::Low),
        SizeRules::new(0, 10, (0, 0), Stretch::High),
    ];
    // 7 extra: 4 to the first High child, 3 to the second
    assert_eq!(solve_seq(&rules, 37), vec![14, 10, 13]);
}

#[test]
fn solve_between_min_and_ideal() {
    let rules = vec![
        SizeRules::new(10, 30, (0, 0), Stretch::NoStretch),
        SizeRules::new(10, 30, (0, 0), Stretch::NoStretch),
    ];
    assert_eq!(solve_seq(&rules, 35), vec![25, 10]);
}

#[test]
fn solve_below_min() {
    let rules = vec![
        SizeRules::new(10, 30, (0, 0), Stretch::NoStretch),
        SizeRules::new(10, 30, (0, 0), Stretch::NoStretch),
    ];
    assert_eq!(solve_seq(&rules, 15), vec![10, 5]);
    assert_eq!(solve_seq(&rules, 0), vec![0, 0]);
    assert_eq!(solve_seq(&vec![], 10), Vec::<i32>::new());
}

#[test]
fn row_rects_cover_rect() {
    let rules = vec![
        SizeRules::new(5, 10, (0, 0), Stretch::Filler),
        SizeRules::new(5, 20, (0, 0), Stretch::NoStretch),
        SizeRules::new(5, 15, (0, 0), Stretch::Filler),
    ];
    let rect = Rect::new(Coord(3, 4), Size(100, 9));
    let rects = set_row_rects(rect, false, &rules);
    let total: i32 = rects.iter().map(|r| r.size.0).sum();
    assert_eq!(total, 100);
    assert_eq!(rects[0].pos.0, 3);
    for i in 1..rects.len() {
        assert_eq!(rects[i].pos.0, rects[i - 1].pos.0 + rects[i - 1].size.0);
    }
    for r in &rects {
        assert_eq!((r.pos.1, r.size.1), (4, 9));
    }
    assert_eq!(rects[2].pos.0 + rects[2].size.0, 103);
}

#[test]
fn grid_dimensions_update() {
    let mut dim = GridDimensions::default();
    dim.update(&CellInfo::new(0, 0));
    dim.update(&CellInfo::new(2, 1));
    dim.update(&CellInfo { col: 0, col_end: 3, row: 2, row_end: 3 });
    assert_eq!(dim, GridDimensions { cols: 3, col_spans: 1, rows: 3, row_spans: 0 });
    assert_eq!(CellInfo::new(4, 5), CellInfo { col: 4, col_end: 5, row: 5, row_end: 6 });
}

#[test]
fn grid_cells_follow_columns_and_rows() {
    let cols = vec![
        SizeRules::fixed(10, (0, 0)),
        SizeRules::new(10, 20, (0, 0), Stretch::Low),
    ];
    let rows = vec![SizeRules::fixed(5, (0, 0)), SizeRules::new(0, 5, (0, 0), Stretch::High)];
    let cells = vec![
        CellInfo::new(0, 0),
        CellInfo::new(1, 0),
        CellInfo { col: 0, col_end: 2, row: 1, row_end: 2 },
    ];
    let rect = Rect::new(Coord(1, 1), Size(40, 12));
    let r = set_grid_rects(rect, &cols, &rows, &cells);
    assert_eq!(r[0], Rect::new(Coord(1, 1), Size(10, 5)));
    assert_eq!(r[1], Rect::new(Coord(11, 1), Size(30, 5)));
    assert_eq!(r[2], Rect::new(Coord(1, 6), Size(40, 7)));
}

#[test]
fn grid_columns_unite_their_cells() {
    let a = SizeRules::new(10, 20, (1, 2), Stretch::NoStretch);
    let b = SizeRules::new(5, 5, (0, 0), Stretch::High);
    let c = SizeRules::new(15, 16, (3, 0), Stretch::Low);
    let wide = SizeRules::new(100, 100, (0, 0), Stretch::Maximize);
    let cells = vec![
        (CellInfo::new(0, 0), a),
        (CellInfo::new(1, 0), b),
        (CellInfo::new(0, 1), c),
        (CellInfo { col: 0, col_end: 2, row: 2, row_end: 3 }, wide),
    ];
    let cols = grid_axis_rules(2, &cells, false);
    assert_eq!(cols, vec![SizeRules::new(15, 20, (3, 2), Stretch::Low), b]);
    let rows = grid_axis_rules(3, &cells, true);
    assert_eq!(rows[0], SizeRules::new(10, 20, (1, 2), Stretch::High));
    assert_eq!(rows[1], c);
    assert_eq!(rows[2], wide);
}

#[test]
fn spanning_cell_raises_its_columns() {
    let mut cols = vec![
        SizeRules::fixed(10, (1, 1)),
        SizeRules::fixed(10, (0, 0)),
        SizeRules::new(3, 4, (0, 0), Stretch::High),
    ];
    distribute_span(&mut cols, 0, 2, SizeRules::new(30, 40, (0, 0), Stretch::NoStretch));
    assert_eq!(cols[0], SizeRules::new(15, 20, (1, 1), Stretch::NoStretch));
    assert_eq!(cols[1], SizeRules::new(15, 20, (0, 0), Stretch::NoStretch));
    assert_eq!(cols[2], SizeRules::new(3, 4, (0, 0), Stretch::High));

    let mut uneven = vec![SizeRules::fixed(10, (0, 0)), SizeRules::fixed(10, (0, 0))];
    distribute_span(&mut uneven, 0, 2, SizeRules::new(25, 25, (0, 0), Stretch::NoStretch));
    assert_eq!(uneven[0], SizeRules::fixed(13, (0, 0)));
    assert_eq!(uneven[1], SizeRules::fixed(12, (0, 0)));

    let mut enough = vec![SizeRules::fixed(10, (0, 0)), SizeRules::fixed(10, (0, 0))];
    distribute_span(&mut enough, 0, 2, SizeRules::new(5, 20, (0, 0), Stretch::NoStretch));
    assert_eq!(enough, vec![SizeRules::fixed(10, (0, 0)), SizeRules::fixed(10, (0, 0))]);
}

#[test]
fn row_keeps_margins_between_children() {
    let rules = vec![
        SizeRules::new(10, 20, (0, 5), Stretch::Low),
        SizeRules::new(10, 20, (5, 0), Stretch::NoStretch),
    ];
    // phase one counts one margin of 5 between the two
    assert_eq!(sum_seq(&rules), SizeRules::new(25, 45, (0, 0), Stretch::Low));
    let rects = set_row_rects(Rect::new(Coord(0, 0), Size(100, 10)), false, &rules);
    assert_eq!(rects[0], Rect::new(Coord(0, 0), Size(75, 10)));
    assert_eq!(rects[1], Rect::new(Coord(80, 0), Size(20, 10)));
    assert_eq!(rects[0].size.0 + 5 + rects[1].size.0, 100);
}

#[test]
fn grid_keeps_margins_between_columns() {
    let cols = vec![SizeRules::fixed(10, (0, 4)), SizeRules::fixed(10, (2, 0))];
    let rows = vec![SizeRules::fixed(6, (0, 0))];
    let cells = vec![
        CellInfo::new(0, 0),
        CellInfo::new(1, 0),
        CellInfo { col: 0, col_end: 2, row: 0, row_end: 1 },
    ];
    let r = set_grid_rects(Rect::new(Coord(0, 0), Size(24, 6)), &cols, &rows, &cells);
    assert_eq!(r[0], Rect::new(Coord(0, 0), Size(10, 6)));
    assert_eq!(r[1], Rect::new(Coord(14, 0), Size(10, 6)));
    assert_eq!(r[2], Rect::new(Coord(0, 0), Size(24, 6)));
}
