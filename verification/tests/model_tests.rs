use nvim_gtk::color::Color;
use nvim_gtk::grid::Grid;
use nvim_gtk::highlight::{Highlight, HighlightMap};
use nvim_gtk::model_layout::{count_lines, ModelLayout};
use nvim_gtk::model_rect::ModelRect;
use nvim_gtk::styled_line::StyledLine;
use nvim_gtk::ui_model::{Line, UiModel};
use nvim_gtk::value::Value;

#[test]
fn mod_test_cursor_area() {
    let mut model = UiModel::new(10, 20);

    model.set_cursor(1, 1);

    let rect = model.set_cursor(5, 5);

    assert_eq!(2, rect.list.len());

    assert_eq!(1, rect.list[0].top);
    assert_eq!(1, rect.list[0].left);
    assert_eq!(1, rect.list[0].bot);
    assert_eq!(1, rect.list[0].right);

    assert_eq!(5, rect.list[1].top);
    assert_eq!(5, rect.list[1].left);
    assert_eq!(5, rect.list[1].bot);
    assert_eq!(5, rect.list[1].right);
}

#[test]
fn mod_test_scroll_area() {
    let mut model = UiModel::new(10, 20);

    let rect = model.scroll(1, 5, 1, 5, 3, Highlight::new());

    assert_eq!(1, rect.top);
    assert_eq!(1, rect.left);
    assert_eq!(5, rect.bot);
    assert_eq!(5, rect.right);
}

#[test]
fn test_count_lines() {
    let lines: Vec<Vec<(Option<Highlight>, Vec<char>)>> = vec![vec![(None, vec!['a'; 5])]];
    let rows = count_lines(&lines, 4);
    assert_eq!(2, rows);
}

#[test]
fn count_lines_sums_rows() {
    let lines: Vec<Vec<(Option<Highlight>, Vec<char>)>> = vec![
        vec![(None, vec!['a'; 3]), (None, vec!['b'; 4])],
        vec![],
        vec![(None, vec!['c'; 10])],
    ];
    // 7 chars at width 3 -> 2 rows, empty line -> 1 row, 10 chars -> 3 rows
    assert_eq!(6, count_lines(&lines, 3));
}

#[test]
fn cursor_outside_is_ignored() {
    let mut model = UiModel::new(3, 4);
    let rect = model.set_cursor(7, 1);
    assert_eq!(0, rect.list.len());
    assert_eq!((0, 0), model.get_cursor());
}

#[test]
fn put_writes_cells() {
    let mut model = UiModel::new(3, 6);
    model.put(1, 2, "x", false, 3, Highlight::new());
    assert_eq!("x", model.model[1].line[2].ch);
    assert_eq!("x", model.model[1].line[4].ch);
    assert_eq!("", model.model[1].line[5].ch);
    assert_eq!("", model.model[0].line[2].ch);
    assert!(model.model[1].dirty_line);
}

#[test]
fn scroll_moves_rows_up_and_clears() {
    let mut model = UiModel::new(5, 3);
    for r in 0..5 {
        let s = format!("{}", r);
        model.put(r, 0, &s, false, 3, Highlight::new());
    }
    let area = model.scroll(1, 3, 0, 2, 1, Highlight::new());
    assert_eq!(ModelRect::new(1, 3, 0, 2), area);
    assert_eq!("0", model.model[0].line[0].ch);
    // rows 1 and 2 swap; nothing lies between bot - count and bot to clear,
    // and the row bot itself stays
    assert_eq!("2", model.model[1].line[0].ch);
    assert_eq!("1", model.model[2].line[1].ch);
    assert_eq!("3", model.model[3].line[2].ch);
    assert_eq!("4", model.model[4].line[0].ch);
}

#[test]
fn scroll_up_clears_rows_before_bot() {
    let mut model = UiModel::new(6, 2);
    for r in 0..6 {
        let s = format!("{}", r);
        model.put(r, 0, &s, false, 2, Highlight::new());
    }
    model.scroll(0, 4, 0, 0, 2, Highlight::new());
    assert_eq!("2", model.model[0].line[0].ch);
    assert_eq!("0", model.model[0].line[1].ch);
    assert_eq!("3", model.model[1].line[0].ch);
    assert_eq!("0", model.model[2].line[0].ch);
    assert_eq!("", model.model[3].line[0].ch);
    assert_eq!("3", model.model[3].line[1].ch);
    assert_eq!("4", model.model[4].line[0].ch);
}

#[test]
fn scroll_down_swaps_from_the_bottom() {
    let mut model = UiModel::new(6, 1);
    for r in 0..6 {
        let s = format!("{}", r);
        model.put(r, 0, &s, false, 1, Highlight::new());
    }
    model.scroll(1, 5, 0, 0, -2, Highlight::new());
    assert_eq!("0", model.model[0].line[0].ch);
    assert_eq!("", model.model[1].line[0].ch);
    assert_eq!("4", model.model[2].line[0].ch);
    assert_eq!("1", model.model[3].line[0].ch);
    assert_eq!("2", model.model[4].line[0].ch);
    assert_eq!("5", model.model[5].line[0].ch);
}

#[test]
fn scroll_back_restores_inner_rows() {
    let mut model = UiModel::new(6, 2);
    for r in 0..6 {
        let s = format!("{}", r);
        model.put(r, 0, &s, false, 2, Highlight::new());
    }
    model.scroll(1, 4, 0, 1, 2, Highlight::new());
    model.scroll(1, 4, 0, 1, -2, Highlight::new());
    assert_eq!("3", model.model[3].line[0].ch);
    assert_eq!("4", model.model[4].line[1].ch);
    assert_eq!("", model.model[1].line[0].ch);
    assert_eq!("2", model.model[2].line[1].ch);
    assert_eq!("0", model.model[0].line[0].ch);
    assert_eq!("5", model.model[5].line[0].ch);
}

#[test]
fn clear_region_and_clear() {
    let mut model = UiModel::new(3, 3);
    model.put(0, 0, "a", false, 3, Highlight::new());
    model.put(2, 0, "b", false, 3, Highlight::new());
    model.clear_region(0, 1, 1, 2, Highlight::new());
    assert_eq!("a", model.model[0].line[0].ch);
    assert_eq!("", model.model[0].line[1].ch);
    assert_eq!("b", model.model[2].line[2].ch);
    model.clear(Highlight::new());
    // the last row is not cleared
    assert_eq!("b", model.model[2].line[2].ch);
    assert_eq!("", model.model[0].line[0].ch);
}

#[test]
fn grid_line_writes_entries() {
    let mut grid = Grid::new(1);
    grid.resize(8, 2);
    assert_eq!(1, grid.id());
    let hls = HighlightMap::new();
    let cells = vec![
        vec![Value::Str("a".to_string()), Value::PosInt(0)],
        vec![Value::Str("b".to_string()), Value::PosInt(0), Value::PosInt(3)],
        vec![Value::Str("c".to_string())],
    ];
    let area = grid.line(1, 2, &cells, &hls);
    assert_eq!(ModelRect::new(1, 1, 2, 6), area);
    assert_eq!("a", grid.model.model[1].line[2].ch);
    assert_eq!("b", grid.model.model[1].line[3].ch);
    assert_eq!("b", grid.model.model[1].line[5].ch);
    assert_eq!("c", grid.model.model[1].line[6].ch);
    assert_eq!("", grid.model.model[1].line[7].ch);
}

#[test]
fn grid_resize_keeps_same_size() {
    let mut grid = Grid::new(2);
    grid.resize(4, 3);
    grid.cursor_goto(2, 3);
    grid.resize(4, 3);
    assert_eq!((2, 3), grid.get_cursor());
    grid.resize(5, 3);
    assert_eq!((0, 0), grid.get_cursor());
    assert_eq!(5, grid.model.columns);
}

#[test]
fn grid_scroll_excludes_ends() {
    let mut grid = Grid::new(1);
    grid.resize(4, 4);
    let area = grid.scroll(0, 4, 0, 4, 1, 0, Highlight::new());
    assert_eq!(ModelRect::new(0, 3, 0, 3), area);
    let cur = grid.cur_point();
    assert_eq!(ModelRect::point(0, 0), cur);
}

#[test]
fn highlight_map_falls_back() {
    let mut hls = HighlightMap::new();
    hls.set_defaults(Color(1, 2, 3), Color(4, 5, 6), Color(7, 8, 9), Color(0, 0, 0), Color(0, 0, 0));
    assert_eq!(Color(1, 2, 3), hls.fg());
    assert_eq!(Color(4, 5, 6), hls.bg());
    hls.set_use_cterm(true);
    assert_eq!(Color(0, 0, 0), hls.fg());
    let h = hls.get(Some(42));
    assert_eq!(hls.default_hl(), h);
}

#[test]
fn test_styled_line() {
    let mut line = Line::new(3);
    line.line[0].ch = "a".to_owned();
    line.line[1].ch = "b".to_owned();
    line.line[2].ch = "c".to_owned();

    let styled_line = StyledLine::from(&line, &HighlightMap::new());
    assert_eq!("abc", styled_line.line_str);
    assert_eq!(3, styled_line.cell_to_byte.len());
    assert_eq!(0, styled_line.cell_to_byte[0]);
    assert_eq!(1, styled_line.cell_to_byte[1]);
    assert_eq!(2, styled_line.cell_to_byte[2]);
}

#[test]
fn styled_line_runs_and_wide_chars() {
    let mut line = Line::new(4);
    let mut bold = Highlight::new();
    bold.bold = true;
    line.line[0].ch = "é".to_owned();
    line.line[1].ch = "x".to_owned();
    line.line[1].hl = bold;
    line.line[2].ch = "字".to_owned();
    line.line[2].hl = bold;
    line.line[3].double_width = true;
    let styled = StyledLine::from(&line, &HighlightMap::new());
    assert_eq!("éx字", styled.line_str);
    assert_eq!(vec![0, 0, 1, 2, 2, 2], styled.cell_to_byte);
    assert_eq!(2, styled.attrs.len());
    assert_eq!((0, 2, false), (styled.attrs[0].start, styled.attrs[0].end, styled.attrs[0].bold));
    assert_eq!((2, 6, true), (styled.attrs[1].start, styled.attrs[1].end, styled.attrs[1].bold));
}

#[test]
fn layout_wraps_and_measures() {
    let mut layout = ModelLayout::new();
    let lines: Vec<Vec<(Option<Highlight>, Vec<char>)>> = vec![vec![(None, vec!['a'; 5])]];
    let (width, rows) = layout.layout(lines, 4);
    assert_eq!(2, rows);
    assert_eq!(5, width);
    assert_eq!(2, layout.rows_filled);
    assert_eq!("a", layout.model.model[0].line[1].ch);
    assert_eq!("a", layout.model.model[0].line[4].ch);
    assert_eq!("a", layout.model.model[1].line[0].ch);
    assert_eq!("", layout.model.model[0].line[0].ch);
}

#[test]
fn layout_columns_run_on_between_lines() {
    let mut layout = ModelLayout::new();
    let mut bold = Highlight::new();
    bold.bold = true;
    let lines: Vec<Vec<(Option<Highlight>, Vec<char>)>> =
        vec![vec![(Some(bold), vec!['a', 'b'])], vec![(None, vec!['c'])]];
    let (width, rows) = layout.layout(lines, 10);
    assert_eq!(2, rows);
    assert_eq!(4, width);
    assert_eq!("b", layout.model.model[0].line[2].ch);
    assert!(layout.model.model[0].line[2].hl.bold);
    assert_eq!("c", layout.model.model[1].line[3].ch);
    let (width, _) = layout.layout(vec![], 3);
    assert_eq!(1, width);
}

#[test]
fn swap_rows_exchanges_leading_rows() {
    let mut a = UiModel::new(3, 2);
    let mut b = UiModel::new(4, 3);
    for r in 0..3 {
        a.put(r, 0, "a", false, 2, Highlight::new());
    }
    for r in 0..4 {
        b.put(r, 0, "b", false, 3, Highlight::new());
    }
    a.swap_rows(&mut b, 1);
    assert_eq!("b", a.model[0].line[0].ch);
    assert_eq!("b", a.model[1].line[1].ch);
    assert_eq!("a", a.model[2].line[0].ch);
    assert_eq!("a", b.model[0].line[1].ch);
    assert_eq!("b", b.model[0].line[2].ch);
    assert_eq!("a", b.model[1].line[0].ch);
    assert_eq!("b", b.model[2].line[0].ch);
    assert!(a.model[1].dirty_line && b.model[1].dirty_line);
}

#[test]
fn layout_outside_the_model_writes_at_the_last_cursor() {
    let mut layout = ModelLayout::new();
    let mut lines: Vec<Vec<(Option<Highlight>, Vec<char>)>> = Vec::new();
    for _ in 0..10 {
        lines.push(vec![(None, vec!['a'])]);
    }
    lines.push(vec![(None, vec!['y'])]);
    let (width, rows) = layout.layout(lines, 4);
    assert_eq!(11, rows);
    assert_eq!(5, width);
    // character 8 lands at row 8 + 9 / 5, column 9 % 5; the later ones fall
    // below the model and are written at that cursor
    assert_eq!("y", layout.model.model[9].line[4].ch);
    assert_eq!((9, 4), layout.model.get_cursor());
    assert_eq!("a", layout.model.model[0].line[1].ch);
    assert_eq!("a", layout.model.model[5].line[0].ch);
    assert_eq!("a", layout.model.model[6].line[1].ch);
    assert_eq!("", layout.model.model[5].line[1].ch);
}
