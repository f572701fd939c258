use nvim_gtk::redraw::{call, RedrawCall};
use nvim_gtk::repaint::RepaintMode;
use nvim_gtk::ui_state::{call_is_typed, prepare, UiCall, UiState};
use nvim_gtk::value::Value;

fn u(n: u64) -> Value {
    Value::PosInt(n)
}

fn s(t: &str) -> Value {
    Value::Str(t.to_owned())
}

fn step(ui: &mut UiState, name: &str, args: Vec<Value>) -> Result<nvim_gtk::repaint::RepaintGridEvent, String> {
    let c = call(name, args)?;
    assert!(call_is_typed(&c));
    let p = prepare(c)?;
    assert!(ui.can_apply(&p));
    Ok(ui.apply(p))
}

fn err_of(r: Result<nvim_gtk::repaint::RepaintGridEvent, String>) -> String {
    match r {
        Err(e) => e,
        Ok(_) => panic!("error expected"),
    }
}

#[test]
fn state_resizes_writes_and_scrolls_a_grid() {
    let mut ui = UiState::new(false);
    let ev = step(&mut ui, "grid_resize", vec![u(1), u(10), u(4)]).unwrap();
    assert_eq!(Some(1), ev.grid_id);
    assert!(matches!(ev.mode, RepaintMode::All));
    let grid = ui.grids.get(&1).unwrap();
    assert_eq!((4, 10), (grid.model.rows, grid.model.columns));

    let cells = Value::Array(vec![Value::Array(vec![s("a")]), Value::Array(vec![s("b"), u(0), u(2)])]);
    let ev = step(&mut ui, "grid_line", vec![u(1), u(2), u(3), cells]).unwrap();
    match ev.mode {
        RepaintMode::Area(r) => assert_eq!((2, 2, 3, 5), (r.top, r.bot, r.left, r.right)),
        _ => panic!("area expected"),
    }
    let grid = ui.grids.get(&1).unwrap();
    assert_eq!("a", grid.model.model[2].line[3].ch);
    assert_eq!("b", grid.model.model[2].line[4].ch);
    assert_eq!("b", grid.model.model[2].line[5].ch);

    let ev = step(&mut ui, "grid_scroll", vec![u(1), u(0), u(4), u(0), u(10), Value::NegInt(-1), u(0)]).unwrap();
    match ev.mode {
        RepaintMode::Area(r) => assert_eq!((0, 3, 0, 9), (r.top, r.bot, r.left, r.right)),
        _ => panic!("area expected"),
    }
    // rows 2 and 1 swap, then rows 1 and 0; the row bot - 1 stays
    assert_eq!("a", ui.grids.get(&1).unwrap().model.model[0].line[3].ch);
    assert_eq!("", ui.grids.get(&1).unwrap().model.model[3].line[3].ch);

    let ev = step(&mut ui, "grid_cursor_goto", vec![u(1), u(1), u(1)]).unwrap();
    assert!(matches!(ev.mode, RepaintMode::AreaList(_)));
    assert_eq!((1, 1), ui.grids.get(&1).unwrap().get_cursor());

    step(&mut ui, "grid_destroy", vec![u(1)]).unwrap();
    assert!(ui.grids.get(&1).is_none());
}

#[test]
fn state_refuses_unreadable_cells_and_missing_grids() {
    let mut ui = UiState::new(false);
    let err = err_of(step(&mut ui, "grid_line", vec![u(1), u(0), u(0), u(3)]));
    assert_eq!("Can't convert grid line cells to array", err);
    let err = err_of(step(&mut ui, "grid_line", vec![u(1), u(0), u(0), Value::Array(vec![u(3)])]));
    assert_eq!("Can't convert grid line cell to array", err);
    let c = call("grid_clear", vec![u(7)]).unwrap();
    let p = prepare(c).unwrap();
    assert!(!ui.can_apply(&p));
}

#[test]
fn state_follows_mode_flags_popup_and_command_line() {
    let mut ui = UiState::new(true);
    assert!(ui.hl.cterm_color);
    step(&mut ui, "mode_change", vec![s("insert"), u(2)]).unwrap();
    assert_eq!(2, ui.mode.idx);
    step(&mut ui, "mouse_off", vec![]).unwrap();
    assert!(!ui.mouse_enabled);
    let ev = step(&mut ui, "busy_start", vec![]).unwrap();
    assert!(ui.busy);
    assert!(matches!(ev.mode, RepaintMode::All));
    step(&mut ui, "popupmenu_select", vec![Value::NegInt(-1)]).unwrap();
    assert!(ui.popup.is_none());

    let content = Value::Array(vec![Value::Array(vec![Value::Table(vec![]), s("ls")])]);
    step(&mut ui, "cmdline_show", vec![content, u(2), s(":"), s(""), u(0), u(1)]).unwrap();
    assert_eq!(1, ui.cmdline.levels.len());
    assert_eq!(1, ui.cmdline.levels[0].prompt_offset);
    step(&mut ui, "cmdline_pos", vec![u(1), u(1)]).unwrap();
    assert_eq!(1, ui.cmdline.levels[0].pos);
    step(&mut ui, "cmdline_hide", vec![u(1)]).unwrap();
    assert!(ui.cmdline.levels.is_empty());
    let bad = Value::Array(vec![Value::Array(vec![Value::Table(vec![(u(1), u(1))]), s("x")])]);
    let err = err_of(step(&mut ui, "cmdline_show", vec![bad, u(0), s(":"), s(""), u(0), u(1)]));
    assert_eq!("Can't convert map key to string", err);
}

#[test]
fn state_reads_mode_infos_and_skips_unreadable_ones() {
    let mut ui = UiState::new(false);
    let info = Value::Table(vec![(s("cursor_shape"), s("block")), (s("cell_percentage"), u(25))]);
    step(&mut ui, "mode_info_set", vec![Value::Boolean(true), Value::Array(vec![info])]).unwrap();
    let infos = ui.mode.info.as_ref().unwrap();
    assert_eq!(1, infos.len());
    assert_eq!(Some(25), infos[0].cell_percentage);
    let c = call("mode_info_set", vec![Value::Boolean(true), Value::Array(vec![u(1)])]).unwrap();
    match prepare(c).unwrap() {
        UiCall::ModeInfoSet { enabled, infos } => {
            assert!(enabled);
            assert!(infos.is_none());
        }
        _ => panic!("mode info expected"),
    }
    assert!(matches!(prepare(RedrawCall::Unknown).unwrap(), UiCall::Nothing));
}
