use nvim_gtk::model_rect::{ModelRect, ModelRectVec};
use nvim_gtk::repaint::{RepaintEvent, RepaintGridEvent, RepaintMode};

#[test]
fn nvim_test_mode() {
    let mode = RepaintMode::Area(ModelRect::point(1, 1));
    let mode = mode.join(RepaintMode::Nothing);

    match mode {
        RepaintMode::Area(ref rect) => {
            assert_eq!(1, rect.top);
            assert_eq!(1, rect.bot);
            assert_eq!(1, rect.left);
            assert_eq!(1, rect.right);
        }
        _ => panic!("mode is worng"),
    }
}

#[test]
fn repaint_event_test_mode() {
    let mode = RepaintMode::Area(ModelRect::point(1, 1));
    let mode = mode.join(RepaintMode::Nothing);

    match mode {
        RepaintMode::Area(ref rect) => {
            assert_eq!(1, rect.top);
            assert_eq!(1, rect.bot);
            assert_eq!(1, rect.left);
            assert_eq!(1, rect.right);
        }
        _ => panic!("mode is worng"),
    }
}

#[test]
fn repaint_mode_test_mode() {
    let mode = RepaintMode::Area(ModelRect::point(1, 1));
    let mode = mode.join(RepaintMode::Nothing);

    match mode {
        RepaintMode::Area(ref rect) => {
            assert_eq!(1, rect.top);
            assert_eq!(1, rect.bot);
            assert_eq!(1, rect.left);
            assert_eq!(1, rect.right);
        }
        _ => panic!("mode is worng"),
    }
}

#[test]
fn ui_model_test_repaint_rect() {
    let rect = ModelRect::point(1, 1);
    let (x, y, width, height) = rect.to_area(10, 5);

    assert_eq!(5, x);
    assert_eq!(10, y);
    assert_eq!(5, width);
    assert_eq!(10, height);
}

#[test]
fn test_vec_join_inside() {
    let mut list = ModelRectVec::new(ModelRect::new(0, 23, 0, 69));
    let inside = ModelRect::new(23, 23, 68, 69);
    list.join(&inside);
    assert_eq!(1, list.list.len());
}

#[test]
fn test_vec_join_top() {
    let mut list = ModelRectVec::new(ModelRect::point(0, 0));
    let neighbor = ModelRect::point(1, 0);
    list.join(&neighbor);
    assert_eq!(1, list.list.len());
}

#[test]
fn test_model_vec_join_right() {
    let mut list = ModelRectVec::new(ModelRect::new(23, 23, 69, 69));
    let neighbor = ModelRect::new(23, 23, 69, 70);
    list.join(&neighbor);
    assert_eq!(1, list.list.len());
}

#[test]
fn test_model_vec_join_right2() {
    let mut list = ModelRectVec::new(ModelRect::new(0, 1, 0, 9));
    let neighbor = ModelRect::new(1, 1, 9, 10);
    list.join(&neighbor);
    assert_eq!(1, list.list.len());
}

#[test]
fn test_model_vec_join() {
    let mut list = ModelRectVec::new(ModelRect::point(5, 5));
    let neighbor = ModelRect::point(6, 5);
    list.join(&neighbor);
    assert_eq!(1, list.list.len());
}

#[test]
fn test_model_vec_no_join() {
    let mut list = ModelRectVec::new(ModelRect::point(5, 5));
    let not_neighbor = ModelRect::point(6, 6);
    list.join(&not_neighbor);
    assert_eq!(2, list.list.len());
}

#[test]
fn rect_join_covers_both() {
    let mut a = ModelRect::new(2, 3, 4, 5);
    let b = ModelRect::new(7, 8, 1, 2);
    a.join(&b);
    assert_eq!(ModelRect::new(2, 8, 1, 5), a);
}

#[test]
fn rect_join_commutes() {
    let mut a = ModelRect::new(2, 3, 4, 5);
    let mut b = ModelRect::new(7, 8, 1, 2);
    let a0 = a;
    a.join(&b);
    b.join(&a0);
    assert_eq!(a, b);
}

#[test]
fn rect_contains_and_neighbors() {
    let outer = ModelRect::new(0, 10, 0, 10);
    let inner = ModelRect::new(2, 3, 2, 3);
    assert!(outer.contains(&inner));
    assert!(!inner.contains(&outer));
    assert!(outer.in_horizontal(&inner));
    assert!(outer.in_vertical(&inner));
}

#[test]
fn rect_to_area_scales() {
    let rect = ModelRect::new(2, 3, 4, 6);
    assert_eq!((20, 20, 15, 20), rect.to_area(10, 5));
}

#[test]
fn vec_join_keeps_far_rects_apart() {
    let mut list = ModelRectVec::empty();
    list.join(&ModelRect::point(0, 0));
    list.join(&ModelRect::point(10, 10));
    list.join(&ModelRect::point(20, 20));
    assert_eq!(3, list.list.len());
    assert_eq!(ModelRect::point(10, 10), list.list[1]);
}

#[test]
fn mode_join_all_wins() {
    match RepaintMode::All.join(RepaintMode::Area(ModelRect::point(1, 1))) {
        RepaintMode::All => {}
        _ => panic!("expected All"),
    }
    match RepaintMode::Area(ModelRect::point(1, 1)).join(RepaintMode::All) {
        RepaintMode::All => {}
        _ => panic!("expected All"),
    }
}

#[test]
fn mode_join_two_areas() {
    let m = RepaintMode::Area(ModelRect::point(1, 1)).join(RepaintMode::Area(ModelRect::point(5, 5)));
    match m {
        RepaintMode::AreaList(l) => {
            assert_eq!(2, l.list.len());
            assert_eq!(ModelRect::point(1, 1), l.list[0]);
            assert_eq!(ModelRect::point(5, 5), l.list[1]);
        }
        _ => panic!("expected an area list"),
    }
}

#[test]
fn mode_nothing_is_unit() {
    match RepaintMode::Nothing.join(RepaintMode::Area(ModelRect::point(3, 4))) {
        RepaintMode::Area(r) => assert_eq!(ModelRect::point(3, 4), r),
        _ => panic!("expected the area"),
    }
}

#[test]
fn grid_event_join() {
    let mut ev = RepaintGridEvent::new(2, RepaintMode::Area(ModelRect::point(1, 1)));
    ev.join(RepaintGridEvent::new(2, RepaintMode::Area(ModelRect::point(1, 2))));
    assert_eq!(Some(2), ev.grid_id);
    match ev.mode {
        RepaintMode::AreaList(l) => assert_eq!(1, l.list.len()),
        _ => panic!("expected an area list"),
    }
    assert!(RepaintGridEvent::all().grid_id.is_none());
    assert!(matches!(RepaintGridEvent::nothing().mode, RepaintMode::Nothing));
}

#[test]
fn repaint_event_collects_grids() {
    let mut ev = RepaintEvent::new();
    ev.join(RepaintGridEvent::new(1, RepaintMode::Area(ModelRect::point(0, 0))));
    ev.join(RepaintGridEvent::new(3, RepaintMode::All));
    ev.join(RepaintGridEvent::new(1, RepaintMode::Nothing));
    assert!(!ev.repaint_all);
    assert_eq!(2, ev.events.len());
    assert!(ev.events.contains_key(&1));
    assert!(ev.events.contains_key(&3));
    ev.join(RepaintGridEvent::all());
    assert!(ev.repaint_all);
    let all = RepaintEvent::all();
    assert!(all.repaint_all);
    assert_eq!(0, all.events.len());
    let one = RepaintEvent::from_grid_event(4, RepaintMode::All);
    assert!(one.events.contains_key(&4));
}
