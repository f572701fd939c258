use nvim_gtk::tabline::update_tabs;
use nvim_gtk::value::values_equal;
use nvim_gtk::client::NeovimClient;
use nvim_gtk::mode::{CursorShape, Mode, ModeInfo, NvimMode};
use nvim_gtk::notify::{
    call_gui_event, call_gui_request, classify_notification, clipboard_reply, gui_request, split_redraw, BatchEntry,
    GuiEvent, GuiOption, GuiRequest, Notification,
};
use nvim_gtk::redraw::{
    call, call_is_total, remove_or_delay_uneeded_events, Arg, CompleteItem, RedrawCall, UiOp,
};
use nvim_gtk::subscriptions::{RunStep, SubscriptionKey, Subscriptions};
use nvim_gtk::value::Value;

fn s(t: &str) -> Value {
    Value::Str(t.to_owned())
}

fn u(n: u64) -> Value {
    Value::PosInt(n)
}

#[test]
fn call_reads_by_signature() {
    match call("grid_cursor_goto", vec![u(1), u(2), u(3), u(99)]).unwrap() {
        RedrawCall::Op(UiOp::GridCursorGoto, args) => {
            assert_eq!(3, args.len());
            assert!(matches!(args[0], Arg::Uint(1)));
            assert!(matches!(args[2], Arg::Uint(3)));
        }
        other => panic!("unexpected {:?}", other),
    }
    match call("grid_scroll", vec![u(1), u(0), u(5), u(0), u(8), Value::NegInt(-2), u(0)]).unwrap() {
        RedrawCall::Op(UiOp::GridScroll, args) => {
            assert!(matches!(args[5], Arg::Int(-2)));
            assert!(matches!(args[6], Arg::Int(0)));
        }
        other => panic!("unexpected {:?}", other),
    }
}

#[test]
fn call_errors() {
    assert_eq!("No such argument for grid_clear", call("grid_clear", vec![]).unwrap_err());
    assert_eq!("No such argument for on_mode_change", call("mode_change", vec![s("insert")]).unwrap_err());
    assert_eq!("Can't convert argument to u64", call("grid_clear", vec![s("x")]).unwrap_err());
    assert_eq!("Can't convert argument to int", call("popupmenu_select", vec![Value::Nil]).unwrap_err());
    assert_eq!("Can't convert argument to bool", call("mode_info_set", vec![u(1), Value::Nil]).unwrap_err());
    assert_eq!("Can't convert to string", call("mode_change", vec![u(1), u(1)]).unwrap_err());
}

#[test]
fn call_simple_and_unknown() {
    assert!(matches!(call("mouse_on", vec![]).unwrap(), RedrawCall::Mouse(true)));
    assert!(matches!(call("busy_stop", vec![]).unwrap(), RedrawCall::Busy(false)));
    assert!(matches!(call("wildmenu_hide", vec![]).unwrap(), RedrawCall::WildmenuHide));
    assert!(matches!(call("no_such_event", vec![u(1)]).unwrap(), RedrawCall::Unknown));
    match call("mode_change", vec![s("insert"), u(2)]).unwrap() {
        RedrawCall::Op(UiOp::ModeChange, args) => match &args[0] {
            Arg::Str(m) => assert_eq!("insert", m),
            other => panic!("unexpected {:?}", other),
        },
        other => panic!("unexpected {:?}", other),
    }
}

#[test]
fn call_popupmenu_show() {
    let items = Value::Array(vec![
        Value::Array(vec![s("word"), s("k"), s("m"), s("i")]),
        Value::Array(vec![s("w2"), s(""), s(""), s("")]),
    ]);
    let args = vec![items, Value::NegInt(-1), u(3), u(4)];
    assert!(call_is_total("popupmenu_show", &args));
    match call("popupmenu_show", args).unwrap() {
        RedrawCall::PopupmenuShow { items, selected, row, col } => {
            assert_eq!(2, items.len());
            assert_eq!("word", items[0][0]);
            assert_eq!(-1, selected);
            assert_eq!((3, 4), (row, col));
            let menu = CompleteItem::map(&items);
            assert_eq!("word", menu[0].word);
            assert_eq!("k", menu[0].kind);
            assert_eq!("i", menu[0].info);
            assert_eq!("w2", menu[1].word);
        }
        other => panic!("unexpected {:?}", other),
    }
    let bad = vec![Value::Array(vec![Value::Array(vec![u(1)])]), u(0), u(0), u(0)];
    assert_eq!("Error get menu column", call("popupmenu_show", bad).unwrap_err());
    let bad = vec![Value::Array(vec![u(1)]), u(0), u(0), u(0)];
    assert_eq!("Error get menu item array", call("popupmenu_show", bad).unwrap_err());
    let bad = vec![u(1), u(0), u(0), u(0)];
    assert_eq!("Error get menu list array", call("popupmenu_show", bad).unwrap_err());
    assert!(!call_is_total("popupmenu_show", &vec![Value::Array(vec![]), u(0)]));
}

#[test]
fn call_tabline_update() {
    let tabs = Value::Array(vec![
        Value::Table(vec![(s("tab"), u(1)), (s("name"), s("main.rs"))]),
        Value::Table(vec![(s("tab"), u(2))]),
    ]);
    let args = vec![u(2), tabs];
    assert!(call_is_total("tabline_update", &args));
    match call("tabline_update", args).unwrap() {
        RedrawCall::TablineUpdate { current, tabs } => {
            assert!(matches!(current, Value::PosInt(2)));
            assert_eq!(2, tabs.len());
            assert!(matches!(tabs[0].0, Value::PosInt(1)));
            assert_eq!(Some("main.rs".to_owned()), tabs[0].1);
            assert_eq!(None, tabs[1].1);
        }
        other => panic!("unexpected {:?}", other),
    }
    assert_eq!("Error get tabline list", call("tabline_update", vec![u(1), u(2)]).unwrap_err());
    let no_map = vec![u(1), Value::Array(vec![u(3)])];
    assert_eq!("Error get map for tab", call("tabline_update", no_map).unwrap_err());
    let no_id = vec![u(1), Value::Array(vec![Value::Table(vec![(s("name"), s("x"))])])];
    assert!(!call_is_total("tabline_update", &no_id));
}

fn ev(name: &str) -> Value {
    Value::Array(vec![s(name), Value::Array(vec![])])
}

#[test]
fn popup_hide_followed_by_show_is_dropped() {
    let mut params = vec![ev("popupmenu_hide"), ev("grid_line"), ev("popupmenu_show")];
    let filter = remove_or_delay_uneeded_events(&mut params);
    assert_eq!(2, params.len());
    assert!(filter.delayed.is_none());
    assert_eq!(1, filter.cancels);
}

#[test]
fn last_popup_hide_is_delayed() {
    let mut params = vec![ev("popupmenu_show"), ev("popupmenu_hide"), ev("grid_line"), ev("popupmenu_hide")];
    let filter = remove_or_delay_uneeded_events(&mut params);
    assert_eq!(2, params.len());
    assert!(filter.delayed.is_some());
    assert_eq!(2, filter.cancels);
    let mut plain = vec![ev("grid_line"), Value::Nil];
    let filter = remove_or_delay_uneeded_events(&mut plain);
    assert_eq!(2, plain.len());
    assert_eq!(0, filter.cancels);
}

#[test]
fn split_redraw_batch() {
    let params = vec![
        Value::Array(vec![s("grid_clear"), Value::Array(vec![u(1)]), Value::Array(vec![u(2)])]),
        Value::Array(vec![u(5)]),
        Value::Array(vec![]),
        u(7),
        Value::Array(vec![s("busy_start"), u(0)]),
    ];
    let entries = split_redraw(params);
    assert_eq!(6, entries.len());
    match &entries[1] {
        BatchEntry::Call { name, args } => {
            assert_eq!("grid_clear", name);
            assert!(matches!(args[0], Value::PosInt(2)));
        }
        other => panic!("unexpected {:?}", other),
    }
    assert!(matches!(entries[2], BatchEntry::UnsupportedEvent));
    assert!(matches!(entries[3], BatchEntry::NoEventName));
    assert!(matches!(entries[4], BatchEntry::UnsupportedType(Value::PosInt(7))));
    match &entries[5] {
        BatchEntry::Call { name, args } => {
            assert_eq!("busy_start", name);
            assert!(args.is_empty());
        }
        other => panic!("unexpected {:?}", other),
    }
}

#[test]
fn notifications_are_sorted() {
    assert!(matches!(classify_notification("redraw", vec![]), Notification::Redraw(_)));
    match classify_notification("Gui", vec![s("Font"), s("Mono 10")]) {
        Notification::Gui { name, args } => {
            assert_eq!("Font", name);
            assert_eq!(1, args.len());
        }
        other => panic!("unexpected {:?}", other),
    }
    assert!(matches!(classify_notification("Gui", vec![u(1)]), Notification::UnsupportedGui(_)));
    assert!(matches!(classify_notification("Gui", vec![]), Notification::UnsupportedGui(_)));
    assert!(matches!(classify_notification("subscription", vec![]), Notification::Subscription(_)));
    assert!(matches!(classify_notification("other", vec![]), Notification::Other(_)));
}

#[test]
fn gui_events() {
    match call_gui_event("Font", &vec![s("Mono 11")]).unwrap() {
        GuiEvent::Font(f) => assert_eq!("Mono 11", f),
        other => panic!("unexpected {:?}", other),
    }
    assert_eq!("No such argument for set_font", call_gui_event("Font", &vec![]).unwrap_err());
    assert_eq!("Can't convert to string", call_gui_event("Linespace", &vec![u(1)]).unwrap_err());
    match call_gui_event("Clipboard", &vec![s("Set"), s("*"), s("text")]).unwrap() {
        GuiEvent::ClipboardSet { primary, text } => {
            assert!(primary);
            assert_eq!("text", text);
        }
        other => panic!("unexpected {:?}", other),
    }
    match call_gui_event("Option", &vec![s("Tabline"), u(1)]).unwrap() {
        GuiEvent::SetOption { option, enabled } => {
            assert_eq!(GuiOption::Tabline, option);
            assert_eq!(Some(Ok(true)), enabled);
        }
        other => panic!("unexpected {:?}", other),
    }
    match call_gui_event("Command", &vec![s("Transparency"), s("0.5")]).unwrap() {
        GuiEvent::Transparency(a, b) => {
            assert_eq!(Ok("0.5".to_owned()), a);
            assert_eq!(Ok("1.0".to_owned()), b);
        }
        other => panic!("unexpected {:?}", other),
    }
    assert!(matches!(call_gui_event("Command", &vec![s("ToggleSidebar")]).unwrap(), GuiEvent::ToggleSidebar));
    assert!(matches!(call_gui_event("Nope", &vec![]).unwrap(), GuiEvent::Unsupported));
    assert_eq!("Can't convert argument to string", call_gui_event("Option", &vec![u(1)]).unwrap_err());
}

#[test]
fn subscriptions_register_and_report() {
    let mut subs: Subscriptions<u32> = Subscriptions::new();
    let key = SubscriptionKey::with_pattern("BufEnter", "*");
    let h = subs.subscribe(key, &["expand('%')", "line('.')"], 7);
    assert_eq!(0, h.index);
    let cmds = subs.set_autocmds();
    assert_eq!(1, cmds.len());
    assert_eq!(
        "autocmd BufEnter * call rpcnotify(1, 'subscription', 'BufEnter', '*', 0 , expand('%'), line('.'))",
        cmds[0]
    );
    let report = vec![s("BufEnter"), s("*"), u(0), s("a.rs"), u(12)];
    let (cb, args) = subs.notify(&report).unwrap().unwrap();
    assert_eq!(7, *cb);
    assert_eq!(vec!["a.rs".to_owned(), "12".to_owned()], args);
    assert!(subs.notify(&vec![s("BufEnter"), s("*"), u(3)]).unwrap().is_none());
    assert_eq!("Error reading index", subs.notify(&vec![s("BufEnter"), s("*")]).unwrap_err());
    assert_eq!("Error reading args", subs.notify(&vec![s("BufEnter"), s("*"), u(0), Value::Nil]).unwrap_err());
    let k = SubscriptionKey::from("VimEnter");
    assert_eq!("*", k.pattern);
}

#[test]
fn mode_info_reading() {
    let pairs = vec![(s("cursor_shape"), s("vertical")), (s("cell_percentage"), u(25))];
    let info = ModeInfo::from_pairs(&pairs).unwrap();
    assert_eq!(Some(&CursorShape::Vertical), info.cursor_shape());
    assert_eq!(25, info.cell_percentage());
    let bad = vec![(s("cursor_shape"), u(1))];
    assert!(ModeInfo::from_pairs(&bad).is_err());
    assert_eq!(CursorShape::Unknown, CursorShape::new(&s("odd")).unwrap());
    let mut mode = Mode::new();
    mode.update("insert", 0);
    assert!(mode.is(&NvimMode::Insert));
    assert!(mode.mode_info().is_none());
    mode.set_info(true, vec![info]);
    assert!(mode.mode_info().is_some());
}

#[test]
fn gui_requests() {
    let (name, args) = gui_request("Gui", vec![s("Clipboard"), s("Get"), s("+")]).unwrap();
    assert_eq!("Clipboard", name);
    assert_eq!(2, args.len());
    assert!(gui_request("Other", vec![s("Clipboard")]).is_none());
    assert!(gui_request("Gui", vec![u(1)]).is_none());
    match call_gui_request("Clipboard", &args).unwrap() {
        GuiRequest::ClipboardGet { primary } => assert!(!primary),
        other => panic!("unexpected {:?}", other),
    }
    match call_gui_request("Clipboard", &vec![s("Get"), s("*")]).unwrap() {
        GuiRequest::ClipboardGet { primary } => assert!(primary),
        other => panic!("unexpected {:?}", other),
    }
    assert!(matches!(call_gui_request("Clipboard", &vec![s("Put")]).unwrap(), GuiRequest::UnknownClipboardOption(_)));
    assert!(matches!(call_gui_request("Paste", &vec![]).unwrap(), GuiRequest::Unsupported));
    assert_eq!("Can't convert argument to string", call_gui_request("Clipboard", &vec![u(0)]).unwrap_err());
}

#[test]
fn clipboard_text_lines() {
    match clipboard_reply("a\nbc\n") {
        Value::Array(lines) => {
            assert_eq!(3, lines.len());
            assert_eq!(Some("a"), lines[0].as_str());
            assert_eq!(Some("bc"), lines[1].as_str());
            assert_eq!(Some(""), lines[2].as_str());
        }
        other => panic!("unexpected {:?}", other),
    }
    match clipboard_reply("") {
        Value::Array(lines) => {
            assert_eq!(1, lines.len());
            assert_eq!(Some(""), lines[0].as_str());
        }
        other => panic!("unexpected {:?}", other),
    }
}

#[test]
fn subscription_run_now() {
    let mut subs: Subscriptions<&str> = Subscriptions::new();
    let h = subs.subscribe(SubscriptionKey::from("DirChanged"), &["getcwd()", "bufnr('%')"], "cb");
    let (cb, args) = subs.run_now(&h, &vec![Some(s("/tmp")), Some(u(3))]).unwrap();
    assert_eq!("cb", *cb);
    assert_eq!(vec!["/tmp".to_owned(), "3".to_owned()], args);
    assert!(subs.run_now(&h, &vec![Some(s("/tmp")), None]).is_none());
    assert!(subs.run_now(&h, &vec![Some(Value::Nil), Some(u(3))]).is_none());
}

#[test]
fn client_stages_follow_the_last_setter() {
    let mut client = NeovimClient::new();
    assert!(client.is_uninitialized());
    assert!(!client.is_initialized());
    assert!(!client.is_initializing());
    client.set_in_progress();
    assert!(client.is_initializing());
    assert!(!client.is_uninitialized());
    client.set_error();
    assert!(!client.is_initializing());
    assert!(!client.is_initialized());
    assert!(!client.is_uninitialized());
}

#[test]
fn values_compare_by_contents() {
    let a = Value::Array(vec![u(1), s("x"), Value::Table(vec![(s("k"), Value::Ext(2, vec![1, 2]))])]);
    let b = Value::Array(vec![u(1), s("x"), Value::Table(vec![(s("k"), Value::Ext(2, vec![1, 2]))])]);
    let c = Value::Array(vec![u(1), s("x"), Value::Table(vec![(s("k"), Value::Ext(2, vec![1, 3]))])]);
    assert!(values_equal(&a, &b));
    assert!(!values_equal(&a, &c));
    assert!(!values_equal(&u(1), &Value::NegInt(1)));
    let nan = Value::Float(f64::NAN.to_bits());
    assert!(!values_equal(&nan, &nan));
    assert!(values_equal(&Value::Float(0.0f64.to_bits()), &Value::Float((-0.0f64).to_bits())));
    assert!(values_equal(&Value::Float(1.5f64.to_bits()), &Value::Float(1.5f64.to_bits())));
}

#[test]
fn tab_bar_shows_from_two_tabs() {
    let tab = |n: u8| Value::Ext(2, vec![n]);
    assert!(update_tabs(&tab(1), &vec![(tab(1), Some("a".to_owned()))]).is_none());
    let tabs = vec![(tab(1), Some("a".to_owned())), (tab(2), None), (tab(1), Some("c".to_owned()))];
    let plan = update_tabs(&tab(1), &tabs).unwrap();
    assert_eq!(vec!["a".to_owned(), "??".to_owned(), "c".to_owned()], plan.labels);
    assert_eq!(Some(2), plan.current);
    let plan = update_tabs(&tab(3), &tabs).unwrap();
    assert_eq!(None, plan.current);
}

#[test]
fn subscription_run_steps_stop_at_first_failure() {
    let mut subs: Subscriptions<&str> = Subscriptions::new();
    let h = subs.subscribe(SubscriptionKey::from("DirChanged"), &["getcwd()", "bufnr('%')"], "cb");
    match subs.run_step(&h, &vec![]) {
        RunStep::Eval(0, e) => assert_eq!("getcwd()", e),
        _ => panic!("first expression expected"),
    }
    match subs.run_step(&h, &vec![Some(s("/tmp"))]) {
        RunStep::Eval(1, e) => assert_eq!("bufnr('%')", e),
        _ => panic!("second expression expected"),
    }
    assert!(matches!(subs.run_step(&h, &vec![None]), RunStep::Stop));
    match subs.run_step(&h, &vec![Some(s("/tmp")), Some(u(3))]) {
        RunStep::Run(cb, args) => {
            assert_eq!("cb", *cb);
            assert_eq!(vec!["/tmp".to_owned(), "3".to_owned()], args);
        }
        _ => panic!("run expected"),
    }
}

#[test]
fn string_arguments_must_be_utf8() {
    assert_eq!(
        "Can't convert to utf8 string",
        call("mode_change", vec![Value::BadStr(vec![0xff, 0xfe]), u(0)]).unwrap_err()
    );
    assert_eq!("Can't convert to string", call("mode_change", vec![u(1), u(0)]).unwrap_err());
}
