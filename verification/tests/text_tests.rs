use nvim_gtk::cmdline::{attributed_lines, line_content, prompt_lines, CmdLine};
use nvim_gtk::color::Color;
use nvim_gtk::dirs::{get_app_config_dir, settings_file_path};
use nvim_gtk::input::{convert_key, im_input, keyval_to_input_string, CONTROL_MASK, MOD1_MASK, SHIFT_MASK};
use nvim_gtk::itemize::{line_items, ItemizeIterator};
use nvim_gtk::misc::{decode_uri, escape_filename, nvim_init_error_markup, nvim_start_error_markup, try_escape_filename};
use nvim_gtk::nvim_config::{nvim_args, open_files_command, ConfigPlan, NvimConfig, NvimInitError};
use nvim_gtk::plug_store::PlugManagerConfigSource;
use nvim_gtk::settings::{font_update, load_from_contents, loaded_or_empty, FontSource, SettingsLoader};

#[test]
fn test_iterator() {
    let mut iter = ItemizeIterator::new("Test  line ");

    assert_eq!(Some((0, 4)), iter.next());
    assert_eq!(Some((6, 4)), iter.next());
    assert_eq!(None, iter.next());
}

#[test]
fn iterator_counts_bytes_of_wide_chars() {
    let mut iter = ItemizeIterator::new(" äb\tcé ");
    assert_eq!(Some((1, 2)), iter.next());
    assert_eq!(Some((3, 1)), iter.next());
    assert_eq!(Some((5, 1)), iter.next());
    assert_eq!(Some((6, 2)), iter.next());
    assert_eq!(None, iter.next());
    let mut empty = ItemizeIterator::new("   ");
    assert_eq!(None, empty.next());
}

#[test]
fn test_to_hex() {
    let col = Color(0, 255, 0);
    assert_eq!("#00FF00", &col.to_hex());
}

#[test]
fn color_conversions() {
    assert_eq!(Color(0x12, 0x34, 0x56), Color::from_indexed_color(0xff123456));
    assert_eq!((0, 65535, 257), Color(0, 255, 1).to_u16());
    assert_eq!("#0A0B0C", Color(10, 11, 12).to_hex());
}

#[test]
fn escape_special_characters() {
    assert_eq!("a\\ b\\(1\\).txt", escape_filename("a b(1).txt"));
    assert_eq!("/usr/lib/x_y-z.rs", escape_filename("/usr/lib/x_y-z.rs"));
    assert_eq!(Some("ü\\*".to_owned()), try_escape_filename("ü*"));
}

#[test]
fn decode_file_uris() {
    assert_eq!(Some("/path/to/a file.ext".to_owned()), decode_uri("file:///path/to/a%20file.ext"));
    assert_eq!(None, decode_uri("http://x/y"));
    assert_eq!(Some("/a%zz%".to_owned()), decode_uri("file:///a%zz%"));
    assert_eq!(Some("/é".to_owned()), decode_uri("file:///%C3%a9"));
    assert_eq!(None, decode_uri("file:///%ff"));
}

#[test]
fn error_markup_escapes_text() {
    let m = nvim_init_error_markup("bad <tag> & \"q\" 'x'");
    assert!(m.contains("<i>bad &lt;tag&gt; &amp; &quot;q&quot; &#x27;x&#x27;</i>"));
    assert!(m.starts_with("<big>Can't initialize nvim:</big>\n"));
    assert!(m.contains("minimum supported version is <b>0.2</b>"));
    let m = nvim_start_error_markup("err", "nvim --embed <x>");
    assert!(m.starts_with("<big>Can't start nvim instance:</big>\n<i>nvim --embed &lt;x&gt;</i>\n"));
    assert!(m.ends_with("(right path can be passed with <i>--nvim-bin-path=path_here</i>)"));
}

#[test]
fn key_notation() {
    assert_eq!("a", keyval_to_input_string("a", 0));
    assert_eq!("<S-a>", keyval_to_input_string("a", SHIFT_MASK));
    assert_eq!("!", keyval_to_input_string("!", SHIFT_MASK));
    assert_eq!("<C-^>", keyval_to_input_string("6", CONTROL_MASK));
    assert_eq!("<S-C-6>", keyval_to_input_string("6", CONTROL_MASK | SHIFT_MASK));
    assert_eq!("<lt>", keyval_to_input_string("<", 0));
    assert_eq!("<C-A-x>", keyval_to_input_string("x", CONTROL_MASK | MOD1_MASK));
    assert_eq!("<CR>", keyval_to_input_string("CR", 0));
}

#[test]
fn key_events() {
    assert_eq!(Some("<BS>".to_owned()), convert_key(Some("BackSpace"), None, 0));
    assert_eq!(Some("<S-Tab>".to_owned()), convert_key(Some("ISO_Left_Tab"), Some('\t'), SHIFT_MASK));
    assert_eq!(Some("<C-w>".to_owned()), convert_key(Some("w"), Some('w'), CONTROL_MASK));
    assert_eq!(None, convert_key(Some("Shift_L"), None, SHIFT_MASK));
    assert_eq!("a<lt>b", im_input("a<b"));
}

#[test]
fn config_dirs() {
    assert_eq!(Ok("/x/nvim-gtk".to_owned()), get_app_config_dir(Some("/x"), Some("/home/u")));
    assert_eq!(Ok("/x/nvim-gtk".to_owned()), get_app_config_dir(Some("/x/"), None));
    assert_eq!(Ok("/home/u/.config/nvim-gtk".to_owned()), get_app_config_dir(None, Some("/home/u")));
    assert_eq!(Ok("nvim-gtk".to_owned()), get_app_config_dir(Some(""), None));
    assert_eq!(Err("Impossible to get your home dir!".to_owned()), get_app_config_dir(None, None));
    let dir = get_app_config_dir(None, Some("/h"));
    assert_eq!(Ok("/h/.config/nvim-gtk/plugs.toml".to_owned()), settings_file_path(&dir, "plugs.toml"));
    assert_eq!(Some("/h/.config/nvim-gtk/settings.vim".to_owned()), NvimConfig::settings_path(&dir));
    assert_eq!(None, NvimConfig::settings_path(&get_app_config_dir(None, None)));
    assert_eq!(Some("/h/.config/nvim-gtk/settings.vim".to_owned()), NvimConfig::config_path(&dir, true));
    assert_eq!(None, NvimConfig::config_path(&dir, false));
    assert_eq!(None, NvimConfig::config_path(&get_app_config_dir(None, None), true));
}

#[test]
fn nvim_config_plan() {
    let c = NvimConfig::new(Some(PlugManagerConfigSource { source: "x".to_owned() }));
    match c.generate_plan() {
        ConfigPlan::Write(content) => assert_eq!("x", content),
        ConfigPlan::Remove => panic!("expected a write"),
    }
    assert!(matches!(NvimConfig::new(None).generate_plan(), ConfigPlan::Remove));
}

#[test]
fn init_errors() {
    let e = NvimInitError::new_post_init("boom");
    assert_eq!("boom", e.source());
    assert!(e.cmd().is_none());
    let e = NvimInitError::new("nvim --embed", "not found");
    assert_eq!("not found", e.source());
    assert_eq!(Some(&"nvim --embed".to_owned()), e.cmd());
    assert_eq!("Can't start nvim instance", e.description());
}

#[test]
fn font_source_priority() {
    assert_eq!((FontSource::Rpc, None), font_update(FontSource::Rpc, Some("Mono 9".to_owned())));
    assert_eq!(
        (FontSource::Gnome, Some("Mono 9".to_owned())),
        font_update(FontSource::Default, Some("Mono 9".to_owned()))
    );
    assert_eq!((FontSource::Default, None), font_update(FontSource::Default, None));
}

#[test]
fn prompt_first_char_padding() {
    let (offset, rows) = prompt_lines(":", "", 3);
    assert_eq!(1, rows.len());
    assert_eq!(vec![":".to_owned(), " ".to_owned(), " ".to_owned()], rows[0].1);
    assert_eq!(3, offset);
    let (offset, rows) = prompt_lines("/", "ignored", 0);
    assert_eq!(vec!["/".to_owned()], rows[0].1);
    assert_eq!(1, offset);
}

#[test]
fn prompt_text_lines_in_clusters() {
    let (offset, rows) = prompt_lines("", "Name?\r\ne\u{301}x", 0);
    assert_eq!(2, rows.len());
    assert_eq!(5, rows[0].1.len());
    assert_eq!(vec!["e\u{301}".to_owned(), "x".to_owned()], rows[1].1);
    assert!(rows[0].0.is_none());
    assert_eq!(2, offset);
    let (offset, rows) = prompt_lines("", "", 4);
    assert!(rows.is_empty());
    assert_eq!(0, offset);
    let (_, rows) = prompt_lines("", "a\n", 0);
    assert_eq!(1, rows.len());
}

#[test]
fn nvim_start_arguments() {
    let args = nvim_args(None, None, Some("/c/settings.vim"), vec!["-n".to_owned(), "x".to_owned()]);
    assert_eq!(
        vec![
            "--embed",
            "--cmd",
            "set termguicolors",
            "--cmd",
            "let g:GtkGuiLoaded = 1",
            "--cmd",
            "let &rtp.=',runtime'",
            "--cmd",
            "source /c/settings.vim",
            "-n",
            "x",
        ],
        args
    );
    let args = nvim_args(Some("/rt"), Some("/usr"), None, vec![]);
    assert_eq!(7, args.len());
    assert_eq!("let &rtp.=',/rt'", args[6]);
    let args = nvim_args(None, Some("/usr"), None, vec![]);
    assert_eq!("let &rtp.=',/usr/share/nvim-gtk/runtime'", args[6]);
}

#[test]
fn open_files() {
    let paths = vec!["a b.txt".to_owned(), "/x/y.rs".to_owned()];
    assert_eq!(Some(":ar a\\ b.txt /x/y.rs".to_owned()), open_files_command(&paths));
    assert_eq!(Some(":ar".to_owned()), open_files_command(&vec![]));
}

fn bold_pairs() -> Vec<(nvim_gtk::value::Value, nvim_gtk::value::Value)> {
    vec![(
        nvim_gtk::value::Value::Str("bold".to_owned()),
        nvim_gtk::value::Value::Boolean(true),
    )]
}

#[test]
fn command_line_content_follows_first_char() {
    let pairs = bold_pairs();
    let attrs = nvim_gtk::value::AttrsMap::from_pairs(&pairs).unwrap();
    let content = vec![(attrs, "ab".to_owned())];
    let (lines, offset) = line_content(&content, ":", "", 0);
    assert_eq!(1, offset);
    assert_eq!(1, lines.len());
    assert_eq!(2, lines[0].len());
    assert_eq!(None, lines[0][0].0);
    assert_eq!(vec![":".to_owned()], lines[0][0].1);
    let hl = lines[0][1].0.unwrap();
    assert!(hl.bold);
    assert!(!hl.italic);
    assert_eq!(vec!["a".to_owned(), "b".to_owned()], lines[0][1].1);
}

#[test]
fn command_line_content_without_prompt_is_one_line() {
    let pairs = bold_pairs();
    let attrs = nvim_gtk::value::AttrsMap::from_pairs(&pairs).unwrap();
    let content = vec![(attrs, "x".to_owned())];
    let (lines, offset) = line_content(&content, "", "", 3);
    assert_eq!(0, offset);
    assert_eq!(1, lines.len());
    assert_eq!(1, lines[0].len());
    assert_eq!(vec!["x".to_owned()], lines[0][0].1);
}

#[test]
fn command_line_content_goes_after_last_prompt_line() {
    let pairs: Vec<(nvim_gtk::value::Value, nvim_gtk::value::Value)> = Vec::new();
    let attrs = nvim_gtk::value::AttrsMap::from_pairs(&pairs).unwrap();
    let content = vec![(attrs, "z".to_owned())];
    let (lines, offset) = line_content(&content, "", "ab\ncde", 0);
    assert_eq!(3, offset);
    assert_eq!(2, lines.len());
    assert_eq!(1, lines[0].len());
    assert_eq!(vec!["a".to_owned(), "b".to_owned()], lines[0][0].1);
    assert_eq!(2, lines[1].len());
    assert_eq!(vec!["c".to_owned(), "d".to_owned(), "e".to_owned()], lines[1][0].1);
    assert_eq!(vec!["z".to_owned()], lines[1][1].1);
    assert!(lines[1][1].0.is_some());
}

#[test]
fn command_line_block_keeps_its_lines() {
    let pairs = bold_pairs();
    let a1 = nvim_gtk::value::AttrsMap::from_pairs(&pairs).unwrap();
    let a2 = nvim_gtk::value::AttrsMap::from_pairs(&pairs).unwrap();
    let block = vec![vec![(a1, "e\u{301}x".to_owned())], vec![(a2, String::new())]];
    let lines = attributed_lines(&block);
    assert_eq!(2, lines.len());
    assert_eq!(vec!["e\u{301}".to_owned(), "x".to_owned()], lines[0][0].1);
    assert!(lines[1][0].1.is_empty());
}

#[test]
fn command_line_levels_stack_and_unstack() {
    let pairs: Vec<(nvim_gtk::value::Value, nvim_gtk::value::Value)> = Vec::new();
    let mut c = CmdLine::new();
    let content = vec![(nvim_gtk::value::AttrsMap::from_pairs(&pairs).unwrap(), "ls".to_owned())];
    assert!(c.show_level(&content, ":", "", 0, 2, 1));
    assert_eq!(1, c.levels.len());
    assert_eq!(1, c.levels[0].prompt_offset);
    assert_eq!(2, c.levels[0].pos);
    let content = vec![(nvim_gtk::value::AttrsMap::from_pairs(&pairs).unwrap(), "1+1".to_owned())];
    assert!(!c.show_level(&content, "=", "", 0, 0, 2));
    assert_eq!(2, c.levels.len());
    let content = vec![(nvim_gtk::value::AttrsMap::from_pairs(&pairs).unwrap(), "1+2".to_owned())];
    assert!(!c.show_level(&content, "=", "", 0, 3, 2));
    assert_eq!(2, c.levels.len());
    assert_eq!(3, c.levels[1].pos);
    c.pos(1, 1);
    assert_eq!(1, c.levels[0].pos);
    c.pos(7, 5);
    assert_eq!(3, c.levels[1].pos);
    assert!(!c.hide_level(2));
    assert_eq!(1, c.levels.len());
    assert!(!c.hide_level(3));
    assert_eq!(1, c.levels.len());
    assert!(c.displayed);
    assert!(c.hide_level(1));
    assert!(c.levels.is_empty());
    assert!(!c.displayed);
}

#[test]
fn command_line_block_grows_by_lines() {
    let pairs: Vec<(nvim_gtk::value::Value, nvim_gtk::value::Value)> = Vec::new();
    let mut c = CmdLine::new();
    let block = vec![vec![(nvim_gtk::value::AttrsMap::from_pairs(&pairs).unwrap(), "fu F()".to_owned())]];
    c.show_block(&block);
    let line = vec![(nvim_gtk::value::AttrsMap::from_pairs(&pairs).unwrap(), "ret".to_owned())];
    c.block_append(&line);
    let b = c.block.as_ref().unwrap();
    assert_eq!(2, b.len());
    assert_eq!(vec!["r".to_owned(), "e".to_owned(), "t".to_owned()], b[1][0].1);
    c.block_hide();
    assert!(c.block.is_none());
}

#[test]
fn iterator_items_cover_every_non_space_char() {
    let line = "ab  ©x\ty ";
    let mut iter = ItemizeIterator::new(line);
    let mut items = Vec::new();
    while let Some(item) = iter.next() {
        items.push(item);
    }
    assert_eq!(vec![(0, 2), (4, 2), (6, 1), (8, 1)], items);
    assert_eq!(items, line_items(line));
    assert_eq!(Vec::<(usize, usize)>::new(), line_items(" \t "));
    for w in items.windows(2) {
        assert!(w[0].0 + w[0].1 <= w[1].0);
    }
    for (i, c) in line.char_indices() {
        if !c.is_whitespace() {
            assert!(items.iter().any(|&(s, l)| s <= i && i < s + l));
        }
    }
    assert_eq!(None, iter.next());
}

#[derive(Debug, PartialEq)]
struct Count(usize);

impl SettingsLoader for Count {
    const SETTINGS_FILE: &'static str = "count.txt";

    fn empty() -> Self {
        Count(0)
    }

    fn from_str(s: &str) -> Result<Self, String> {
        s.trim().parse::<usize>().map(Count).map_err(|e| e.to_string())
    }
}

#[test]
fn settings_fall_back_to_empty() {
    assert_eq!(Ok(Count(0)), load_from_contents::<Count>(None));
    assert_eq!(Ok(Count(7)), load_from_contents::<Count>(Some("7")));
    let bad = load_from_contents::<Count>(Some("seven"));
    assert!(bad.is_err());
    assert_eq!(Count(0), loaded_or_empty(bad));
    assert_eq!(Count(3), loaded_or_empty::<Count>(Ok(Count(3))));
}
