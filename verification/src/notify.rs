//! Notifications from neovim: which kind each is, the calls a redraw batch
//! holds, and the GUI events that the `Gui` notification carries.
use vstd::prelude::*;

use crate::text::{str_eq, string_from};
use crate::value::Value;

verus! {

/// What the GUI does for neovim that the library asks of it.
pub trait GuiApi {
    /// Sets the font from its description.
    fn set_font(&mut self, font_desc: &str);
}

/// A notification from neovim, by its method.
#[derive(Debug)]
pub enum Notification {
    /// A batch of redraw events.
    Redraw(Vec<Value>),
    /// A GUI event: its name and its arguments.
    Gui { name: String, args: Vec<Value> },
    /// An autocommand that a subscription asked for.
    Subscription(Vec<Value>),
    /// A `Gui` notification whose name is not a string, or that has no name.
    UnsupportedGui(Vec<Value>),
    /// A notification this front end does not handle.
    Other(Vec<Value>),
}

/// Sorts the notification `method` with its parameters.
pub fn classify_notification(method: &str, params: Vec<Value>) -> (r: Notification)
    ensures
        method@ == "redraw"@ ==> r == Notification::Redraw(params),
        method@ != "redraw"@ && method@ == "Gui"@ ==> (if params@.len() > 0 && params@[0] is Str {
            r matches Notification::Gui { name, args } && params@[0] == Value::Str(name) && args@ == params@.skip(1)
        } else {
            r == Notification::UnsupportedGui(params)
        }),
        method@ != "redraw"@ && method@ != "Gui"@ && method@ == "subscription"@ ==> r == Notification::Subscription(params),
        method@ != "redraw"@ && method@ != "Gui"@ && method@ != "subscription"@ ==> r == Notification::Other(params),
{
    if str_eq(method, "redraw") {
        Notification::Redraw(params)
    } else if str_eq(method, "Gui") {
        if params.len() > 0 && params[0].as_str().is_some() {
            let ghost all = params@;
            let mut params = params;
            let first = params.remove(0);
            proof {
                assert(params@ =~= all.skip(1));
            }
            match first {
                Value::Str(name) => Notification::Gui { name, args: params },
                _ => {
                    proof {
                        assert(false);
                    }
                    Notification::UnsupportedGui(params)
                },
            }
        } else {
            Notification::UnsupportedGui(params)
        }
    } else if str_eq(method, "subscription") {
        Notification::Subscription(params)
    } else {
        Notification::Other(params)
    }
}

/// One entry of a redraw batch.
#[derive(Debug)]
pub enum BatchEntry {
    /// The event's name with one set of its arguments.
    Call { name: String, args: Vec<Value> },
    /// An event whose first element is not a string.
    UnsupportedEvent,
    /// An event array with no name in it.
    NoEventName,
    /// An event that is not an array.
    UnsupportedType(Value),
}

/// A batch entry as plain values.
pub enum EntryView {
    Call(Seq<char>, Seq<Value>),
    UnsupportedEvent,
    NoEventName,
    UnsupportedType(Value),
}

pub open spec fn entry_view(e: BatchEntry) -> EntryView {
    match e {
        BatchEntry::Call { name, args } => EntryView::Call(name@, args@),
        BatchEntry::UnsupportedEvent => EntryView::UnsupportedEvent,
        BatchEntry::NoEventName => EntryView::NoEventName,
        BatchEntry::UnsupportedType(v) => EntryView::UnsupportedType(v),
    }
}

/// One set of arguments: an array's elements, none for anything else.
pub open spec fn call_args(v: Value) -> Seq<Value> {
    match v {
        Value::Array(a) => a@,
        _ => Seq::empty(),
    }
}

/// The entries of one event: a call per set of arguments after the name.
pub open spec fn event_entries(v: Value) -> Seq<EntryView> {
    match v {
        Value::Array(a) => if a@.len() == 0 {
            seq![EntryView::NoEventName]
        } else {
            match a@[0].spec_as_str() {
                Some(n) => Seq::new((a@.len() - 1) as nat, |j: int| EntryView::Call(n, call_args(a@[j + 1]))),
                None => seq![EntryView::UnsupportedEvent],
            }
        },
        _ => seq![EntryView::UnsupportedType(v)],
    }
}

/// The entries of a batch, event after event.
pub open spec fn batch_entries(params: Seq<Value>) -> Seq<EntryView>
    decreases params.len(),
{
    if params.len() == 0 {
        Seq::empty()
    } else {
        batch_entries(params.drop_last()) + event_entries(params.last())
    }
}

/// Splits a redraw batch into its calls, in order: each event is an array of
/// its name followed by sets of arguments, and each set is one call.
pub fn split_redraw(params: Vec<Value>) -> (entries: Vec<BatchEntry>)
    ensures
        entries@.map_values(|e: BatchEntry| entry_view(e)) == batch_entries(params@),
{
    let ghost all = params@;
    assert(all.len() <= usize::MAX) by {
        assert(params.len() == all.len());
    }
    let mut rest = params;
    let mut out: Vec<BatchEntry> = Vec::new();
    let mut i: usize = 0;
    proof {
        assert(all.take(0) =~= Seq::<Value>::empty());
        assert(out@.map_values(|e: BatchEntry| entry_view(e)) =~= Seq::<EntryView>::empty());
        assert(rest@ =~= all.skip(0));
    }
    while rest.len() > 0
        invariant
            i <= all.len(),
            all.len() <= usize::MAX,
            rest@ == all.skip(i as int),
            out@.map_values(|e: BatchEntry| entry_view(e)) == batch_entries(all.take(i as int)),
        decreases rest@.len(),
    {
        let ev = rest.remove(0);
        proof {
            assert(ev == all[i as int]);
            assert(rest@ =~= all.skip(i + 1));
            assert(all.take(i + 1).drop_last() =~= all.take(i as int));
            assert(all.take(i + 1).last() == all[i as int]);
        }
        let ghost before = out@.map_values(|e: BatchEntry| entry_view(e));
        match ev {
            Value::Array(ev_args) => {
                let ghost ea = ev_args@;
                let mut ev_args = ev_args;
                if ev_args.len() == 0 {
                    out.push(BatchEntry::NoEventName);
                    proof {
                        assert(out@.map_values(|e: BatchEntry| entry_view(e)) =~= before + seq![EntryView::NoEventName]);
                    }
                } else {
                    let first = ev_args.remove(0);
                    match first {
                        Value::Str(name) => {
                            let mut j: usize = 0;
                            let n = ev_args.len();
                            while ev_args.len() > 0
                                invariant
                                    j <= n,
                                    n == ea.len() - 1,
                                    ev_args@ == ea.skip(j + 1),
                                    ea[0] == Value::Str(name),
                                    out@.map_values(|e: BatchEntry| entry_view(e)) == before + Seq::new(
                                        j as nat,
                                        |k: int| EntryView::Call(name@, call_args(ea[k + 1])),
                                    ),
                                decreases ev_args@.len(),
                            {
                                let local = ev_args.remove(0);
                                proof {
                                    assert(local == ea[j + 1]);
                                    assert(ev_args@ =~= ea.skip(j + 2));
                                }
                                let args = match local {
                                    Value::Array(ar) => ar,
                                    _ => Vec::new(),
                                };
                                let ghost prev = out@.map_values(|e: BatchEntry| entry_view(e));
                                out.push(BatchEntry::Call { name: string_from(name.as_str()), args });
                                proof {
                                    assert(out@.map_values(|e: BatchEntry| entry_view(e)) =~= prev.push(
                                        EntryView::Call(name@, call_args(ea[j + 1])),
                                    ));
                                    assert(before + Seq::new(
                                        (j + 1) as nat,
                                        |k: int| EntryView::Call(name@, call_args(ea[k + 1])),
                                    ) =~= (before + Seq::new(
                                        j as nat,
                                        |k: int| EntryView::Call(name@, call_args(ea[k + 1])),
                                    )).push(EntryView::Call(name@, call_args(ea[j + 1]))));
                                }
                                j = j + 1;
                            }
                            proof {
                                assert(ea.skip(j + 1).len() == 0);
                                assert(event_entries(all[i as int]) =~= Seq::new(
                                    j as nat,
                                    |k: int| EntryView::Call(name@, call_args(ea[k + 1])),
                                ));
                            }
                        },
                        _ => {
                            out.push(BatchEntry::UnsupportedEvent);
                            proof {
                                assert(out@.map_values(|e: BatchEntry| entry_view(e)) =~= before + seq![EntryView::UnsupportedEvent]);
                            }
                        },
                    }
                }
            },
            other => {
                out.push(BatchEntry::UnsupportedType(other));
                proof {
                    assert(out@.map_values(|e: BatchEntry| entry_view(e)) =~= before + seq![EntryView::UnsupportedType(all[i as int])]);
                }
            },
        }
        i = i + 1;
    }
    proof {
        assert(all.skip(i as int).len() == 0);
        assert(all.take(i as int) =~= all);
    }
    out
}


/// A UI option that a `Gui` event can switch.
#[derive(PartialEq, Eq, Structural, Clone, Copy, Debug)]
pub enum GuiOption {
    Popupmenu,
    Tabline,
    /// The command line and, with it, the wildmenu.
    Cmdline,
}

/// A decoded `Gui` event.
#[derive(Debug)]
pub enum GuiEvent {
    Font(String),
    FontFeatures(String),
    Linespace(String),
    /// Set the primary selection (`*`) or the clipboard to the text.
    ClipboardSet { primary: bool, text: String },
    UnknownClipboardOption(String),
    /// Switch an option: on where the argument is 1; the argument is read only
    /// once neovim is known to be running, so it is kept as read (absent, or
    /// not an unsigned integer).
    SetOption { option: GuiOption, enabled: Option<Result<bool, String>> },
    UnknownOption(String),
    ToggleSidebar,
    /// The two transparency values as text (`"1.0"` where absent), each
    /// parsed in turn by the caller, or the error of reading it.
    Transparency(Result<String, String>, Result<String, String>),
    UnknownCommand(String),
    /// An event this front end does not handle.
    Unsupported,
}

/// The message for an argument that is not a string.
pub open spec fn not_str_error() -> Seq<char> {
    "Can't convert argument to string"@
}

/// The `Gui` event `method` reads its arguments without running off their end.
pub open spec fn gui_total(method: Seq<char>, args: Seq<Value>) -> bool {
    &&& (method == "Clipboard"@ || method == "Option"@ || method == "Command"@) ==> args.len() >= 1
    &&& method == "Clipboard"@ && args.len() >= 1 && args[0].spec_as_str() == Some("Set"@) ==> args.len() >= 2
        && (args[1].spec_as_str() is Some ==> args.len() >= 3)
}

/// The name a font-setting event's missing argument is reported under.
pub open spec fn setter_name(method: Seq<char>) -> Seq<char> {
    if method == "Font"@ {
        "set_font"@
    } else if method == "FontFeatures"@ {
        "set_font_features"@
    } else {
        "set_line_space"@
    }
}

/// A text argument of a transparency command: absent is `"1.0"`.
pub open spec fn transparency_arg(args: Seq<Value>, i: int) -> Result<Seq<char>, Seq<char>> {
    if i >= args.len() {
        Ok("1.0"@)
    } else {
        match args[i].spec_as_str() {
            Some(t) => Ok(t),
            None => Err(not_str_error()),
        }
    }
}

pub open spec fn result_view(r: Result<String, String>) -> Result<Seq<char>, Seq<char>> {
    match r {
        Ok(s) => Ok(s@),
        Err(e) => Err(e@),
    }
}

/// The error of decoding the `Gui` event `method` from `args`, if any.
pub open spec fn gui_error(method: Seq<char>, args: Seq<Value>) -> Option<Seq<char>> {
    if method == "Font"@ || method == "FontFeatures"@ || method == "Linespace"@ {
        if args.len() == 0 {
            Some("No such argument for "@ + setter_name(method))
        } else if args[0].spec_as_str() is None {
            Some("Can't convert to string"@)
        } else {
            None
        }
    } else if method == "Clipboard"@ || method == "Option"@ || method == "Command"@ {
        if args[0].spec_as_str() is None {
            Some(not_str_error())
        } else if method == "Clipboard"@ && args[0].spec_as_str() == Some("Set"@) {
            if args[1].spec_as_str() is None || args[2].spec_as_str() is None {
                Some(not_str_error())
            } else {
                None
            }
        } else {
            None
        }
    } else {
        None
    }
}

/// `ev` is the `Gui` event `method` decoded from `args` (where that succeeds).
pub open spec fn gui_decodes(method: Seq<char>, args: Seq<Value>, ev: GuiEvent) -> bool {
    if method == "Font"@ {
        ev matches GuiEvent::Font(t) && t@ == args[0].spec_as_str()->0
    } else if method == "FontFeatures"@ {
        ev matches GuiEvent::FontFeatures(t) && t@ == args[0].spec_as_str()->0
    } else if method == "Linespace"@ {
        ev matches GuiEvent::Linespace(t) && t@ == args[0].spec_as_str()->0
    } else if method == "Clipboard"@ {
        let opt = args[0].spec_as_str()->0;
        if opt == "Set"@ {
            ev matches GuiEvent::ClipboardSet { primary, text } && primary == (args[1].spec_as_str()->0 == "*"@)
                && text@ == args[2].spec_as_str()->0
        } else {
            ev matches GuiEvent::UnknownClipboardOption(o) && o@ == opt
        }
    } else if method == "Option"@ {
        let opt = args[0].spec_as_str()->0;
        let enabled: Option<Result<bool, Seq<char>>> = if args.len() < 2 {
            None
        } else {
            match args[1].spec_as_u64() {
                Some(n) => Some(Ok(n == 1)),
                None => Some(Err("Can't convert argument to u64"@)),
            }
        };
        if opt == "Popupmenu"@ || opt == "Tabline"@ || opt == "Cmdline"@ {
            ev matches GuiEvent::SetOption { option, enabled: e } && option == (if opt == "Popupmenu"@ {
                GuiOption::Popupmenu
            } else if opt == "Tabline"@ {
                GuiOption::Tabline
            } else {
                GuiOption::Cmdline
            }) && match e {
                None => enabled is None,
                Some(Ok(b)) => enabled == Some(Ok::<bool, Seq<char>>(b)),
                Some(Err(m)) => enabled == Some(Err::<bool, Seq<char>>(m@)),
            }
        } else {
            ev matches GuiEvent::UnknownOption(o) && o@ == opt
        }
    } else if method == "Command"@ {
        let cmd = args[0].spec_as_str()->0;
        if cmd == "ToggleSidebar"@ {
            ev is ToggleSidebar
        } else if cmd == "Transparency"@ {
            ev matches GuiEvent::Transparency(a, b) && result_view(a) == transparency_arg(args, 1) && result_view(b)
                == transparency_arg(args, 2)
        } else {
            ev matches GuiEvent::UnknownCommand(c) && c@ == cmd
        }
    } else {
        ev is Unsupported
    }
}

/// Whether decoding the `Gui` event `method` stays within its arguments
/// (what `call_gui_event` asks of its caller).
pub fn gui_is_total(method: &str, args: &Vec<Value>) -> (r: bool)
    ensures
        r == gui_total(method@, args@),
{
    let clipboard = str_eq(method, "Clipboard");
    if clipboard || str_eq(method, "Option") || str_eq(method, "Command") {
        if args.len() < 1 {
            return false;
        }
    }
    if clipboard {
        let set = match args[0].as_str() {
            Some(o) => str_eq(o, "Set"),
            None => false,
        };
        if set {
            if args.len() < 2 {
                return false;
            }
            if args[1].as_str().is_some() && args.len() < 3 {
                return false;
            }
        }
    }
    true
}

/// Reads argument `i` as a string.
fn str_arg(args: &Vec<Value>, i: usize) -> (r: Result<String, String>)
    requires
        i < args@.len(),
    ensures
        r is Ok <==> args@[i as int].spec_as_str() is Some,
        r matches Ok(t) ==> t@ == args@[i as int].spec_as_str()->0,
        r matches Err(e) ==> e@ == not_str_error(),
{
    match args[i].as_str() {
        Some(t) => Ok(string_from(t)),
        None => Err(string_from("Can't convert argument to string")),
    }
}

fn transparency_text(args: &Vec<Value>, i: usize) -> (r: Result<String, String>)
    ensures
        result_view(r) == transparency_arg(args@, i as int),
{
    if i < args.len() {
        str_arg(args, i)
    } else {
        Ok(string_from("1.0"))
    }
}

/// Decodes the `Gui` event `method` with its arguments.
pub fn call_gui_event(method: &str, args: &Vec<Value>) -> (r: Result<GuiEvent, String>)
    requires
        gui_total(method@, args@),
    ensures
        r is Err <==> gui_error(method@, args@) is Some,
        r matches Err(e) ==> e@ == gui_error(method@, args@)->0,
        r matches Ok(ev) ==> gui_decodes(method@, args@, ev),
{
    let font = str_eq(method, "Font");
    let features = str_eq(method, "FontFeatures");
    let linespace = str_eq(method, "Linespace");
    if font || features || linespace {
        if args.len() == 0 {
            let mut e = string_from("No such argument for ");
            let name = if font {
                "set_font"
            } else if features {
                "set_font_features"
            } else {
                "set_line_space"
            };
            crate::text::push_str(&mut e, name);
            return Err(e);
        }
        let t = match args[0].as_str() {
            Some(t) => string_from(t),
            None => return Err(string_from("Can't convert to string")),
        };
        if font {
            Ok(GuiEvent::Font(t))
        } else if features {
            Ok(GuiEvent::FontFeatures(t))
        } else {
            Ok(GuiEvent::Linespace(t))
        }
    } else if str_eq(method, "Clipboard") {
        let opt = str_arg(args, 0)?;
        if str_eq(opt.as_str(), "Set") {
            let target = str_arg(args, 1)?;
            let text = str_arg(args, 2)?;
            Ok(GuiEvent::ClipboardSet { primary: str_eq(target.as_str(), "*"), text })
        } else {
            Ok(GuiEvent::UnknownClipboardOption(opt))
        }
    } else if str_eq(method, "Option") {
        let opt = str_arg(args, 0)?;
        let enabled = if args.len() < 2 {
            None
        } else {
            match args[1].as_u64() {
                Some(n) => Some(Ok(n == 1)),
                None => Some(Err(string_from("Can't convert argument to u64"))),
            }
        };
        if str_eq(opt.as_str(), "Popupmenu") {
            Ok(GuiEvent::SetOption { option: GuiOption::Popupmenu, enabled })
        } else if str_eq(opt.as_str(), "Tabline") {
            Ok(GuiEvent::SetOption { option: GuiOption::Tabline, enabled })
        } else if str_eq(opt.as_str(), "Cmdline") {
            Ok(GuiEvent::SetOption { option: GuiOption::Cmdline, enabled })
        } else {
            Ok(GuiEvent::UnknownOption(opt))
        }
    } else if str_eq(method, "Command") {
        let cmd = str_arg(args, 0)?;
        if str_eq(cmd.as_str(), "ToggleSidebar") {
            Ok(GuiEvent::ToggleSidebar)
        } else if str_eq(cmd.as_str(), "Transparency") {
            Ok(GuiEvent::Transparency(transparency_text(args, 1), transparency_text(args, 2)))
        } else {
            Ok(GuiEvent::UnknownCommand(cmd))
        }
    } else {
        Ok(GuiEvent::Unsupported)
    }
}


/// The name and the arguments of a `Gui` request: the request's first
/// parameter, where it is a string, and the parameters after it. Any other
/// request is refused (with nil).
pub fn gui_request(method: &str, params: Vec<Value>) -> (r: Option<(String, Vec<Value>)>)
    ensures
        r is Some <==> (method@ == "Gui"@ && params@.len() > 0 && params@[0] is Str),
        r matches Some((name, args)) ==> params@[0] == Value::Str(name) && args@ == params@.skip(1),
{
    if str_eq(method, "Gui") && params.len() > 0 && params[0].as_str().is_some() {
        let ghost all = params@;
        let mut params = params;
        let first = params.remove(0);
        proof {
            assert(params@ =~= all.skip(1));
        }
        match first {
            Value::Str(name) => Some((name, params)),
            _ => None,
        }
    } else {
        None
    }
}

/// A decoded `Gui` request.
#[derive(Debug)]
pub enum GuiRequest {
    /// The text of the primary selection (`*`) or of the clipboard.
    ClipboardGet { primary: bool },
    /// A clipboard request other than `Get`; refused with nil.
    UnknownClipboardOption(String),
    /// A request this front end does not handle.
    Unsupported,
}

/// The `Gui` request `method` reads its arguments without running off their end.
pub open spec fn gui_request_total(method: Seq<char>, args: Seq<Value>) -> bool {
    method == "Clipboard"@ ==> args.len() >= 1 && (args[0].spec_as_str() == Some("Get"@) ==> args.len() >= 2)
}

/// Whether decoding the `Gui` request `method` stays within its arguments
/// (what `call_gui_request` asks of its caller).
pub fn gui_request_is_total(method: &str, args: &Vec<Value>) -> (r: bool)
    ensures
        r == gui_request_total(method@, args@),
{
    if str_eq(method, "Clipboard") {
        if args.len() < 1 {
            return false;
        }
        let get = match args[0].as_str() {
            Some(o) => str_eq(o, "Get"),
            None => false,
        };
        if get && args.len() < 2 {
            return false;
        }
    }
    true
}

/// Decodes the `Gui` request `method` with its arguments.
pub fn call_gui_request(method: &str, args: &Vec<Value>) -> (r: Result<GuiRequest, String>)
    requires
        gui_request_total(method@, args@),
    ensures
        method@ != "Clipboard"@ ==> r matches Ok(GuiRequest::Unsupported),
        method@ == "Clipboard"@ ==> {
            if args@[0].spec_as_str() is None {
                r is Err && r->Err_0@ == not_str_error()
            } else if args@[0].spec_as_str()->0 == "Get"@ {
                match args@[1].spec_as_str() {
                    Some(t) => r matches Ok(GuiRequest::ClipboardGet { primary }) && primary == (t == "*"@),
                    None => r is Err && r->Err_0@ == not_str_error(),
                }
            } else {
                r matches Ok(GuiRequest::UnknownClipboardOption(o)) && o@ == args@[0].spec_as_str()->0
            }
        },
{
    if str_eq(method, "Clipboard") {
        let opt = str_arg(args, 0)?;
        if str_eq(opt.as_str(), "Get") {
            let target = str_arg(args, 1)?;
            Ok(GuiRequest::ClipboardGet { primary: str_eq(target.as_str(), "*") })
        } else {
            Ok(GuiRequest::UnknownClipboardOption(opt))
        }
    } else {
        Ok(GuiRequest::Unsupported)
    }
}

/// The pieces of `s` between `\n` characters (one piece, empty, for an
/// empty text).
pub open spec fn split_newlines(s: Seq<char>) -> Seq<Seq<char>>
    decreases s.len(),
{
    if s.len() == 0 {
        seq![Seq::empty()]
    } else {
        let p = split_newlines(s.drop_last());
        if s.last() == '\n' {
            p.push(Seq::empty())
        } else {
            p.update(p.len() - 1, p.last().push(s.last()))
        }
    }
}

pub(crate) proof fn lemma_split_newlines_nonempty(s: Seq<char>)
    ensures
        split_newlines(s).len() > 0,
    decreases s.len(),
{
    if s.len() > 0 {
        lemma_split_newlines_nonempty(s.drop_last());
    }
}

/// The reply to a clipboard request: the text's lines, split at each `\n`,
/// as an array of strings.
pub fn clipboard_reply(text: &str) -> (v: Value)
    ensures
        v matches Value::Array(lines) && lines@.len() == split_newlines(text@).len() && forall|i: int|
            0 <= i < lines@.len() ==> #[trigger] lines@[i].spec_as_str() == Some(split_newlines(text@)[i]),
{
    let chars = crate::text::to_chars(text);
    let mut lines: Vec<Value> = Vec::new();
    let mut cur: Vec<char> = Vec::new();
    let mut i: usize = 0;
    proof {
        assert(chars@.take(0) =~= Seq::<char>::empty());
    }
    while i < chars.len()
        invariant
            i <= chars@.len(),
            chars@ == text@,
            lines@.len() + 1 == split_newlines(chars@.take(i as int)).len(),
            forall|k: int| 0 <= k < lines@.len() ==> #[trigger] lines@[k].spec_as_str() == Some(
                split_newlines(chars@.take(i as int))[k],
            ),
            cur@ == split_newlines(chars@.take(i as int)).last(),
        decreases chars@.len() - i,
    {
        let ghost t = chars@.take(i as int);
        proof {
            assert(chars@.take(i + 1).drop_last() =~= t);
            assert(chars@.take(i + 1).last() == chars@[i as int]);
            lemma_split_newlines_nonempty(t);
        }
        if chars[i] == '\n' {
            let piece = crate::text::from_chars(&cur);
            lines.push(Value::Str(piece));
            cur = Vec::new();
            proof {
                assert(cur@ =~= Seq::<char>::empty());
            }
        } else {
            cur.push(chars[i]);
        }
        i = i + 1;
    }
    proof {
        assert(chars@.take(i as int) =~= chars@);
    }
    let last = crate::text::from_chars(&cur);
    lines.push(Value::Str(last));
    Value::Array(lines)
}


/// Lines joined with `\n` between them.
pub open spec fn join_lines(p: Seq<Seq<char>>) -> Seq<char>
    decreases p.len(),
{
    if p.len() == 0 {
        Seq::empty()
    } else if p.len() == 1 {
        p[0]
    } else {
        join_lines(p.drop_last()) + seq!['\n'] + p.last()
    }
}

/// The lines of a clipboard reply, joined by newlines, give the text back.
pub proof fn law_clipboard_lines_join(s: Seq<char>)
    ensures
        join_lines(split_newlines(s)) == s,
    decreases s.len(),
{
    if s.len() == 0 {
        assert(join_lines(seq![Seq::<char>::empty()]) =~= s);
    } else {
        let t = s.drop_last();
        law_clipboard_lines_join(t);
        lemma_split_newlines_nonempty(t);
        let p = split_newlines(t);
        if s.last() == '\n' {
            assert(p.push(Seq::<char>::empty()).drop_last() =~= p);
            assert(join_lines(p.push(Seq::<char>::empty())) =~= t + seq!['\n']);
            assert(t + seq!['\n'] =~= s);
        } else {
            let q = p.update(p.len() - 1, p.last().push(s.last()));
            if p.len() == 1 {
                assert(join_lines(q) == q[0]);
                assert(q[0] =~= t.push(s.last()));
            } else {
                assert(q.drop_last() =~= p.drop_last());
                assert(join_lines(q) =~= join_lines(p.drop_last()) + seq!['\n'] + p.last().push(s.last()));
                assert(join_lines(p) == join_lines(p.drop_last()) + seq!['\n'] + p.last());
                assert(join_lines(q) =~= join_lines(p).push(s.last()));
            }
            assert(t.push(s.last()) =~= s);
        }
    }
}

/// `Clipboard Set` sets the primary selection exactly when its register is
/// `*`: for `+` (or any other register) it sets the clipboard. The text set is
/// the third argument.
pub proof fn law_clipboard_set_target(args: Seq<Value>, ev: GuiEvent)
    requires
        gui_decodes("Clipboard"@, args, ev),
        args[0].spec_as_str() == Some("Set"@),
    ensures
        args[1].spec_as_str() == Some("*"@) ==> (ev matches GuiEvent::ClipboardSet { primary, text } && primary
            && text@ == args[2].spec_as_str()->0),
        args[1].spec_as_str() == Some("+"@) ==> (ev matches GuiEvent::ClipboardSet { primary, text } && !primary
            && text@ == args[2].spec_as_str()->0),
{
    reveal_strlit("*");
    reveal_strlit("+");
    reveal_strlit("Set");
    reveal_strlit("Clipboard");
    reveal_strlit("Font");
    reveal_strlit("FontFeatures");
    reveal_strlit("Linespace");
    assert("Clipboard"@[0] == 'C' && "Font"@[0] == 'F' && "FontFeatures"@[0] == 'F' && "Linespace"@[0] == 'L');
    assert("*"@[0] == '*' && "+"@[0] == '+');
}

} // verus!
