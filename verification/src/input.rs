//! Keyboard input: the key names and modifiers of key events, turned into the
//! notation neovim's `nvim_input` reads.
use vstd::prelude::*;

use crate::text::{push_char, push_str, str_eq, string_from, to_chars};

verus! {

/// The Shift modifier bit of a key event's state.
pub const SHIFT_MASK: u32 = 1;

/// The Control modifier bit of a key event's state.
pub const CONTROL_MASK: u32 = 4;

/// The Alt (Mod1) modifier bit of a key event's state.
pub const MOD1_MASK: u32 = 8;

/// The state has the modifier bit `mask`.
pub open spec fn has_modifier(state: u32, mask: u32) -> bool {
    state & mask != 0
}

/// An ASCII character that is neither a letter nor a digit.
pub open spec fn ascii_punct(c: char) -> bool {
    (c as int) < 128 && !(('0' <= c && c <= '9') || ('a' <= c && c <= 'z') || ('A' <= c && c <= 'Z'))
}

/// The key written in neovim's notation: `s` is the key's text, `state` its
/// modifiers. Control-6 and Control-2 stand for `^` and `@`; Shift is dropped
/// for a single ASCII punctuation character; `<` is written `lt`; modifiers
/// are prefixed as `S-`, `C-`, `A-`, and anything longer than one character
/// goes between `<` and `>`.
pub open spec fn input_string(s: Seq<char>, state: u32) -> Seq<char> {
    let ctrl = has_modifier(state, CONTROL_MASK);
    let alt = has_modifier(state, MOD1_MASK);
    let val1 = if ctrl && !has_modifier(state, SHIFT_MASK) && !alt {
        if s == "6"@ {
            "^"@
        } else if s == "2"@ {
            "@"@
        } else {
            s
        }
    } else {
        s
    };
    let shift = if s.len() == 1 && ascii_punct(s[0]) {
        false
    } else {
        has_modifier(state, SHIFT_MASK)
    };
    let val = if val1 == "<"@ {
        "lt"@
    } else {
        val1
    };
    let input = (if shift {
        "S-"@
    } else {
        Seq::empty()
    }) + (if ctrl {
        "C-"@
    } else {
        Seq::empty()
    }) + (if alt {
        "A-"@
    } else {
        Seq::empty()
    }) + val;
    if input.len() > 1 {
        "<"@ + input + ">"@
    } else {
        input
    }
}

fn is_ascii_punct(c: char) -> (r: bool)
    ensures
        r == ascii_punct(c),
{
    (c as u32) < 128 && !(('0' <= c && c <= '9') || ('a' <= c && c <= 'z') || ('A' <= c && c <= 'Z'))
}

/// The key `in_str`, with the modifiers `in_state`, in neovim's notation.
pub fn keyval_to_input_string(in_str: &str, in_state: u32) -> (r: String)
    ensures
        r@ == input_string(in_str@, in_state),
{
    let mut val: &str = in_str;
    let shift_held = in_state & SHIFT_MASK != 0;
    let ctrl = in_state & CONTROL_MASK != 0;
    let alt = in_state & MOD1_MASK != 0;
    if ctrl && !shift_held && !alt {
        if str_eq(val, "6") {
            val = "^";
        } else if str_eq(val, "2") {
            val = "@";
        }
    }
    let chars = to_chars(in_str);
    let mut shift = shift_held;
    if chars.len() == 1 {
        if is_ascii_punct(chars[0]) {
            shift = false;
        }
    }
    if str_eq(val, "<") {
        val = "lt";
    }
    let mut input = String::new();
    proof {
        reveal_strlit("");
    }
    if shift {
        push_str(&mut input, "S-");
    }
    if ctrl {
        push_str(&mut input, "C-");
    }
    if alt {
        push_str(&mut input, "A-");
    }
    push_str(&mut input, val);
    let n = input.as_str().unicode_len();
    if n > 1 {
        let mut out = string_from("<");
        push_str(&mut out, input.as_str());
        push_str(&mut out, ">");
        out
    } else {
        input
    }
}

/// The neovim name of a special key, by its GDK key name.
pub open spec fn keyval_map(name: Seq<char>) -> Option<Seq<char>> {
    if name == "F1"@ { Some("F1"@) }
    else if name == "F2"@ { Some("F2"@) }
    else if name == "F3"@ { Some("F3"@) }
    else if name == "F4"@ { Some("F4"@) }
    else if name == "F5"@ { Some("F5"@) }
    else if name == "F6"@ { Some("F6"@) }
    else if name == "F7"@ { Some("F7"@) }
    else if name == "F8"@ { Some("F8"@) }
    else if name == "F9"@ { Some("F9"@) }
    else if name == "F10"@ { Some("F10"@) }
    else if name == "F11"@ { Some("F11"@) }
    else if name == "F12"@ { Some("F12"@) }
    else if name == "Left"@ { Some("Left"@) }
    else if name == "Right"@ { Some("Right"@) }
    else if name == "Up"@ { Some("Up"@) }
    else if name == "Down"@ { Some("Down"@) }
    else if name == "BackSpace"@ { Some("BS"@) }
    else if name == "Return"@ { Some("CR"@) }
    else if name == "Escape"@ { Some("Esc"@) }
    else if name == "Delete"@ { Some("Del"@) }
    else if name == "Page_Up"@ { Some("PageUp"@) }
    else if name == "Page_Down"@ { Some("PageDown"@) }
    else if name == "Enter"@ { Some("CR"@) }
    else if name == "Tab"@ { Some("Tab"@) }
    else if name == "ISO_Left_Tab"@ { Some("Tab"@) }
    else { None }
}

/// The neovim name of a special key, by its GDK key name.
pub fn keyval_name_to_input(name: &str) -> (r: Option<&'static str>)
    ensures
        r is Some <==> keyval_map(name@) is Some,
        r matches Some(n) ==> n@ == keyval_map(name@)->0,
{
    if str_eq(name, "F1") { Some("F1") }
    else if str_eq(name, "F2") { Some("F2") }
    else if str_eq(name, "F3") { Some("F3") }
    else if str_eq(name, "F4") { Some("F4") }
    else if str_eq(name, "F5") { Some("F5") }
    else if str_eq(name, "F6") { Some("F6") }
    else if str_eq(name, "F7") { Some("F7") }
    else if str_eq(name, "F8") { Some("F8") }
    else if str_eq(name, "F9") { Some("F9") }
    else if str_eq(name, "F10") { Some("F10") }
    else if str_eq(name, "F11") { Some("F11") }
    else if str_eq(name, "F12") { Some("F12") }
    else if str_eq(name, "Left") { Some("Left") }
    else if str_eq(name, "Right") { Some("Right") }
    else if str_eq(name, "Up") { Some("Up") }
    else if str_eq(name, "Down") { Some("Down") }
    else if str_eq(name, "BackSpace") { Some("BS") }
    else if str_eq(name, "Return") { Some("CR") }
    else if str_eq(name, "Escape") { Some("Esc") }
    else if str_eq(name, "Delete") { Some("Del") }
    else if str_eq(name, "Page_Up") { Some("PageUp") }
    else if str_eq(name, "Page_Down") { Some("PageDown") }
    else if str_eq(name, "Enter") { Some("CR") }
    else if str_eq(name, "Tab") { Some("Tab") }
    else if str_eq(name, "ISO_Left_Tab") { Some("Tab") }
    else { None }
}

/// The input for a key event: a special key by its name, else the key's
/// character; nothing for a key that is neither.
pub fn convert_key(keyval_name: Option<&str>, keyval_char: Option<char>, state: u32) -> (r: Option<String>)
    ensures
        (keyval_name matches Some(n) && keyval_map(n@) is Some) ==> r is Some && r->0@ == input_string(
            keyval_map(keyval_name->0@)->0,
            state,
        ),
        !(keyval_name matches Some(n) && keyval_map(n@) is Some) ==> match keyval_char {
            Some(c) => r is Some && r->0@ == input_string(seq![c], state),
            None => r is None,
        },
{
    match keyval_name {
        Some(name) => match keyval_name_to_input(name) {
            Some(cnvt) => {
                return Some(keyval_to_input_string(cnvt, state));
            },
            None => {},
        },
        None => {},
    }
    match keyval_char {
        Some(ch) => {
            let mut s = String::new();
            proof {
                reveal_strlit("");
            }
            push_char(&mut s, ch);
            proof {
                assert(s@ =~= seq![ch]);
            }
            Some(keyval_to_input_string(s.as_str(), state))
        },
        None => None,
    }
}

/// Text typed through an input method, each character in neovim's notation.
pub open spec fn im_input_string(s: Seq<char>) -> Seq<char>
    decreases s.len(),
{
    if s.len() == 0 {
        Seq::empty()
    } else {
        im_input_string(s.drop_last()) + input_string(seq![s.last()], 0)
    }
}

/// The input to send for text typed through an input method.
pub fn im_input(input: &str) -> (r: String)
    ensures
        r@ == im_input_string(input@),
{
    let chars = to_chars(input);
    let mut out = String::new();
    let mut i: usize = 0;
    proof {
        reveal_strlit("");
        assert(chars@.take(0) =~= Seq::<char>::empty());
    }
    while i < chars.len()
        invariant
            i <= chars@.len(),
            chars@ == input@,
            out@ == im_input_string(chars@.take(i as int)),
        decreases chars@.len() - i,
    {
        let mut s = String::new();
        push_char(&mut s, chars[i]);
        proof {
            assert(s@ =~= seq![chars@[i as int]]);
            assert(chars@.take(i + 1).drop_last() =~= chars@.take(i as int));
            assert(chars@.take(i + 1).last() == chars@[i as int]);
        }
        let piece = keyval_to_input_string(s.as_str(), 0);
        push_str(&mut out, piece.as_str());
        i = i + 1;
    }
    proof {
        assert(chars@.take(i as int) =~= chars@);
    }
    out
}


/// One character without modifiers is sent as itself, unless it is `<`.
proof fn lemma_plain_char(c: char)
    requires
        c != '<',
    ensures
        input_string(seq![c], 0) == seq![c],
{
    assert(0u32 & 4u32 == 0u32 && 0u32 & 8u32 == 0u32 && 0u32 & 1u32 == 0u32) by (bit_vector);
    reveal_strlit("<");
    assert(seq![c] != "<"@) by {
        if seq![c] == "<"@ {
            assert(seq![c][0] == "<"@[0]);
        }
    }
    let e = Seq::<char>::empty();
    assert(e + e + e + seq![c] =~= seq![c]);
}

/// Text typed through an input method reaches neovim as it is, where it holds
/// no `<`.
pub proof fn law_im_input_plain_text(s: Seq<char>)
    requires
        forall|i: int| 0 <= i < s.len() ==> s[i] != '<',
    ensures
        im_input_string(s) == s,
    decreases s.len(),
{
    if s.len() > 0 {
        let p = s.drop_last();
        assert forall|i: int| 0 <= i < p.len() implies p[i] != '<' by {
            assert(p[i] == s[i]);
        }
        law_im_input_plain_text(p);
        assert(s[s.len() - 1] != '<');
        lemma_plain_char(s.last());
        assert(p + seq![s.last()] =~= s);
    }
}

/// A key is sent as one character, or as a name between `<` and `>`.
pub proof fn law_key_notation_shape(s: Seq<char>, state: u32)
    ensures
        input_string(s, state).len() <= 1 || (input_string(s, state)[0] == '<'
            && input_string(s, state).last() == '>'),
{
    reveal_strlit("<");
    reveal_strlit(">");
}

/// The special keys, by their GDK names, and the neovim keys they stand
/// for: each function key for itself, each arrow key for the arrow of the
/// same direction, and the editing keys for their neovim names; a key
/// pressed alone is sent as its name between `<` and `>`.
pub proof fn law_special_key_table()
    ensures
        keyval_map("F1"@) == Some("F1"@),
        keyval_map("F2"@) == Some("F2"@),
        keyval_map("F3"@) == Some("F3"@),
        keyval_map("F4"@) == Some("F4"@),
        keyval_map("F5"@) == Some("F5"@),
        keyval_map("F6"@) == Some("F6"@),
        keyval_map("F7"@) == Some("F7"@),
        keyval_map("F8"@) == Some("F8"@),
        keyval_map("F9"@) == Some("F9"@),
        keyval_map("F10"@) == Some("F10"@),
        keyval_map("F11"@) == Some("F11"@),
        keyval_map("F12"@) == Some("F12"@),
        keyval_map("Left"@) == Some("Left"@),
        keyval_map("Right"@) == Some("Right"@),
        keyval_map("Up"@) == Some("Up"@),
        keyval_map("Down"@) == Some("Down"@),
        keyval_map("BackSpace"@) == Some("BS"@),
        keyval_map("Return"@) == Some("CR"@),
        keyval_map("Escape"@) == Some("Esc"@),
        keyval_map("Delete"@) == Some("Del"@),
        keyval_map("Page_Up"@) == Some("PageUp"@),
        keyval_map("Page_Down"@) == Some("PageDown"@),
        keyval_map("Enter"@) == Some("CR"@),
        keyval_map("Tab"@) == Some("Tab"@),
        keyval_map("ISO_Left_Tab"@) == Some("Tab"@),
        input_string("Left"@, 0) == "<Left>"@,
        input_string("Right"@, 0) == "<Right>"@,
        input_string("Up"@, 0) == "<Up>"@,
        input_string("Down"@, 0) == "<Down>"@,
{
    reveal_strlit("<");
    reveal_strlit("<Down>");
    reveal_strlit("<Left>");
    reveal_strlit("<Right>");
    reveal_strlit("<Up>");
    reveal_strlit(">");
    reveal_strlit("BS");
    reveal_strlit("BackSpace");
    reveal_strlit("CR");
    reveal_strlit("Del");
    reveal_strlit("Delete");
    reveal_strlit("Down");
    reveal_strlit("Enter");
    reveal_strlit("Esc");
    reveal_strlit("Escape");
    reveal_strlit("F1");
    reveal_strlit("F10");
    reveal_strlit("F11");
    reveal_strlit("F12");
    reveal_strlit("F2");
    reveal_strlit("F3");
    reveal_strlit("F4");
    reveal_strlit("F5");
    reveal_strlit("F6");
    reveal_strlit("F7");
    reveal_strlit("F8");
    reveal_strlit("F9");
    reveal_strlit("ISO_Left_Tab");
    reveal_strlit("Left");
    reveal_strlit("PageDown");
    reveal_strlit("PageUp");
    reveal_strlit("Page_Down");
    reveal_strlit("Page_Up");
    reveal_strlit("Return");
    reveal_strlit("Right");
    reveal_strlit("Tab");
    reveal_strlit("Up");
    assert("F1"@.len() == 2 && "F1"@[0] == 'F' && "F1"@[1] == '1');
    assert("F2"@.len() == 2 && "F2"@[0] == 'F' && "F2"@[1] == '2');
    assert("F3"@.len() == 2 && "F3"@[0] == 'F' && "F3"@[1] == '3');
    assert("F4"@.len() == 2 && "F4"@[0] == 'F' && "F4"@[1] == '4');
    assert("F5"@.len() == 2 && "F5"@[0] == 'F' && "F5"@[1] == '5');
    assert("F6"@.len() == 2 && "F6"@[0] == 'F' && "F6"@[1] == '6');
    assert("F7"@.len() == 2 && "F7"@[0] == 'F' && "F7"@[1] == '7');
    assert("F8"@.len() == 2 && "F8"@[0] == 'F' && "F8"@[1] == '8');
    assert("F9"@.len() == 2 && "F9"@[0] == 'F' && "F9"@[1] == '9');
    assert("F10"@.len() == 3 && "F10"@[0] == 'F' && "F10"@[1] == '1' && "F10"@[2] == '0');
    assert("F11"@.len() == 3 && "F11"@[0] == 'F' && "F11"@[1] == '1' && "F11"@[2] == '1');
    assert("F12"@.len() == 3 && "F12"@[0] == 'F' && "F12"@[1] == '1' && "F12"@[2] == '2');
    assert("Left"@.len() == 4 && "Left"@[0] == 'L' && "Left"@[1] == 'e' && "Left"@[2] == 'f' && "Left"@[3] == 't');
    assert("Right"@.len() == 5 && "Right"@[0] == 'R' && "Right"@[1] == 'i' && "Right"@[2] == 'g' && "Right"@[3] == 'h' && "Right"@[4] == 't');
    assert("Up"@.len() == 2 && "Up"@[0] == 'U' && "Up"@[1] == 'p');
    assert("Down"@.len() == 4 && "Down"@[0] == 'D' && "Down"@[1] == 'o' && "Down"@[2] == 'w' && "Down"@[3] == 'n');
    assert("BackSpace"@.len() == 9 && "BackSpace"@[0] == 'B' && "BackSpace"@[1] == 'a' && "BackSpace"@[2] == 'c' && "BackSpace"@[3] == 'k' && "BackSpace"@[4] == 'S' && "BackSpace"@[5] == 'p');
    assert("Return"@.len() == 6 && "Return"@[0] == 'R' && "Return"@[1] == 'e' && "Return"@[2] == 't' && "Return"@[3] == 'u' && "Return"@[4] == 'r' && "Return"@[5] == 'n');
    assert("Escape"@.len() == 6 && "Escape"@[0] == 'E' && "Escape"@[1] == 's' && "Escape"@[2] == 'c' && "Escape"@[3] == 'a' && "Escape"@[4] == 'p' && "Escape"@[5] == 'e');
    assert("Delete"@.len() == 6 && "Delete"@[0] == 'D' && "Delete"@[1] == 'e' && "Delete"@[2] == 'l' && "Delete"@[3] == 'e' && "Delete"@[4] == 't' && "Delete"@[5] == 'e');
    assert("Page_Up"@.len() == 7 && "Page_Up"@[0] == 'P' && "Page_Up"@[1] == 'a' && "Page_Up"@[2] == 'g' && "Page_Up"@[3] == 'e' && "Page_Up"@[4] == '_' && "Page_Up"@[5] == 'U');
    assert("Page_Down"@.len() == 9 && "Page_Down"@[0] == 'P' && "Page_Down"@[1] == 'a' && "Page_Down"@[2] == 'g' && "Page_Down"@[3] == 'e' && "Page_Down"@[4] == '_' && "Page_Down"@[5] == 'D');
    assert("Enter"@.len() == 5 && "Enter"@[0] == 'E' && "Enter"@[1] == 'n' && "Enter"@[2] == 't' && "Enter"@[3] == 'e' && "Enter"@[4] == 'r');
    assert("Tab"@.len() == 3 && "Tab"@[0] == 'T' && "Tab"@[1] == 'a' && "Tab"@[2] == 'b');
    assert("ISO_Left_Tab"@.len() == 12 && "ISO_Left_Tab"@[0] == 'I' && "ISO_Left_Tab"@[1] == 'S' && "ISO_Left_Tab"@[2] == 'O' && "ISO_Left_Tab"@[3] == '_' && "ISO_Left_Tab"@[4] == 'L' && "ISO_Left_Tab"@[5] == 'e');
    assert(0u32 & 1u32 == 0u32) by (bit_vector);
    assert(0u32 & 4u32 == 0u32) by (bit_vector);
    assert(0u32 & 8u32 == 0u32) by (bit_vector);
    assert("<"@ + "Left"@ + ">"@ =~= "<Left>"@);
    assert("<"@ + "Right"@ + ">"@ =~= "<Right>"@);
    assert("<"@ + "Up"@ + ">"@ =~= "<Up>"@);
    assert("<"@ + "Down"@ + ">"@ =~= "<Down>"@);
    assert(Seq::<char>::empty() + Seq::<char>::empty() + Seq::<char>::empty() + "Left"@ =~= "Left"@);
    assert(Seq::<char>::empty() + Seq::<char>::empty() + Seq::<char>::empty() + "Right"@ =~= "Right"@);
    assert(Seq::<char>::empty() + Seq::<char>::empty() + Seq::<char>::empty() + "Up"@ =~= "Up"@);
    assert(Seq::<char>::empty() + Seq::<char>::empty() + Seq::<char>::empty() + "Down"@ =~= "Down"@);
}

} // verus!
