//! File names and URIs, plugin names from their paths, and the markup of the
//! error messages shown when neovim cannot be started.
use vstd::prelude::*;
use vstd::string::StringSliceAdditionalSpecFns;
use vstd::utf8::{decode_utf8, is_char_boundary, valid_utf8};

use crate::plug_store::{ends_with_git, slice_chars, trim_git};
use crate::text::{from_chars, push_str, str_eq, string_from, to_chars};

verus! {

/// What `Regex::new` accepts: the patterns that compile.
pub uninterp spec fn regex_compiles(pattern: Seq<char>) -> bool;

/// What `Regex::replace_all` gives for the compiled `pattern`, the text and the
/// replacement.
pub uninterp spec fn regex_replace_all(pattern: Seq<char>, text: Seq<char>, rep: Seq<char>) -> Seq<char>;

/// `regex::Regex::new`: claimed to succeed exactly on the patterns that
/// `regex_compiles` names.
#[verifier::external_body]
fn regex_valid(pattern: &str) -> (ok: bool)
    ensures
        ok == regex_compiles(pattern@),
{
    regex::Regex::new(pattern).is_ok()
}

/// `regex::Regex::replace_all` on the compiled `pattern`: claimed to give the
/// result that `regex_replace_all` names for these arguments. Nothing more is
/// stated of the replacement: the regex engine's semantics are not written out.
#[verifier::external_body]
fn regex_replace(pattern: &str, text: &str, rep: &str) -> (r: String)
    requires
        regex_compiles(pattern@),
    ensures
        r@ == regex_replace_all(pattern@, text@, rep@),
{
    regex::Regex::new(pattern).unwrap().replace_all(text, rep).into_owned()
}

/// The ASCII characters that are escaped in a file name: all but letters,
/// digits, `.`, `_`, `/` and `-`.
pub open spec fn special_chars_pattern() -> Seq<char> {
    "[[:ascii:]&&[^0-9a-zA-Z._/-]]"@
}

/// Each match is replaced by itself behind a backslash.
pub open spec fn escape_replacement() -> Seq<char> {
    "\\$0"@
}

/// Escapes the special ASCII characters of `filename` with a backslash.
pub fn escape_filename(filename: &str) -> (r: String)
    requires
        regex_compiles(special_chars_pattern()),
    ensures
        r@ == regex_replace_all(special_chars_pattern(), filename@, escape_replacement()),
{
    regex_replace("[[:ascii:]&&[^0-9a-zA-Z._/-]]", filename, "\\$0")
}

/// Whether the pattern of special characters compiles (it always does).
pub fn filename_escaping_available() -> (r: bool)
    ensures
        r == regex_compiles(special_chars_pattern()),
{
    regex_valid("[[:ascii:]&&[^0-9a-zA-Z._/-]]")
}

/// Escapes `filename` where the pattern of special characters compiles
/// (it always does); `None` otherwise.
pub fn try_escape_filename(filename: &str) -> (r: Option<String>)
    ensures
        r is Some <==> regex_compiles(special_chars_pattern()),
        r matches Some(s) ==> s@ == regex_replace_all(special_chars_pattern(), filename@, escape_replacement()),
{
    if filename_escaping_available() {
        Some(escape_filename(filename))
    } else {
        None
    }
}

/// A hexadecimal digit, in either case.
pub open spec fn is_hex_digit(b: u8) -> bool {
    (0x30 <= b <= 0x39) || (0x41 <= b <= 0x46) || (0x61 <= b <= 0x66)
}

pub open spec fn hex_value(b: u8) -> int {
    if b <= 0x39 {
        b - 0x30
    } else if b <= 0x46 {
        b - 0x41 + 10
    } else {
        b - 0x61 + 10
    }
}

/// Percent-decoding: `%` and two hexadecimal digits stand for the byte they
/// spell; every other byte, a `%` without two digits after it too, stands
/// for itself.
pub open spec fn percent_decoded(b: Seq<u8>) -> Seq<u8>
    decreases b.len(),
{
    if b.len() == 0 {
        Seq::empty()
    } else if b[0] == 0x25 && b.len() >= 3 && is_hex_digit(b[1]) && is_hex_digit(b[2]) {
        seq![(hex_value(b[1]) * 16 + hex_value(b[2])) as u8] + percent_decoded(b.subrange(3, b.len() as int))
    } else {
        seq![b[0]] + percent_decoded(b.subrange(1, b.len() as int))
    }
}

/// `percent_encoding::percent_decode` followed by `decode_utf8`: claimed to
/// decode as `percent_decoded` says and to succeed exactly when the decoded
/// bytes are UTF-8, giving their characters.
#[verifier::external_body]
fn percent_decode_utf8(input: &[u8]) -> (r: Option<String>)
    ensures
        r is Some <==> valid_utf8(percent_decoded(input@)),
        r matches Some(s) ==> s@ == decode_utf8(percent_decoded(input@)),
{
    match percent_encoding::percent_decode(input).decode_utf8() {
        Ok(s) => Some(s.into_owned()),
        Err(_) => None,
    }
}

/// The path of a `file:///` URI, percent-decoded, where the URI is one and
/// its path is UTF-8 once decoded.
pub open spec fn uri_path(bytes: Seq<u8>) -> Option<Seq<char>> {
    if decode_utf8(bytes.subrange(0, 8)) == "file:///"@ && valid_utf8(
        percent_decoded(bytes.subrange(8, bytes.len() as int)),
    ) {
        Some("/"@ + decode_utf8(percent_decoded(bytes.subrange(8, bytes.len() as int))))
    } else {
        None
    }
}

/// Decodes a file URI: `file:///path/to/a%20file.ext` gives
/// `/path/to/a file.ext`.
pub fn decode_uri(uri: &str) -> (r: Option<String>)
    requires
        is_char_boundary(uri.spec_bytes(), 8),
    ensures
        r is Some <==> uri_path(uri.spec_bytes()) is Some,
        r matches Some(p) ==> p@ == uri_path(uri.spec_bytes())->0,
{
    let (head, path) = uri.split_at(8);
    proof {
        vstd::utf8::encode_utf8_decode_utf8(head@);
        assert(decode_utf8(uri.spec_bytes().subrange(0, 8)) == head@);
    }
    if !str_eq(head, "file:///") {
        return None;
    }
    let decoded = match percent_decode_utf8(path.as_bytes()) {
        Some(d) => d,
        None => return None,
    };
    let mut out = string_from("/");
    push_str(&mut out, decoded.as_str());
    Some(out)
}

/// The index of the last `/` or `\` of `s`.
pub open spec fn last_separator(s: Seq<char>) -> Option<int>
    decreases s.len(),
{
    if s.len() == 0 {
        None
    } else if s.last() == '/' || s.last() == '\\' {
        Some(s.len() - 1)
    } else {
        last_separator(s.drop_last())
    }
}

/// A plugin's name from its path: what follows the last separator, with every
/// trailing `.git` removed; nothing where no separator is followed by text.
pub open spec fn plugin_name(path: Seq<char>) -> Option<Seq<char>> {
    match last_separator(path) {
        Some(i) => if i < path.len() - 1 {
            Some(trim_git(path).skip(i + 1))
        } else {
            None
        },
        None => None,
    }
}

/// `trim_git` removes no more than `.git` chunks, none of which holds a separator.
proof fn lemma_trim_git_keeps_separator(s: Seq<char>, i: int)
    requires
        0 <= i < s.len(),
        s[i] == '/' || s[i] == '\\',
    ensures
        trim_git(s).len() > i,
        trim_git(s).len() <= s.len(),
        trim_git(s) == s.take(trim_git(s).len() as int),
    decreases s.len(),
{
    if s.len() >= 4 && s.subrange(s.len() - 4, s.len() as int) == ".git"@ {
        reveal_strlit(".git");
        if i >= s.len() - 4 {
            assert(s.subrange(s.len() - 4, s.len() as int)[i - (s.len() - 4)] == s[i]);
        }
        let t = s.take(s.len() - 4);
        assert(t[i] == s[i]);
        lemma_trim_git_keeps_separator(t, i);
        let l = trim_git(t).len() as int;
        assert(t.take(l) =~= s.take(l));
    } else {
        assert(s.take(s.len() as int) =~= s);
    }
}

/// The plugin name in `path`: the part after the last `/` or `\`, without
/// its trailing `.git`.
pub fn extract_name(path: &str) -> (r: Option<String>)
    ensures
        r is Some <==> plugin_name(path@) is Some,
        r matches Some(n) ==> n@ == plugin_name(path@)->0,
{
    let chars = to_chars(path);
    let mut k = chars.len();
    proof {
        assert(chars@.take(k as int) =~= chars@);
    }
    while k > 0 && chars[k - 1] != '/' && chars[k - 1] != '\\'
        invariant
            k <= chars@.len(),
            chars@ == path@,
            last_separator(chars@) == last_separator(chars@.take(k as int)),
        decreases k,
    {
        proof {
            assert(chars@.take(k as int).drop_last() =~= chars@.take(k - 1));
        }
        k = k - 1;
    }
    if k == 0 {
        proof {
            assert(chars@.take(0) =~= Seq::<char>::empty());
        }
        return None;
    }
    let idx = k - 1;
    proof {
        assert(chars@.take(k as int).last() == chars@[idx as int]);
    }
    if idx >= chars.len() - 1 {
        return None;
    }
    let mut n = chars.len();
    proof {
        assert(chars@.take(n as int) =~= chars@);
        lemma_trim_git_keeps_separator(chars@, idx as int);
    }
    while ends_with_git(&chars, n)
        invariant
            n <= chars@.len(),
            trim_git(chars@) == trim_git(chars@.take(n as int)),
        decreases n,
    {
        proof {
            assert(chars@.take(n as int).take(n - 4) =~= chars@.take(n - 4));
        }
        n = n - 4;
    }
    proof {
        assert(trim_git(chars@.take(n as int)) == chars@.take(n as int));
        assert(n > idx);
    }
    let name = slice_chars(&chars, idx + 1, n);
    proof {
        assert(name@ =~= trim_git(chars@).skip(idx + 1));
    }
    Some(from_chars(&name))
}

/// The lowest neovim version this front end supports.
pub const MINIMUM_SUPPORTED_NVIM_VERSION: &'static str = "0.2";

/// `htmlescape::encode_minimal`, one character at a time: the entity for
/// `"`, `&`, `'`, `<` and `>`, the character itself otherwise.
pub open spec fn char_entity(c: char) -> Seq<char> {
    if c == '"' {
        "&quot;"@
    } else if c == '&' {
        "&amp;"@
    } else if c == '\'' {
        "&#x27;"@
    } else if c == '<' {
        "&lt;"@
    } else if c == '>' {
        "&gt;"@
    } else {
        seq![c]
    }
}

/// The text with the five HTML special characters entity-encoded.
pub open spec fn html_escaped(s: Seq<char>) -> Seq<char>
    decreases s.len(),
{
    if s.len() == 0 {
        Seq::empty()
    } else {
        html_escaped(s.drop_last()) + char_entity(s.last())
    }
}

/// `htmlescape::encode_minimal`: claimed to replace each of `"`, `&`, `'`,
/// `<`, `>` by its entity and keep every other character.
#[verifier::external_body]
pub(crate) fn encode_minimal(s: &str) -> (r: String)
    ensures
        r@ == html_escaped(s@),
{
    htmlescape::encode_minimal(s)
}

/// The markup shown when neovim started but could not be initialized.
pub fn nvim_init_error_markup(err: &str) -> (m: String)
    ensures
        m@ == "<big>Can't initialize nvim:</big>\n<span foreground=\"red\"><i>"@ + html_escaped(err@)
            + "</i></span>\n\n<big>Possible error reasons:</big>\n&#9679; Not supported nvim version (minimum supported version is <b>"@
            + MINIMUM_SUPPORTED_NVIM_VERSION@
            + "</b>)\n&#9679; Error in configuration file (init.vim or ginit.vim)"@,
{
    let mut m = string_from("<big>Can't initialize nvim:</big>\n<span foreground=\"red\"><i>");
    let e = encode_minimal(err);
    push_str(&mut m, e.as_str());
    push_str(
        &mut m,
        "</i></span>\n\n<big>Possible error reasons:</big>\n&#9679; Not supported nvim version (minimum supported version is <b>",
    );
    push_str(&mut m, MINIMUM_SUPPORTED_NVIM_VERSION);
    push_str(&mut m, "</b>)\n&#9679; Error in configuration file (init.vim or ginit.vim)");
    m
}

/// The markup shown when the neovim process could not be started by `cmd`.
pub fn nvim_start_error_markup(err: &str, cmd: &str) -> (m: String)
    ensures
        m@ == "<big>Can't start nvim instance:</big>\n<i>"@ + html_escaped(cmd@) + "</i>\n<span foreground=\"red\"><i>"@
            + html_escaped(err@)
            + "</i></span>\n\n<big>Possible error reasons:</big>\n&#9679; Not supported nvim version (minimum supported version is <b>"@
            + MINIMUM_SUPPORTED_NVIM_VERSION@
            + "</b>)\n&#9679; Error in configuration file (init.vim or ginit.vim)\n&#9679; Wrong nvim binary path (right path can be passed with <i>--nvim-bin-path=path_here</i>)"@,
{
    let mut m = string_from("<big>Can't start nvim instance:</big>\n<i>");
    let c = encode_minimal(cmd);
    push_str(&mut m, c.as_str());
    push_str(&mut m, "</i>\n<span foreground=\"red\"><i>");
    let e = encode_minimal(err);
    push_str(&mut m, e.as_str());
    push_str(
        &mut m,
        "</i></span>\n\n<big>Possible error reasons:</big>\n&#9679; Not supported nvim version (minimum supported version is <b>",
    );
    push_str(&mut m, MINIMUM_SUPPORTED_NVIM_VERSION);
    push_str(
        &mut m,
        "</b>)\n&#9679; Error in configuration file (init.vim or ginit.vim)\n&#9679; Wrong nvim binary path (right path can be passed with <i>--nvim-bin-path=path_here</i>)",
    );
    m
}


/// Escaped text holds no `<`, `>` or `"` of its own: only entities stand for them.
pub proof fn law_escaped_has_no_markup(s: Seq<char>)
    ensures
        forall|i: int| 0 <= i < html_escaped(s).len() ==> {
            let c = #[trigger] html_escaped(s)[i];
            c != '<' && c != '>' && c != '"'
        },
    decreases s.len(),
{
    if s.len() > 0 {
        law_escaped_has_no_markup(s.drop_last());
        let p = html_escaped(s.drop_last());
        let e = char_entity(s.last());
        reveal_strlit("&quot;");
        reveal_strlit("&amp;");
        reveal_strlit("&#x27;");
        reveal_strlit("&lt;");
        reveal_strlit("&gt;");
        assert forall|i: int| 0 <= i < (p + e).len() implies {
            let c = #[trigger] (p + e)[i];
            c != '<' && c != '>' && c != '"'
        } by {
            if i >= p.len() {
                assert((p + e)[i] == e[i - p.len()]);
            } else {
                assert((p + e)[i] == p[i]);
            }
        }
    }
}

} // verus!
