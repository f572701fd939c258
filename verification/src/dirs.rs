//! Where the application keeps its configuration: paths built from what the
//! environment says (the caller reads the environment).
use vstd::prelude::*;

use crate::text::{push_str, string_from};

verus! {

/// `base` with the relative component `comp` appended, the way a path buffer
/// pushes one: a `/` goes between them unless `base` is empty or already ends
/// with one.
pub open spec fn path_join(base: Seq<char>, comp: Seq<char>) -> Seq<char> {
    if base.len() == 0 || base.last() == '/' {
        base + comp
    } else {
        base + seq!['/'] + comp
    }
}

/// Appends the relative component `comp` to the path `base`.
pub fn push_component(base: &mut String, comp: &str)
    ensures
        final(base)@ == path_join(old(base)@, comp@),
{
    let n = base.as_str().unicode_len();
    let ends_with_sep = n > 0 && base.as_str().get_char(n - 1) == '/';
    if n > 0 && !ends_with_sep {
        push_str(base, "/");
        proof {
            reveal_strlit("/");
        }
    }
    push_str(base, comp);
}

/// The user's configuration directory: `$XDG_CONFIG_HOME` where it is set,
/// else `.config` in the home directory.
pub open spec fn xdg_config_dir(xdg_config_home: Option<Seq<char>>, home_dir: Option<Seq<char>>) -> Option<Seq<char>> {
    match xdg_config_home {
        Some(x) => Some(x),
        None => match home_dir {
            Some(h) => Some(path_join(h, ".config"@)),
            None => None,
        },
    }
}

/// The characters of an optional string.
pub open spec fn opt_str(o: Option<&str>) -> Option<Seq<char>> {
    match o {
        Some(s) => Some(s@),
        None => None,
    }
}

/// The message given when there is no home directory to fall back on.
pub open spec fn no_home_message() -> Seq<char> {
    "Impossible to get your home dir!"@
}

/// The application's configuration directory, `nvim-gtk` in the user's
/// configuration directory. `xdg_config_home` is the value of
/// `XDG_CONFIG_HOME` where it is set, `home_dir` the user's home directory
/// where it is known.
pub fn get_app_config_dir(xdg_config_home: Option<&str>, home_dir: Option<&str>) -> (r: Result<String, String>)
    ensures
        r is Ok <==> xdg_config_dir(opt_str(xdg_config_home), opt_str(home_dir)) is Some,
        r matches Ok(d) ==> d@ == path_join(
            xdg_config_dir(opt_str(xdg_config_home), opt_str(home_dir))->0,
            "nvim-gtk"@,
        ),
        r matches Err(e) ==> e@ == no_home_message(),
{
    let mut dir = match xdg_config_home {
        Some(x) => string_from(x),
        None => match home_dir {
            Some(h) => {
                let mut d = string_from(h);
                push_component(&mut d, ".config");
                d
            },
            None => return Err(string_from("Impossible to get your home dir!")),
        },
    };
    push_component(&mut dir, "nvim-gtk");
    Ok(dir)
}

/// The path of the settings file `file` in the configuration directory
/// `config_dir`, or the error that finding the directory gave.
pub fn settings_file_path(config_dir: &Result<String, String>, file: &str) -> (r: Result<String, String>)
    ensures
        r is Ok <==> config_dir is Ok,
        r matches Ok(p) ==> p@ == path_join(config_dir->Ok_0@, file@),
        r matches Err(e) ==> e@ == config_dir->Err_0@,
{
    match config_dir {
        Ok(d) => {
            let mut p = string_from(d.as_str());
            push_component(&mut p, file);
            Ok(p)
        },
        Err(e) => Err(string_from(e.as_str())),
    }
}

} // verus!
