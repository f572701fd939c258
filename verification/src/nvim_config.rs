//! Starting neovim: the error a failed start reports, and the settings file
//! that sources the plugin configuration.
use vstd::prelude::*;

use crate::dirs::{path_join, settings_file_path};
use crate::plug_store::PlugManagerConfigSource;
use crate::misc::{
    escape_filename, escape_replacement, filename_escaping_available, regex_compiles, regex_replace_all,
    special_chars_pattern,
};
use crate::text::{push_str, string_from};

verus! {

/// Why neovim could not be started, and the command that was run, if one was.
#[derive(Debug)]
pub struct NvimInitError {
    source: String,
    cmd: Option<String>,
}

impl NvimInitError {
    /// What went wrong, as a message.
    pub closed spec fn source_text(&self) -> Seq<char> {
        self.source@
    }

    /// The command that was run, as text, if the failure came from running one.
    pub closed spec fn cmd_text(&self) -> Option<Seq<char>> {
        match self.cmd {
            Some(c) => Some(c@),
            None => None,
        }
    }

    /// A failure after neovim was started: no command is reported.
    pub fn new_post_init(error: &str) -> (e: Self)
        ensures
            e.source_text() == error@,
            e.cmd_text() is None,
    {
        NvimInitError { source: string_from(error), cmd: None }
    }

    /// A failure to run the command `cmd` (given as text).
    pub fn new(cmd: &str, error: &str) -> (e: Self)
        ensures
            e.source_text() == error@,
            e.cmd_text() == Some(cmd@),
    {
        NvimInitError { source: string_from(error), cmd: Some(string_from(cmd)) }
    }

    /// The message of what went wrong.
    pub fn source(&self) -> (s: String)
        ensures
            s@ == self.source_text(),
    {
        string_from(self.source.as_str())
    }

    /// The command that was run, if any.
    pub fn cmd(&self) -> (c: Option<&String>)
        ensures
            c is Some <==> self.cmd_text() is Some,
            c matches Some(t) ==> t@ == self.cmd_text()->0,
    {
        match &self.cmd {
            Some(c) => Some(c),
            None => None,
        }
    }

    /// The short description of this kind of error.
    pub fn description(&self) -> (d: &'static str)
        ensures
            d@ == "Can't start nvim instance"@,
    {
        "Can't start nvim instance"
    }
}

/// What to do with the settings file that neovim sources at start.
pub enum ConfigPlan {
    /// Write the file with this content (nothing is written into it when the
    /// content is empty).
    Write(String),
    /// No plugin configuration: remove the file, if there is one.
    Remove,
}

/// The configuration neovim is started with.
pub struct NvimConfig {
    pub plug_config: Option<PlugManagerConfigSource>,
}

impl NvimConfig {
    pub fn new(plug_config: Option<PlugManagerConfigSource>) -> (c: Self)
        ensures
            c.plug_config == plug_config,
    {
        NvimConfig { plug_config }
    }

    /// The name of the settings file in the configuration directory.
    pub fn config_file_name() -> (n: &'static str)
        ensures
            n@ == "settings.vim"@,
    {
        "settings.vim"
    }

    /// Where the settings file stands (or is to be written) in the
    /// configuration directory `config_dir`, if that directory is known.
    pub fn settings_path(config_dir: &Result<String, String>) -> (p: Option<String>)
        ensures
            p is Some <==> config_dir is Ok,
            p matches Some(path) ==> path@ == path_join(config_dir->Ok_0@, "settings.vim"@),
    {
        match settings_file_path(config_dir, "settings.vim") {
            Ok(p) => Some(p),
            Err(_) => None,
        }
    }

    /// The settings file to source: its path in the configuration directory
    /// `config_dir`, where that directory is known and `is_file` (the caller
    /// looked) says a regular file stands at that path; `None` otherwise.
    pub fn config_path(config_dir: &Result<String, String>, is_file: bool) -> (p: Option<String>)
        ensures
            p is Some <==> config_dir is Ok && is_file,
            p matches Some(path) ==> path@ == path_join(config_dir->Ok_0@, "settings.vim"@),
    {
        if !is_file {
            return None;
        }
        NvimConfig::settings_path(config_dir)
    }

    /// Whether the settings file is to be written, with which content, or removed.
    pub fn generate_plan(&self) -> (plan: ConfigPlan)
        ensures
            self.plug_config is None <==> plan is Remove,
            plan matches ConfigPlan::Write(content) ==> content@ == self.plug_config->0.source@,
    {
        match &self.plug_config {
            Some(c) => ConfigPlan::Write(string_from(c.source.as_str())),
            None => ConfigPlan::Remove,
        }
    }
}


/// The `--cmd` that adds the GUI's runtime directory to neovim's runtime path:
/// `runtime_path` where it is given, else `share/nvim-gtk/runtime` under the
/// installation `prefix` where there is one, else `runtime`.
pub open spec fn runtime_cmd(runtime_path: Option<Seq<char>>, prefix: Option<Seq<char>>) -> Seq<char> {
    match runtime_path {
        Some(p) => "let &rtp.=',"@ + p + "'"@,
        None => match prefix {
            Some(x) => "let &rtp.=',"@ + x + "/share/nvim-gtk/runtime'"@,
            None => "let &rtp.=',runtime'"@,
        },
    }
}

/// The arguments neovim is started with, in order.
pub open spec fn nvim_args_spec(
    runtime_path: Option<Seq<char>>,
    prefix: Option<Seq<char>>,
    config_path: Option<Seq<char>>,
    extra: Seq<Seq<char>>,
) -> Seq<Seq<char>> {
    seq![
        "--embed"@,
        "--cmd"@,
        "set termguicolors"@,
        "--cmd"@,
        "let g:GtkGuiLoaded = 1"@,
        "--cmd"@,
        runtime_cmd(runtime_path, prefix),
    ] + match config_path {
        Some(c) => seq!["--cmd"@, "source "@ + c],
        None => Seq::empty(),
    } + extra
}

pub open spec fn opt_view(o: Option<&str>) -> Option<Seq<char>> {
    match o {
        Some(s) => Some(s@),
        None => None,
    }
}

/// The arguments neovim is started with: embedded, with true colors, with
/// the GUI flag set, its runtime directory added, the settings file sourced
/// where it exists (`config_path`), then the user's `extra` arguments.
pub fn nvim_args(runtime_path: Option<&str>, prefix: Option<&str>, config_path: Option<&str>, extra: Vec<String>) -> (args: Vec<String>)
    ensures
        args@.map_values(|a: String| a@) == nvim_args_spec(
            opt_view(runtime_path),
            opt_view(prefix),
            opt_view(config_path),
            extra@.map_values(|a: String| a@),
        ),
{
    let mut args: Vec<String> = Vec::new();
    args.push(string_from("--embed"));
    args.push(string_from("--cmd"));
    args.push(string_from("set termguicolors"));
    args.push(string_from("--cmd"));
    args.push(string_from("let g:GtkGuiLoaded = 1"));
    args.push(string_from("--cmd"));
    let rtp = match runtime_path {
        Some(p) => {
            let mut c = string_from("let &rtp.=',");
            push_str(&mut c, p);
            push_str(&mut c, "'");
            c
        },
        None => match prefix {
            Some(x) => {
                let mut c = string_from("let &rtp.=',");
                push_str(&mut c, x);
                push_str(&mut c, "/share/nvim-gtk/runtime'");
                c
            },
            None => string_from("let &rtp.=',runtime'"),
        },
    };
    args.push(rtp);
    match config_path {
        Some(c) => {
            args.push(string_from("--cmd"));
            let mut src = string_from("source ");
            push_str(&mut src, c);
            args.push(src);
        },
        None => {},
    }
    let ghost head = args@.map_values(|a: String| a@);
    let mut extra = extra;
    let ghost ex = extra@.map_values(|a: String| a@);
    let mut rest: Vec<String> = Vec::new();
    while extra.len() > 0
        invariant
            ex == (extra@ + rest@.reverse()).map_values(|a: String| a@),
            args@.map_values(|a: String| a@) == head,
        decreases extra@.len(),
    {
        let ghost before = extra@;
        let a = extra.pop().unwrap();
        proof {
            assert(before == extra@.push(a));
            assert(rest@.push(a).reverse() =~= seq![a] + rest@.reverse());
            assert(extra@ + rest@.push(a).reverse() =~= before + rest@.reverse());
        }
        rest.push(a);
    }
    proof {
        assert(extra@ + rest@.reverse() =~= rest@.reverse());
    }
    while rest.len() > 0
        invariant
            ex == (args@.skip(head.len() as int) + rest@.reverse()).map_values(|a: String| a@),
            args@.len() >= head.len(),
            args@.take(head.len() as int).map_values(|a: String| a@) == head,
        decreases rest@.len(),
    {
        let ghost before = rest@;
        let a = rest.pop().unwrap();
        proof {
            assert(before == rest@.push(a));
            assert(before.reverse() =~= seq![a] + rest@.reverse());
        }
        let ghost args_before = args@;
        args.push(a);
        proof {
            assert(args@.skip(head.len() as int) =~= args_before.skip(head.len() as int).push(a));
            assert(args@.take(head.len() as int) =~= args_before.take(head.len() as int));
            assert(args@.skip(head.len() as int) + rest@.reverse() =~= args_before.skip(head.len() as int) + before.reverse());
        }
    }
    proof {
        assert(args@ =~= args@.take(head.len() as int) + args@.skip(head.len() as int));
        assert(args@.skip(head.len() as int) + rest@.reverse() =~= args@.skip(head.len() as int));
        assert(args@.map_values(|a: String| a@) =~= args@.take(head.len() as int).map_values(|a: String| a@)
            + args@.skip(head.len() as int).map_values(|a: String| a@));
    }
    args
}

/// The command that opens `paths` as the argument list: `:ar` and each path,
/// escaped, after a space.
pub open spec fn open_command(paths: Seq<Seq<char>>) -> Seq<char>
    decreases paths.len(),
{
    if paths.len() == 0 {
        ":ar"@
    } else {
        open_command(paths.drop_last()) + " "@ + regex_replace_all(special_chars_pattern(), paths.last(), escape_replacement())
    }
}

/// The command that opens the files given at start, where the file-name
/// escaping is available (it always is).
pub fn open_files_command(paths: &Vec<String>) -> (r: Option<String>)
    ensures
        r is Some <==> regex_compiles(special_chars_pattern()),
        r matches Some(c) ==> c@ == open_command(paths@.map_values(|p: String| p@)),
{
    if !filename_escaping_available() {
        return None;
    }
    let mut command = string_from(":ar");
    let mut i: usize = 0;
    let ghost pv = paths@.map_values(|p: String| p@);
    proof {
        assert(pv.take(0) =~= Seq::<Seq<char>>::empty());
    }
    while i < paths.len()
        invariant
            i <= paths@.len(),
            pv == paths@.map_values(|p: String| p@),
            regex_compiles(special_chars_pattern()),
            command@ == open_command(pv.take(i as int)),
        decreases paths@.len() - i,
    {
        let escaped = escape_filename(paths[i].as_str());
        proof {
            assert(pv.take(i + 1).drop_last() =~= pv.take(i as int));
            assert(pv.take(i + 1).last() == paths@[i as int]@);
        }
        push_str(&mut command, " ");
        push_str(&mut command, escaped.as_str());
        i = i + 1;
    }
    proof {
        assert(pv.take(i as int) =~= pv);
    }
    Some(command)
}

} // verus!
