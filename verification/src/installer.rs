//! The installer's command line and the text it reads from and writes to
//! the auto-start registry value.

use vstd::prelude::*;
use crate::text::{chars_of, concat, owned, str_eq, string_from_chars};

verus! {

/// What the installer was asked to do.
#[derive(Debug, PartialEq, Eq)]
pub enum Subcommand {
    /// Copy the binary into `dir`; register start at login if asked.
    Install { dir: String, auto_start: bool },
    /// Remove the install and the auto-start value.
    Uninstall { dir: String },
    /// Copy the binary into `dir` without touching the registry.
    Portable { dir: String },
    /// Print the usage.
    Help,
}

/// The abstract value of a [`Subcommand`].
pub enum CommandView {
    Install { dir: Seq<char>, auto_start: bool },
    Uninstall { dir: Seq<char> },
    Portable { dir: Seq<char> },
    Help,
}

impl View for Subcommand {
    type V = CommandView;

    open spec fn view(&self) -> CommandView {
        match self {
            Subcommand::Install { dir, auto_start } => CommandView::Install { dir: dir@, auto_start: *auto_start },
            Subcommand::Uninstall { dir } => CommandView::Uninstall { dir: dir@ },
            Subcommand::Portable { dir } => CommandView::Portable { dir: dir@ },
            Subcommand::Help => CommandView::Help,
        }
    }
}

/// The arguments as character sequences.
pub open spec fn arg_views(args: Seq<String>) -> Seq<Seq<char>> {
    args.map_values(|a: String| a@)
}

/// Some argument asks for help.
pub open spec fn wants_help(args: Seq<Seq<char>>) -> bool {
    exists|i: int| 0 <= i < args.len() && (args[i] == "--help"@ || args[i] == "-h"@)
}

/// The flags after the subcommand, read left to right from the given
/// directory and auto-start setting: the directory and setting they leave,
/// or the message of the first error.
pub open spec fn scan_flags(rest: Seq<Seq<char>>, dir: Option<Seq<char>>, auto_start: bool) -> Result<(Option<Seq<char>>, bool), Seq<char>>
    decreases rest.len(),
{
    if rest.len() == 0 {
        Ok((dir, auto_start))
    } else if rest[0] == "--dir"@ {
        if rest.len() < 2 {
            Err("missing value after --dir"@)
        } else {
            scan_flags(rest.subrange(2, rest.len() as int), Some(rest[1]), auto_start)
        }
    } else if rest[0] == "--auto-start"@ {
        scan_flags(rest.drop_first(), dir, true)
    } else if rest[0] == "--no-auto-start"@ {
        scan_flags(rest.drop_first(), dir, false)
    } else {
        Err("unknown flag: "@ + rest[0])
    }
}

/// What the command line asks for, given the default install directory.
pub open spec fn parse_view(args: Seq<Seq<char>>, default_dir: Seq<char>) -> Result<CommandView, Seq<char>> {
    if args.len() == 0 || wants_help(args) {
        Ok(CommandView::Help)
    } else if args[0] != "install"@ && args[0] != "uninstall"@ && args[0] != "portable"@ {
        Err("first argument must be install|uninstall|portable"@)
    } else {
        match scan_flags(args.drop_first(), None, false) {
            Err(m) => Err(m),
            Ok((dir, auto_start)) => {
                let d = match dir {
                    Some(d) => d,
                    None => default_dir,
                };
                if args[0] == "install"@ {
                    Ok(CommandView::Install { dir: d, auto_start })
                } else if args[0] == "portable"@ {
                    Ok(CommandView::Portable { dir: d })
                } else {
                    Ok(CommandView::Uninstall { dir: d })
                }
            },
        }
    }
}

/// The view of a parse result.
pub open spec fn result_view(r: Result<Subcommand, String>) -> Result<CommandView, Seq<char>> {
    match r {
        Ok(c) => Ok(c@),
        Err(m) => Err(m@),
    }
}

/// Parse the installer's arguments (without the program name);
/// `default_dir` is used when no `--dir` is given.
pub fn parse(args: &[String], default_dir: &str) -> (r: Result<Subcommand, String>)
    ensures
        result_view(r) == parse_view(arg_views(args@), default_dir@),
{
    let ghost av = arg_views(args@);
    if args.len() == 0 {
        return Ok(Subcommand::Help);
    }
    let mut k: usize = 0;
    while k < args.len()
        invariant
            av == arg_views(args@),
            k <= args@.len(),
            forall|j: int| 0 <= j < k ==> !(av[j] == "--help"@ || av[j] == "-h"@),
        decreases args@.len() - k,
    {
        if str_eq(args[k].as_str(), "--help") || str_eq(args[k].as_str(), "-h") {
            assert(av[k as int] == args@[k as int]@);
            return Ok(Subcommand::Help);
        }
        assert(av[k as int] == args@[k as int]@);
        k = k + 1;
    }
    assert(!wants_help(av));
    let first = args[0].as_str();
    assert(av[0] == first@);
    let kind: u8 = if str_eq(first, "install") {
        0
    } else if str_eq(first, "uninstall") {
        1
    } else if str_eq(first, "portable") {
        2
    } else {
        return Err(owned("first argument must be install|uninstall|portable"));
    };
    let mut dir: Option<String> = None;
    let mut auto_start = false;
    let mut i: usize = 1;
    assert(av.drop_first() =~= av.subrange(1, av.len() as int));
    while i < args.len()
        invariant
            av == arg_views(args@),
            args@.len() > 0,
            !wants_help(av),
            kind <= 2,
            kind == 0 ==> av[0] == "install"@,
            kind == 1 ==> av[0] == "uninstall"@,
            kind == 2 ==> av[0] == "portable"@,
            1 <= i <= args@.len(),
            scan_flags(av.subrange(i as int, av.len() as int), match dir {
                Some(d) => Some(d@),
                None => None,
            }, auto_start) == scan_flags(av.drop_first(), None, false),
        decreases args@.len() - i,
    {
        let ghost rest = av.subrange(i as int, av.len() as int);
        let a = args[i].as_str();
        assert(rest[0] == a@);
        if str_eq(a, "--dir") {
            if i + 1 >= args.len() {
                return Err(owned("missing value after --dir"));
            }
            assert(rest[1] == args@[i + 1]@);
            assert(rest.subrange(2, rest.len() as int) =~= av.subrange(i + 2, av.len() as int));
            dir = Some(owned(args[i + 1].as_str()));
            i = i + 2;
        } else if str_eq(a, "--auto-start") {
            assert(rest.drop_first() =~= av.subrange(i + 1, av.len() as int));
            auto_start = true;
            i = i + 1;
        } else if str_eq(a, "--no-auto-start") {
            assert(rest.drop_first() =~= av.subrange(i + 1, av.len() as int));
            auto_start = false;
            i = i + 1;
        } else {
            return Err(concat("unknown flag: ", a));
        }
    }
    assert(av.subrange(i as int, av.len() as int) =~= Seq::<Seq<char>>::empty());
    proof {
        reveal_strlit("install");
        reveal_strlit("uninstall");
        reveal_strlit("portable");
        assert("install"@[0] != "portable"@[0]);
        assert("install"@[0] != "uninstall"@[0]);
        assert("portable"@[0] != "uninstall"@[0]);
    }
    let d = match dir {
        Some(d) => d,
        None => owned(default_dir),
    };
    if kind == 0 {
        Ok(Subcommand::Install { dir: d, auto_start })
    } else if kind == 2 {
        Ok(Subcommand::Portable { dir: d })
    } else {
        Ok(Subcommand::Uninstall { dir: d })
    }
}

/// The auto-start command for an installed executable: its path in
/// double quotes.
pub fn quoted_command(path: &str) -> (r: String)
    ensures
        r@ == "\""@ + path@ + "\""@,
{
    let head = concat("\"", path);
    concat(head.as_str(), "\"")
}

/// The text between the first and the second double quote of `cmd` (to
/// the end when there is no second), or `None` without a quote.
pub open spec fn quoted_part(cmd: Seq<char>) -> Option<Seq<char>> {
    let q = crate::seqs::first_index(cmd, |c: char| c == '"');
    if q < 0 {
        None
    } else {
        let rest = cmd.subrange(q + 1, cmd.len() as int);
        let e = crate::seqs::first_index(rest, |c: char| c == '"');
        Some(if e < 0 { rest } else { rest.subrange(0, e) })
    }
}

/// Is a double quote.
pub open spec fn is_quote() -> spec_fn(char) -> bool {
    |c: char| c == '"'
}

fn first_quote(v: &Vec<char>, from: usize) -> (r: usize)
    requires
        from <= v@.len(),
    ensures
        from <= r <= v@.len(),
        r < v@.len() ==> v@[r as int] == '"',
        forall|k: int| from <= k < r ==> v@[k] != '"',
{
    let mut i = from;
    while i < v.len() && v[i] != '"'
        invariant
            from <= i <= v@.len(),
            forall|k: int| from <= k < i ==> v@[k] != '"',
        decreases v@.len() - i,
    {
        i = i + 1;
    }
    i
}

/// The path inside an auto-start command (see [`quoted_part`]).
pub fn run_command_target(cmd: &str) -> (r: Option<String>)
    ensures
        match quoted_part(cmd@) {
            Some(p) => r matches Some(s) && s@ == p,
            None => r is None,
        },
{
    let v = chars_of(cmd);
    let q = first_quote(&v, 0);
    proof {
        crate::seqs::lemma_first_index(cmd@, is_quote());
        if q < v@.len() {
            crate::seqs::lemma_first_index_at(cmd@, is_quote(), q as int);
        } else {
            crate::seqs::lemma_first_index_none(cmd@, is_quote());
        }
    }
    assert(is_quote() == (|c: char| c == '"'));
    if q == v.len() {
        return None;
    }
    let e = first_quote(&v, q + 1);
    let ghost rest = cmd@.subrange(q + 1, cmd@.len() as int);
    proof {
        if e < v@.len() {
            assert(rest[e - q - 1] == v@[e as int]);
            assert forall|k: int| 0 <= k < e - q - 1 implies rest[k] != '"' by {
                assert(rest[k] == v@[q + 1 + k]);
            }
            crate::seqs::lemma_first_index_at(rest, is_quote(), e - q - 1);
        } else {
            assert forall|k: int| 0 <= k < rest.len() implies !is_quote()(#[trigger] rest[k]) by {
                assert(rest[k] == v@[q + 1 + k]);
            }
            crate::seqs::lemma_first_index_none(rest, is_quote());
        }
    }
    let mut out: Vec<char> = Vec::new();
    let mut j: usize = q + 1;
    while j < e
        invariant
            q + 1 <= j <= e <= v@.len(),
            v@ == cmd@,
            out@ == v@.subrange(q + 1, j as int),
        decreases e - j,
    {
        out.push(v[j]);
        j = j + 1;
        assert(out@ =~= v@.subrange(q + 1, j as int));
    }
    proof {
        if e < v@.len() {
            assert(out@ =~= rest.subrange(0, e - q - 1));
        } else {
            assert(out@ =~= rest);
        }
    }
    Some(string_from_chars(out.as_slice()))
}

/// The path written into the auto-start command is the path read back
/// from it, for any path without a double quote.
pub proof fn lemma_run_key_round_trip(path: Seq<char>)
    requires
        !path.contains('"'),
    ensures
        quoted_part(seq!['"'] + path + seq!['"']) == Some(path),
{
    let cmd = seq!['"'] + path + seq!['"'];
    assert(cmd[0] == '"');
    crate::seqs::lemma_first_index_at(cmd, is_quote(), 0);
    assert(is_quote() == (|c: char| c == '"'));
    let rest = cmd.subrange(1, cmd.len() as int);
    assert(rest =~= path + seq!['"']);
    assert forall|k: int| 0 <= k < path.len() implies !is_quote()(#[trigger] rest[k]) by {
        assert(rest[k] == path[k]);
        if path[k] == '"' {
            assert(path.contains('"'));
        }
    }
    assert(rest[path.len() as int] == '"');
    crate::seqs::lemma_first_index_at(rest, is_quote(), path.len() as int);
    assert(rest.subrange(0, path.len() as int) =~= path);
}

} // verus!
