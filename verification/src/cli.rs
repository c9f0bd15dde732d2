//! The relay's command line.

use vstd::prelude::*;
use crate::text::{str_eq, starts_with};

verus! {

/// What the command line asks for.
pub enum Command {
    /// Print a commented default configuration and exit.
    GenConfig,
    /// Run the relay with the configuration file at `config_path`.
    Run { config_path: String },
}

/// The configuration file read when the command line names none.
pub open spec fn default_config_path() -> Seq<char> {
    "umbra-relay.toml"@
}

/// An argument that starts with `--` is an option, not a path.
pub open spec fn is_option(arg: Seq<char>) -> bool {
    arg.len() >= 2 && arg.subrange(0, 2) == "--"@
}

/// The index of the first argument at or after `i` that is not an option.
pub open spec fn first_non_option_from(args: Seq<Seq<char>>, i: int) -> Option<int>
    decreases args.len() - i,
{
    if i < 0 || i >= args.len() {
        None
    } else if !is_option(args[i]) {
        Some(i)
    } else {
        first_non_option_from(args, i + 1)
    }
}

/// The configuration path: the first argument after the program's name that
/// is not an option, or the default path.
pub open spec fn config_path_spec(args: Seq<Seq<char>>) -> Seq<char> {
    match first_non_option_from(args, 1) {
        Some(i) => args[i],
        None => default_config_path(),
    }
}

/// Whether any argument is `--gen-config`.
pub open spec fn asks_gen_config(args: Seq<Seq<char>>) -> bool {
    exists|i: int| 0 <= i < args.len() && #[trigger] args[i] == "--gen-config"@
}

/// The views of the arguments.
pub open spec fn args_view(args: Seq<String>) -> Seq<Seq<char>> {
    args.map_values(|a: String| a@)
}

/// Reads the command line (`args[0]` is the program's name): `--gen-config`
/// anywhere asks for the default configuration; otherwise the relay runs
/// with the first non-option argument after the program's name as its
/// configuration path, or `umbra-relay.toml`.
pub fn parse_args(args: &Vec<String>) -> (r: Command)
    ensures
        asks_gen_config(args_view(args@)) <==> r is GenConfig,
        r matches Command::Run { config_path } ==> config_path@ == config_path_spec(
            args_view(args@),
        ),
{
    let ghost view = args_view(args@);
    let mut i: usize = 0;
    while i < args.len()
        invariant
            view == args_view(args@),
            i <= args@.len(),
            forall|j: int| 0 <= j < i ==> view[j] != "--gen-config"@,
        decreases args@.len() - i,
    {
        if str_eq(args[i].as_str(), "--gen-config") {
            assert(view[i as int] == "--gen-config"@);
            return Command::GenConfig;
        }
        i = i + 1;
    }
    let mut k: usize = 1;
    while k < args.len()
        invariant
            view == args_view(args@),
            1 <= k,
            first_non_option_from(view, 1) == first_non_option_from(view, k as int),
            !asks_gen_config(view),
        decreases args@.len() - k,
    {
        proof {
            reveal_strlit("--");
        }
        assert(view[k as int] == args@[k as int]@);
        if !starts_with(args[k].as_str(), "--") {
            return Command::Run { config_path: args[k].clone() };
        }
        k = k + 1;
    }
    Command::Run { config_path: "umbra-relay.toml".to_string() }
}

} // verus!
