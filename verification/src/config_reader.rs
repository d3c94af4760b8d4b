//! Reading the run configuration from command line arguments.

use vstd::prelude::*;
use vstd::string::*;
use crate::config::{RunConfig, RunConfigView};
use crate::decimal::{parse_u32, parsed_u32};

verus! {

/// The window width used when no `--width` is given.
pub const DEFAULT_WIDTH: u32 = 640;

/// The window height used when no `--height` is given.
pub const DEFAULT_HEIGHT: u32 = 480;

/// The window width used when the value of `--width` is no number.
pub const FALLBACK_WIDTH: u32 = 1024;

/// The window height used when the value of `--height` is no number.
pub const FALLBACK_HEIGHT: u32 = 768;

/// `token` asks for a window width.
pub open spec fn is_width_flag(token: Seq<char>) -> bool {
    token == "--width"@ || token == "-w"@
}

/// `token` asks for a window height.
pub open spec fn is_height_flag(token: Seq<char>) -> bool {
    token == "--height"@ || token == "-h"@
}

/// `token` names the mod to load.
pub open spec fn is_mod_flag(token: Seq<char>) -> bool {
    token == "--mod"@
}

/// The number that `value` writes, or `fallback` where it writes none.
pub open spec fn number_or(value: Seq<char>, fallback: u32) -> u32 {
    match parsed_u32(value) {
        Some(number) => number,
        None => fallback,
    }
}

/// The configuration of a run that was given no arguments.
pub open spec fn default_config() -> RunConfigView {
    RunConfigView {
        window_width: DEFAULT_WIDTH,
        window_height: DEFAULT_HEIGHT,
        mod_root: "mods/zeroheat"@,
    }
}

/// `token` is one of the flags.
pub open spec fn is_flag(token: Seq<char>) -> bool {
    is_width_flag(token) || is_height_flag(token) || is_mod_flag(token)
}

/// `config` after `flag` was given with `value`: the flag's field is
/// replaced, the others stay.
pub open spec fn with_flag(config: RunConfigView, flag: Seq<char>, value: Seq<char>) -> RunConfigView {
    if is_width_flag(flag) {
        RunConfigView { window_width: number_or(value, FALLBACK_WIDTH), ..config }
    } else if is_height_flag(flag) {
        RunConfigView { window_height: number_or(value, FALLBACK_HEIGHT), ..config }
    } else {
        RunConfigView { mod_root: value, ..config }
    }
}

/// What the tokens from position `at` on make of `config`: each flag takes the
/// token after it as its value. A token that is no flag, and a flag without a
/// value, end the reading with a message.
pub open spec fn read_from(tokens: Seq<Seq<char>>, at: int, config: RunConfigView) -> Result<
    RunConfigView,
    Seq<char>,
>
    decreases tokens.len() - at,
{
    if at < 0 || at >= tokens.len() {
        Ok(config)
    } else if !is_flag(tokens[at]) {
        Err("Unexpected "@ + tokens[at])
    } else if at + 1 >= tokens.len() {
        Err("Unexpected end."@)
    } else {
        read_from(tokens, at + 2, with_flag(config, tokens[at], tokens[at + 1]))
    }
}

/// What a whole command line yields. The first token is the path of the
/// executable and is passed over.
pub open spec fn read_all(tokens: Seq<Seq<char>>) -> Result<RunConfigView, Seq<char>> {
    read_from(tokens, 1, default_config())
}

/// Reading goes on past what was read well: if the tokens from `at` on read
/// well, then with a flag and its value behind them they read as before, and
/// then take the flag.
proof fn lemma_one_more_flag(
    tokens: Seq<Seq<char>>,
    at: int,
    config: RunConfigView,
    flag: Seq<char>,
    value: Seq<char>,
)
    requires
        0 <= at <= tokens.len(),
        is_flag(flag),
        read_from(tokens, at, config) is Ok,
    ensures
        read_from(tokens + seq![flag, value], at, config) == Ok::<RunConfigView, Seq<char>>(
            with_flag(read_from(tokens, at, config)->Ok_0, flag, value),
        ),
    decreases tokens.len() - at,
{
    let longer = tokens + seq![flag, value];
    let end = tokens.len() as int;
    assert(longer[end] == flag);
    assert(longer[end + 1] == value);
    if at < tokens.len() {
        assert(longer[at] == tokens[at]);
        assert(longer[at + 1] == tokens[at + 1]);
        lemma_one_more_flag(
            tokens,
            at + 2,
            with_flag(config, tokens[at], tokens[at + 1]),
            flag,
            value,
        );
    } else {
        assert(read_from(longer, at + 2, with_flag(config, flag, value)) == Ok::<
            RunConfigView,
            Seq<char>,
        >(with_flag(config, flag, value)));
    }
}

/// A later flag wins. If a command line reads well, then with one more flag
/// and its value at the end it reads well too, and yields what it yielded
/// before but for the field of that flag, which has the new value whatever
/// was given for it earlier.
pub proof fn later_flag_wins(tokens: Seq<Seq<char>>, flag: Seq<char>, value: Seq<char>)
    requires
        tokens.len() >= 1,
        is_flag(flag),
        read_all(tokens) is Ok,
    ensures
        read_all(tokens + seq![flag, value]) == Ok::<RunConfigView, Seq<char>>(
            with_flag(read_all(tokens)->Ok_0, flag, value),
        ),
{
    lemma_one_more_flag(tokens, 1, default_config(), flag, value);
}

/// Tells whether two strings hold the same text.
fn same_text(left: &str, right: &str) -> (same: bool)
    ensures
        same == (left@ == right@),
{
    left.to_owned() == right.to_owned()
}

/// Reader of the run configuration from command line arguments.
pub struct CmdLineConfigReader {
    args: Vec<String>,
}

impl CmdLineConfigReader {
    /// The arguments as plain text, one token each.
    pub closed spec fn tokens(&self) -> Seq<Seq<char>> {
        self.args@.map_values(|arg: String| arg@)
    }

    /// A reader of `args`, the first of which is the path of the executable.
    pub fn new(args: Vec<String>) -> (reader: CmdLineConfigReader)
        ensures
            reader.tokens() == args@.map_values(|arg: String| arg@),
    {
        CmdLineConfigReader { args }
    }

    /// Reads the arguments into a run configuration, or says what is wrong
    /// with them.
    pub fn read(&self) -> (res: Result<RunConfig, String>)
        ensures
            match res {
                Ok(config) => read_all(self.tokens()) == Ok::<RunConfigView, Seq<char>>(config@),
                Err(message) => read_all(self.tokens()) == Err::<RunConfigView, Seq<char>>(message@),
            },
    {
        let mut window_width: u32 = DEFAULT_WIDTH;
        let mut window_height: u32 = DEFAULT_HEIGHT;
        let mut mod_root: String = "mods/zeroheat".to_owned();
        let mut i: usize = 1;
        while i < self.args.len()
            invariant
                1 <= i,
                read_all(self.tokens()) == read_from(
                    self.tokens(),
                    i as int,
                    RunConfigView { window_width, window_height, mod_root: mod_root@ },
                ),
            decreases self.args.len() - i,
        {
            let flag = self.args[i].as_str();
            assert(flag@ == self.tokens()[i as int]);
            let width = same_text(flag, "--width") || same_text(flag, "-w");
            let height = same_text(flag, "--height") || same_text(flag, "-h");
            let module = same_text(flag, "--mod");
            if !width && !height && !module {
                return Err("Unexpected ".to_owned().concat(flag));
            }
            if i + 1 >= self.args.len() {
                return Err("Unexpected end.".to_owned());
            }
            let value = self.args[i + 1].as_str();
            assert(value@ == self.tokens()[i + 1]);
            if width {
                window_width = match parse_u32(value) {
                    Some(number) => number,
                    None => FALLBACK_WIDTH,
                };
            } else if height {
                window_height = match parse_u32(value) {
                    Some(number) => number,
                    None => FALLBACK_HEIGHT,
                };
            } else {
                mod_root = value.to_owned();
            }
            i = i + 2;
        }
        Ok(RunConfig { window_width, window_height, mod_root })
    }
}

} // verus!
