//! The command line: which command it selects, and with how many samples.
//!
//! The first argument after the program's name selects the mode. A sampling
//! run takes its number of samples from the first argument, wherever it
//! stands, that begins with `--times=`; what follows up to the next `=` or
//! the end is read as a decimal number. Without such an argument, or with
//! one that holds no number, the run takes [`DEFAULT_TIMES`] samples.

use crate::decimal::{parse_u64_in, parsed_u64};
use crate::text::{chars_of, field_end, find_field_end, same_text, starts_with};
use vstd::prelude::*;

verus! {

/// Samples per run where the command line asks for no other number.
pub const DEFAULT_TIMES: u64 = 10;

/// The argument that selects a sampling run.
pub const CACHE_MODE: &'static str = "--mode=cache";

/// The argument that selects the reader.
pub const READ_MODE: &'static str = "--mode=read";

/// What an argument that gives the number of samples begins with.
pub const TIMES_OPTION: &'static str = "--times=";

/// First line of the usage text.
pub const USAGE_HEAD: &'static str = "Usage:";

/// Second line of the usage text.
pub const USAGE_FORM: &'static str = "  ./simple --mode=<cache|read> [--times=<seconds>]";

/// Shown before a sampling run.
pub const CACHE_SELECTED: &'static str = "Selected mode: Cache";

/// Shown before the reader.
pub const READ_SELECTED: &'static str = "Selected mode: Read";

/// Shown for a mode that is neither of the two.
pub const INVALID_MODE: &'static str = "Invalid mode. Use cache or read.";

/// What a command line asks for.
#[derive(Clone, Copy, Debug, PartialEq, Eq, Structural)]
pub enum Command {
    /// No mode was given: show the usage text.
    Usage,
    /// The mode is unknown: say so and show the usage text.
    Invalid,
    /// Sample the price `times` times and store the mean.
    Cache { times: u64 },
    /// Show the stored result.
    Read,
}

/// `arg` gives the number of samples: it begins with `--times=`.
pub open spec fn is_times_option(arg: Seq<char>) -> bool {
    TIMES_OPTION@.is_prefix_of(arg)
}

/// The first of `args` that gives the number of samples, if any does.
pub open spec fn first_times_option(args: Seq<Seq<char>>) -> Option<Seq<char>>
    decreases args.len(),
{
    if args.len() == 0 {
        None
    } else if is_times_option(args.first()) {
        Some(args.first())
    } else {
        first_times_option(args.drop_first())
    }
}

/// What `option` holds between `--times=` and the next `=` or its end.
pub open spec fn option_value(option: Seq<char>) -> Seq<char> {
    let from = TIMES_OPTION@.len() as int;
    option.subrange(from, field_end(option, from, '='))
}

/// The number of samples that `args` ask for.
pub open spec fn times_of(args: Seq<Seq<char>>) -> u64 {
    match first_times_option(args) {
        Some(option) => match parsed_u64(option_value(option)) {
            Some(times) => times,
            None => DEFAULT_TIMES,
        },
        None => DEFAULT_TIMES,
    }
}

/// The command that `args` select; `args[0]` is the program's name.
pub open spec fn command_of(args: Seq<Seq<char>>) -> Command {
    if args.len() < 2 {
        Command::Usage
    } else if args[1] == CACHE_MODE@ {
        Command::Cache { times: times_of(args) }
    } else if args[1] == READ_MODE@ {
        Command::Read
    } else {
        Command::Invalid
    }
}

/// The two lines of the usage text.
pub open spec fn usage_text() -> Seq<Seq<char>> {
    seq![USAGE_HEAD@, USAGE_FORM@]
}

/// What is shown for `command` before it is carried out.
pub open spec fn banner_text(command: Command) -> Seq<Seq<char>> {
    match command {
        Command::Usage => usage_text(),
        Command::Invalid => seq![INVALID_MODE@] + usage_text(),
        Command::Cache { .. } => seq![CACHE_SELECTED@],
        Command::Read => seq![READ_SELECTED@],
    }
}

/// The number of samples that the command line asks for: the number in the
/// first argument that begins with `--times=`, and [`DEFAULT_TIMES`] where
/// there is no such argument or it holds no number that fits in a `u64`.
pub fn times_from_args(args: &[String]) -> (times: u64)
    ensures
        times == times_of(args.deep_view()),
{
    let marker = chars_of(TIMES_OPTION);
    let ghost all = args.deep_view();
    let mut i: usize = 0;
    assert(all.skip(0) =~= all);
    while i < args.len()
        invariant
            i <= args@.len(),
            all == args.deep_view(),
            marker@ == TIMES_OPTION@,
            first_times_option(all) == first_times_option(all.skip(i as int)),
        decreases args.len() - i,
    {
        let arg = chars_of(args[i].as_str());
        assert(arg@ == all.skip(i as int).first());
        if starts_with(arg.as_slice(), marker.as_slice()) {
            let end = find_field_end(arg.as_slice(), marker.len(), '=');
            return match parse_u64_in(arg.as_slice(), marker.len(), end) {
                Some(times) => times,
                None => DEFAULT_TIMES,
            };
        }
        assert(all.skip(i as int).drop_first() =~= all.skip(i + 1));
        i = i + 1;
    }
    DEFAULT_TIMES
}

/// The command that the command line selects. `args[0]` is the program's
/// name and `args[1]` the mode; the number of samples may stand anywhere.
pub fn dispatch(args: &[String]) -> (command: Command)
    ensures
        command == command_of(args.deep_view()),
{
    if args.len() < 2 {
        return Command::Usage;
    }
    let mode = chars_of(args[1].as_str());
    assert(mode@ == args.deep_view()[1]);
    if same_text(mode.as_slice(), chars_of(CACHE_MODE).as_slice()) {
        Command::Cache { times: times_from_args(args) }
    } else if same_text(mode.as_slice(), chars_of(READ_MODE).as_slice()) {
        Command::Read
    } else {
        Command::Invalid
    }
}

/// The usage text, line by line.
pub fn usage() -> (lines: Vec<String>)
    ensures
        lines.deep_view() == usage_text(),
{
    let mut lines: Vec<String> = Vec::new();
    lines.push(USAGE_HEAD.to_owned());
    lines.push(USAGE_FORM.to_owned());
    assert(lines.deep_view() =~= usage_text());
    lines
}

impl Command {
    /// The lines shown for this command before it is carried out: the mode
    /// that was selected, or why none was, with the usage text.
    pub fn banner(&self) -> (lines: Vec<String>)
        ensures
            lines.deep_view() == banner_text(*self),
    {
        let mut lines: Vec<String> = Vec::new();
        match self {
            Command::Usage => {
                lines.push(USAGE_HEAD.to_owned());
                lines.push(USAGE_FORM.to_owned());
            },
            Command::Invalid => {
                lines.push(INVALID_MODE.to_owned());
                lines.push(USAGE_HEAD.to_owned());
                lines.push(USAGE_FORM.to_owned());
            },
            Command::Cache { .. } => {
                lines.push(CACHE_SELECTED.to_owned());
            },
            Command::Read => {
                lines.push(READ_SELECTED.to_owned());
            },
        }
        assert(lines.deep_view() =~= banner_text(*self));
        lines
    }
}

/// `args[i]` begins with `--times=` and no argument before it does.
pub open spec fn is_first_times_option_at(args: Seq<Seq<char>>, i: int) -> bool {
    &&& 0 <= i < args.len()
    &&& is_times_option(args[i])
    &&& forall|j: int| 0 <= j < i ==> !is_times_option(#[trigger] args[j])
}

/// There is no first argument that begins with `--times=` exactly where no
/// argument begins so.
pub proof fn lemma_times_option_absent(args: Seq<Seq<char>>)
    ensures
        first_times_option(args) is None <==> forall|i: int|
            0 <= i < args.len() ==> !is_times_option(#[trigger] args[i]),
    decreases args.len(),
{
    if args.len() > 0 {
        let rest = args.drop_first();
        lemma_times_option_absent(rest);
        if is_times_option(args.first()) {
            assert(is_times_option(args[0]));
        } else if first_times_option(rest) is None {
            assert forall|i: int| 0 <= i < args.len() implies !is_times_option(
                #[trigger] args[i],
            ) by {
                if i > 0 {
                    assert(rest[i - 1] == args[i]);
                }
            }
        } else {
            let k = choose|k: int| 0 <= k < rest.len() && is_times_option(#[trigger] rest[k]);
            assert(is_times_option(args[k + 1]));
        }
    }
}

/// The argument that begins with `--times=` and that no such argument
/// precedes is the one that counts.
pub proof fn lemma_times_option_found(args: Seq<Seq<char>>, i: int)
    requires
        is_first_times_option_at(args, i),
    ensures
        first_times_option(args) == Some(args[i]),
    decreases args.len(),
{
    if i > 0 {
        let rest = args.drop_first();
        assert(!is_times_option(args[0]));
        assert(rest[i - 1] == args[i]);
        assert forall|j: int| 0 <= j < i - 1 implies !is_times_option(#[trigger] rest[j]) by {
            assert(rest[j] == args[j + 1]);
        }
        lemma_times_option_found(rest, i - 1);
    }
}

/// Where no argument gives the number of samples, or the first that does
/// holds no number that fits in a `u64`, the run takes the default number
/// of samples.
pub proof fn lemma_default_times(args: Seq<Seq<char>>)
    requires
        first_times_option(args) matches Some(option) ==> parsed_u64(option_value(option))
            is None,
    ensures
        times_of(args) == DEFAULT_TIMES,
        args.len() >= 2 && args[1] == CACHE_MODE@ ==> command_of(args) == (Command::Cache {
            times: DEFAULT_TIMES,
        }),
{
}

/// Arguments that come after the first that begins with `--times=` do not
/// change the number of samples.
pub proof fn lemma_later_arguments_ignored(args: Seq<Seq<char>>, more: Seq<Seq<char>>)
    requires
        first_times_option(args) is Some,
    ensures
        first_times_option(args + more) == first_times_option(args),
        times_of(args + more) == times_of(args),
    decreases args.len(),
{
    assert((args + more).first() == args.first());
    if !is_times_option(args.first()) {
        assert((args + more).drop_first() =~= args.drop_first() + more);
        lemma_later_arguments_ignored(args.drop_first(), more);
    }
}

} // verus!
