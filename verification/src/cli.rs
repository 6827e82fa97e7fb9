//! Command-line parsing, done by `clap`.

use clap::{Arg, Command};
use vstd::prelude::*;

verus! {

/// One argument of a command line, as `clap` is told about it.
#[derive(Clone, Copy, Debug)]
pub struct ArgSpec {
    /// The name under which the value is filed.
    pub id: &'static str,
    /// The letter of the short form; none for an argument given by position.
    pub short: Option<char>,
    /// The word of the long form; none for an argument given by position.
    pub long: Option<&'static str>,
    /// The name of the value in the help text.
    pub value_name: &'static str,
    /// The value taken where the argument is left out.
    pub default_value: Option<&'static str>,
    /// What the help text says of the argument.
    pub help: &'static str,
    /// Whether the command line must give it.
    pub required: bool,
}

/// Why a command line gave no options: what to tell the user, on which
/// stream, and the exit code to end with.
#[derive(Debug)]
pub struct CliError {
    /// The text for the user: the complaint, or the help or version asked for.
    pub message: String,
    /// Whether the text belongs on standard error rather than standard output.
    pub use_stderr: bool,
    /// The exit code: 2 for a complaint, 0 for help or version.
    pub exit_code: i32,
}

/// The values that `clap` reads from the command line `argv` (program name
/// first) for the arguments `args` of the program `name`, one for each
/// argument in order, `None` for one that is absent and has no default;
/// `None` as a whole where `clap` reports an error, asked-for help or version
/// included.
pub uninterp spec fn clap_values(
    name: Seq<char>,
    version: Seq<char>,
    about: Seq<char>,
    args: Seq<ArgSpec>,
    argv: Seq<Seq<char>>,
) -> Option<Seq<Option<Seq<char>>>>;

/// Whether `args` are the arguments of this program's own command line.
/// `clap` may panic, in a debug build, on arguments that contradict each
/// other, so it is handed these alone.
pub open spec fn is_own_definition(args: Seq<ArgSpec>) -> bool {
    args == crate::cmd_args::arguments()
}

/// Builds a `clap::Command` of the arguments `args` with `Command::new`,
/// `version`, `about` and `args`, and calls `Command::try_get_matches_from`
/// on `argv`. On success it hands back `ArgMatches::get_one::<String>` for
/// each argument. The contract names these values and claims that they depend
/// on the parameters alone; of an error it says nothing but that `clap`
/// reported one (`Error::render`, `use_stderr` and `exit_code` fill it).
#[verifier::external_body]
pub(crate) fn parse_arguments(
    name: &'static str,
    version: &'static str,
    about: &'static str,
    args: &Vec<ArgSpec>,
    argv: &Vec<String>,
) -> (r: Result<Vec<Option<String>>, CliError>)
    requires
        is_own_definition(args@),
    ensures
        match r {
            Ok(values) => clap_values(name@, version@, about@, args@, argv.deep_view()) == Some(
                values.deep_view(),
            ),
            Err(_) => clap_values(name@, version@, about@, args@, argv.deep_view()) is None,
        },
{
    let list = args.iter().map(|a| {
        Arg::new(a.id).short(a.short).long(a.long).value_name(a.value_name)
            .default_value(a.default_value).help(a.help).required(a.required)
    });
    let command = Command::new(name).version(version).about(about).args(list);
    match command.try_get_matches_from(argv) {
        Ok(found) => Ok(args.iter().map(|a| found.get_one::<String>(a.id).cloned()).collect()),
        Err(e) => Err(CliError {
            message: e.render().to_string(),
            use_stderr: e.use_stderr(),
            exit_code: e.exit_code(),
        }),
    }
}

} // verus!
