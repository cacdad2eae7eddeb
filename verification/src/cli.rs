//! The command line: its definition, and what a given command line asks
//! for. Parsing is clap's; what the parsed command line means is decided
//! here.

use vstd::prelude::*;
use crate::text::{same_text, texts};

verus! {

/// clap's description of a command line. Of its inside, its name, its
/// arguments (identifier, long name, whether a flag) and its subcommands
/// have names here.
#[verifier::external_type_specification]
#[verifier::external_body]
pub struct ExCommand(clap::Command);

/// clap's description of one argument. Of its inside, its identifier,
/// its long name and whether it is a flag have names here.
#[verifier::external_type_specification]
#[verifier::external_body]
pub struct ExArg(clap::Arg);

/// What clap found on a command line. Of its inside, the flags and the
/// subcommand have names here.
#[verifier::external_type_specification]
#[verifier::external_body]
pub struct ExArgMatches(clap::ArgMatches);

/// What a command line asks for.
#[derive(Clone, Copy, Debug, PartialEq, Eq, Structural)]
pub enum Invocation {
    /// Remove the cache file, and nothing else.
    Clean,
    /// Fetch what is missing from the registry, compile the declarations
    /// and publish the result. With `clean`, the cache is emptied first;
    /// with `verify_only`, nothing is written.
    Publish { clean: bool, verify_only: bool },
    /// Fetch the site's images anew.
    UpdateImages,
}

/// Why a command line gave no invocation.
#[derive(Debug, PartialEq, Eq)]
pub enum CliError {
    /// clap turned the command line down, or answered it itself (help).
    /// `message` is what to show, `exit_code` how to end.
    Rejected { message: String, exit_code: i32 },
    /// The command line names no subcommand.
    MissingSubcommand,
    /// The command line names a subcommand that has no meaning here.
    UnknownSubcommand { name: String },
}

/// The name of the subcommand that removes the cache file, and of the
/// flag that empties the cache before a run.
pub const CLEAN: &'static str = "clean";

/// The name of the subcommand that fetches, compiles and publishes.
pub const FETCH: &'static str = "fetch";

/// The name of the subcommand that fetches the images.
pub const UPDATE_IMAGES: &'static str = "update-images";

/// The name of the flag that keeps a run from writing.
pub const VERIFY_ONLY: &'static str = "verify-only";

/// What the findings of the parser mean. The subcommand decides; the flags
/// count for `fetch` alone, and a flag that was not found counts as not
/// given. Without a subcommand, or with another one, there is no
/// invocation.
pub open spec fn invocation_for(
    clean: Option<bool>,
    verify_only: Option<bool>,
    subcommand: Option<Seq<char>>,
) -> Option<Invocation> {
    match subcommand {
        None => None,
        Some(name) => if name == CLEAN@ {
            Some(Invocation::Clean)
        } else if name == FETCH@ {
            Some(
                Invocation::Publish {
                    clean: clean == Some(true),
                    verify_only: verify_only == Some(true),
                },
            )
        } else if name == UPDATE_IMAGES@ {
            Some(Invocation::UpdateImages)
        } else {
            None
        },
    }
}

/// The name of a command, as `clap::Command::get_name` gives it.
pub uninterp spec fn command_name(command: clap::Command) -> Seq<char>;

/// The identifiers of the arguments that a command has been given, in the
/// order in which they were added: those of
/// `clap::Command::get_arguments`, each by `clap::Arg::get_id`.
pub uninterp spec fn command_args(command: clap::Command) -> Seq<Seq<char>>;

/// The long names of the arguments that a command has been given, in the
/// order in which the arguments were added: for each argument of
/// `clap::Command::get_arguments` what [`arg_long_name`] is of it.
pub uninterp spec fn command_longs(command: clap::Command) -> Seq<Seq<Seq<char>>>;

/// For each argument that a command has been given, in the order in which
/// the arguments were added, whether it is a flag that takes no value:
/// what [`arg_sets_true`] is of it.
pub uninterp spec fn command_sets_true(command: clap::Command) -> Seq<bool>;

/// The names of the subcommands that a command has been given, in the
/// order in which they were added: those of
/// `clap::Command::get_subcommands`.
pub uninterp spec fn command_subcommands(command: clap::Command) -> Seq<Seq<char>>;

/// Whether a command line under this command has to name a subcommand:
/// what `clap::Command::is_subcommand_required_set` gives.
pub uninterp spec fn command_requires_subcommand(command: clap::Command) -> bool;

/// Whether a command line without any argument is answered with the help:
/// what `clap::Command::is_arg_required_else_help_set` gives.
pub uninterp spec fn command_helps_when_bare(command: clap::Command) -> bool;

/// The identifier of an argument, as `clap::Arg::get_id` gives it.
pub uninterp spec fn arg_id(arg: clap::Arg) -> Seq<char>;

/// The long name of an argument, as `clap::Arg::get_long` gives it: no
/// name or one.
pub uninterp spec fn arg_long_name(arg: clap::Arg) -> Seq<Seq<char>>;

/// Whether an argument is a flag that takes no value and counts as given
/// or not given: whether `clap::Arg::get_action` is `ArgAction::SetTrue`.
pub uninterp spec fn arg_sets_true(arg: clap::Arg) -> bool;

/// The flags that the findings hold, by identifier: each identifier for
/// which `clap::ArgMatches::try_get_one::<bool>` hands out a value, with
/// that value.
pub uninterp spec fn flags_found(matches: clap::ArgMatches) -> Map<Seq<char>, bool>;

/// The subcommand that the findings hold, as
/// `clap::ArgMatches::subcommand_name` gives it: no name or one.
pub uninterp spec fn subcommands_found(matches: clap::ArgMatches) -> Seq<Seq<char>>;

/// What the parser found on a command line.
pub ghost struct Findings {
    /// The flags found, by identifier.
    pub flags: Map<Seq<char>, bool>,
    /// The subcommand found: no name or one.
    pub subcommands: Seq<Seq<char>>,
}

/// How a parse ends.
pub ghost enum Parsed {
    /// The parser accepts the command line, with these findings.
    Accepted(Findings),
    /// The parser turns the command line down, or answers it itself. The
    /// exit code is that of `clap::Error::exit_code`.
    Rejected { exit_code: i32 },
}

/// What `clap::Command::try_get_matches_from` makes of a command line
/// under a definition.
pub uninterp spec fn parse_of(command: clap::Command, args: Seq<Seq<char>>) -> Parsed;

/// `clap::Command::new`: a command of the given name, without arguments
/// and without subcommands, which requires no subcommand and does not
/// answer a bare command line with the help.
#[verifier::external_body]
fn command_new(name: &'static str) -> (command: clap::Command)
    ensures
        command_name(command) == name@,
        command_args(command) == Seq::<Seq<char>>::empty(),
        command_longs(command) == Seq::<Seq<Seq<char>>>::empty(),
        command_sets_true(command) == Seq::<bool>::empty(),
        command_subcommands(command) == Seq::<Seq<char>>::empty(),
        !command_requires_subcommand(command),
        !command_helps_when_bare(command),
{
    clap::Command::new(name)
}

/// `clap::Command::about`: the same command with a description for its
/// help. Its name, its arguments, its subcommands and its settings stay.
#[verifier::external_body]
fn command_about(command: clap::Command, about: &'static str) -> (described: clap::Command)
    ensures
        command_name(described) == command_name(command),
        command_args(described) == command_args(command),
        command_longs(described) == command_longs(command),
        command_sets_true(described) == command_sets_true(command),
        command_subcommands(described) == command_subcommands(command),
        command_requires_subcommand(described) == command_requires_subcommand(command),
        command_helps_when_bare(described) == command_helps_when_bare(command),
{
    command.about(about)
}

/// `clap::Command::subcommand_required`: the same command, which requires
/// a subcommand or not, as `yes` says. Everything else stays.
#[verifier::external_body]
fn command_subcommand_required(command: clap::Command, yes: bool) -> (set: clap::Command)
    ensures
        command_name(set) == command_name(command),
        command_args(set) == command_args(command),
        command_longs(set) == command_longs(command),
        command_sets_true(set) == command_sets_true(command),
        command_subcommands(set) == command_subcommands(command),
        command_requires_subcommand(set) == yes,
        command_helps_when_bare(set) == command_helps_when_bare(command),
{
    command.subcommand_required(yes)
}

/// `clap::Command::arg_required_else_help`: the same command, which
/// answers a command line without any argument with the help or not, as
/// `yes` says. Everything else stays.
#[verifier::external_body]
fn command_arg_required_else_help(command: clap::Command, yes: bool) -> (set: clap::Command)
    ensures
        command_name(set) == command_name(command),
        command_args(set) == command_args(command),
        command_longs(set) == command_longs(command),
        command_sets_true(set) == command_sets_true(command),
        command_subcommands(set) == command_subcommands(command),
        command_requires_subcommand(set) == command_requires_subcommand(command),
        command_helps_when_bare(set) == yes,
{
    command.arg_required_else_help(yes)
}

/// `clap::Command::arg`: the same command with `arg` added behind its
/// arguments. Its name, its subcommands and its settings stay.
#[verifier::external_body]
fn command_arg(command: clap::Command, arg: clap::Arg) -> (extended: clap::Command)
    ensures
        command_name(extended) == command_name(command),
        command_args(extended) == command_args(command).push(arg_id(arg)),
        command_longs(extended) == command_longs(command).push(arg_long_name(arg)),
        command_sets_true(extended) == command_sets_true(command).push(arg_sets_true(arg)),
        command_subcommands(extended) == command_subcommands(command),
        command_requires_subcommand(extended) == command_requires_subcommand(command),
        command_helps_when_bare(extended) == command_helps_when_bare(command),
{
    command.arg(arg)
}

/// `clap::Command::subcommand`: the same command with `subcommand` added
/// behind its subcommands. Its name, its arguments and its settings stay.
/// The subcommand is to be a bare one, without arguments and subcommands
/// of its own and with the settings of a new command: of a subcommand
/// only the name is kept track of.
#[verifier::external_body]
fn command_subcommand(command: clap::Command, subcommand: clap::Command) -> (extended:
    clap::Command)
    requires
        command_args(subcommand).len() == 0,
        command_subcommands(subcommand).len() == 0,
        !command_requires_subcommand(subcommand),
        !command_helps_when_bare(subcommand),
    ensures
        command_name(extended) == command_name(command),
        command_args(extended) == command_args(command),
        command_longs(extended) == command_longs(command),
        command_sets_true(extended) == command_sets_true(command),
        command_subcommands(extended) == command_subcommands(command).push(
            command_name(subcommand),
        ),
        command_requires_subcommand(extended) == command_requires_subcommand(command),
        command_helps_when_bare(extended) == command_helps_when_bare(command),
{
    command.subcommand(subcommand)
}

/// `clap::Arg::new`: an argument with the given identifier, without a
/// long name, and one that takes a value.
#[verifier::external_body]
fn arg_new(id: &'static str) -> (arg: clap::Arg)
    ensures
        arg_id(arg) == id@,
        arg_long_name(arg) == Seq::<Seq<char>>::empty(),
        !arg_sets_true(arg),
{
    clap::Arg::new(id)
}

/// `clap::Arg::long`: the same argument, given as `--` and `name`. Its
/// identifier and its action stay.
#[verifier::external_body]
fn arg_long(arg: clap::Arg, name: &'static str) -> (named: clap::Arg)
    ensures
        arg_id(named) == arg_id(arg),
        arg_long_name(named) == seq![name@],
        arg_sets_true(named) == arg_sets_true(arg),
{
    arg.long(name)
}

/// `clap::Arg::help`: the same argument with a description for the help.
/// Its identifier, its long name and its action stay.
#[verifier::external_body]
fn arg_help(arg: clap::Arg, help: &'static str) -> (described: clap::Arg)
    ensures
        arg_id(described) == arg_id(arg),
        arg_long_name(described) == arg_long_name(arg),
        arg_sets_true(described) == arg_sets_true(arg),
{
    arg.help(help)
}

/// `clap::Arg::action` with `ArgAction::SetTrue`: the same argument as a
/// flag that takes no value. Its identifier and its long name stay.
#[verifier::external_body]
fn arg_set_true(arg: clap::Arg) -> (flag: clap::Arg)
    ensures
        arg_id(flag) == arg_id(arg),
        arg_long_name(flag) == arg_long_name(arg),
        arg_sets_true(flag),
{
    arg.action(clap::ArgAction::SetTrue)
}

/// `clap::Command::try_get_matches_from`: parses `args`, the program's
/// name first, under the definition `command`. The outcome is named, not
/// described: findings where clap accepts the command line, and a
/// rejection, with clap's message and exit code, where it turns the
/// command line down or answers it itself.
///
/// In debug builds clap panics on a definition that contradicts itself:
/// two arguments with one identifier or one long name, two subcommands
/// with one name. So the definition is to be one as [`cli`] makes it,
/// which has none of these.
#[verifier::external_body]
fn command_try_get_matches_from(command: clap::Command, args: &Vec<String>) -> (r: Result<
    clap::ArgMatches,
    CliError,
>)
    requires
        is_cli(command),
    ensures
        match r {
            Ok(matches) => parse_of(command, texts(args@)) == Parsed::Accepted(
                Findings { flags: flags_found(matches), subcommands: subcommands_found(matches) },
            ),
            Err(e) => e matches CliError::Rejected { exit_code, .. } && parse_of(
                command,
                texts(args@),
            ) == (Parsed::Rejected { exit_code }),
        },
{
    match command.try_get_matches_from(args) {
        Ok(matches) => Ok(matches),
        Err(e) => Err(CliError::Rejected { message: e.to_string(), exit_code: e.exit_code() }),
    }
}

/// `clap::ArgMatches::try_get_one` for a flag: whether the flag was given,
/// or nothing where the findings hold no flag of that identifier.
#[verifier::external_body]
fn matches_flag(matches: &clap::ArgMatches, id: &str) -> (found: Option<bool>)
    ensures
        found == if flags_found(*matches).contains_key(id@) {
            Some(flags_found(*matches)[id@])
        } else {
            None
        },
{
    matches.try_get_one::<bool>(id).ok().flatten().copied()
}

/// `clap::ArgMatches::subcommand_name`: the name of the subcommand on the
/// command line, if there is one.
#[verifier::external_body]
fn matches_subcommand_name(matches: &clap::ArgMatches) -> (found: Option<String>)
    ensures
        match found {
            Some(name) => subcommands_found(*matches) == seq![name@],
            None => subcommands_found(*matches).len() == 0,
        },
{
    matches.subcommand_name().map(|name| name.to_owned())
}

/// A flag: an argument that is found under its name, is given as `--` and
/// its name, and takes no value.
fn flag(name: &'static str, help: &'static str) -> (arg: clap::Arg)
    ensures
        arg_id(arg) == name@,
        arg_long_name(arg) == seq![name@],
        arg_sets_true(arg),
{
    arg_help(arg_set_true(arg_long(arg_new(name), name)), help)
}

/// The name of the program in its help.
pub const PROGRAM: &'static str = "AreWeGuiYet CLI";

/// A definition of the command line as [`cli`] makes it. It goes by the
/// program's name. Its subcommands are `clean`, `fetch` and
/// `update-images`; one of them has to be named, and a command line
/// without any argument is answered with the help. Its arguments are the
/// two flags `clean` and `verify-only`, each given as `--` and its name
/// and taking no value.
pub open spec fn is_cli(command: clap::Command) -> bool {
    &&& command_name(command) == PROGRAM@
    &&& command_requires_subcommand(command)
    &&& command_helps_when_bare(command)
    &&& command_subcommands(command) == seq![CLEAN@, FETCH@, UPDATE_IMAGES@]
    &&& command_args(command) == seq![CLEAN@, VERIFY_ONLY@]
    &&& command_longs(command) == seq![seq![CLEAN@], seq![VERIFY_ONLY@]]
    &&& command_sets_true(command) == seq![true, true]
}

fn subcommand(name: &'static str, about: &'static str) -> (command: clap::Command)
    ensures
        command_name(command) == name@,
        command_args(command).len() == 0,
        command_subcommands(command).len() == 0,
        !command_requires_subcommand(command),
        !command_helps_when_bare(command),
{
    command_about(command_new(name), about)
}

/// The definition of the command line: the subcommands `clean`, `fetch`
/// and `update-images`, of which one is required, and the flags `--clean`
/// and `--verify-only`, which stand before the subcommand and count for
/// `fetch`.
pub fn cli() -> (command: clap::Command)
    ensures
        is_cli(command),
{
    let command = command_new(PROGRAM);
    let command = command_subcommand_required(command, true);
    let command = command_arg_required_else_help(command, true);
    let command = command_about(
        command,
        "CLI for fetching data from various sources for the AreWeGuiYet website",
    );
    let command = command_subcommand(command, subcommand(CLEAN, "Remove the data"));
    let command = command_subcommand(command, subcommand(FETCH, "Fetch new data"));
    let command = command_subcommand(
        command,
        subcommand(UPDATE_IMAGES, "Update Rust images from the rust-lang.org repository"),
    );
    let command = command_arg(
        command,
        flag(CLEAN, "Remove the data fetched earlier before fetching"),
    );
    let command = command_arg(
        command,
        flag(VERIFY_ONLY, "Check the declarations without writing any output"),
    );
    assert(command_subcommands(command) =~= seq![CLEAN@, FETCH@, UPDATE_IMAGES@]);
    assert(command_args(command) =~= seq![CLEAN@, VERIFY_ONLY@]);
    assert(command_longs(command) =~= seq![seq![CLEAN@], seq![VERIFY_ONLY@]]);
    assert(command_sets_true(command) =~= seq![true, true]);
    command
}

/// Whether a flag is among the findings, and if so, whether it was given.
pub open spec fn found_flag(findings: Findings, id: Seq<char>) -> Option<bool> {
    if findings.flags.contains_key(id) {
        Some(findings.flags[id])
    } else {
        None
    }
}

/// The subcommand among the findings, if there is one.
pub open spec fn found_subcommand(findings: Findings) -> Option<Seq<char>> {
    if findings.subcommands.len() == 0 {
        None
    } else {
        Some(findings.subcommands[0])
    }
}

/// `r` is how a parsed command line reads. A command line that the parser
/// turned down or answered itself is a rejection with the parser's exit
/// code. Otherwise the subcommand and the flags `clean` and `verify-only`
/// among the findings decide, as [`invocation_for`] says; findings
/// without a subcommand, or with one that has no meaning, are an error
/// that says so.
pub open spec fn reads_as(parsed: Parsed, r: Result<Invocation, CliError>) -> bool {
    match parsed {
        Parsed::Rejected { exit_code } => r matches Err(CliError::Rejected { exit_code: code, .. })
            && code == exit_code,
        Parsed::Accepted(findings) => match invocation_for(
            found_flag(findings, CLEAN@),
            found_flag(findings, VERIFY_ONLY@),
            found_subcommand(findings),
        ) {
            Some(invocation) => r == Ok::<Invocation, CliError>(invocation),
            None => match found_subcommand(findings) {
                Some(found) => r matches Err(CliError::UnknownSubcommand { name }) && name@
                    == found,
                None => r == Err::<Invocation, CliError>(CliError::MissingSubcommand),
            },
        },
    }
}

/// Decides what the findings of the parser ask for: `clean` removes the
/// cache file, `fetch` runs the compilation with the flags that were
/// given, `update-images` fetches the images. No subcommand, or another
/// one, is an error.
pub fn select_invocation(
    clean: Option<bool>,
    verify_only: Option<bool>,
    subcommand: Option<String>,
) -> (r: Result<Invocation, CliError>)
    ensures
        match r {
            Ok(invocation) => invocation_for(
                clean,
                verify_only,
                match subcommand {
                    Some(name) => Some(name@),
                    None => None,
                },
            ) == Some(invocation),
            Err(e) => match subcommand {
                Some(name) => name@ != CLEAN@ && name@ != FETCH@ && name@ != UPDATE_IMAGES@ && e
                    == (CliError::UnknownSubcommand { name }),
                None => e == CliError::MissingSubcommand,
            },
        },
{
    match subcommand {
        None => Err(CliError::MissingSubcommand),
        Some(name) => {
            if same_text(name.as_str(), CLEAN) {
                Ok(Invocation::Clean)
            } else if same_text(name.as_str(), FETCH) {
                Ok(
                    Invocation::Publish {
                        clean: match clean {
                            Some(given) => given,
                            None => false,
                        },
                        verify_only: match verify_only {
                            Some(given) => given,
                            None => false,
                        },
                    },
                )
            } else if same_text(name.as_str(), UPDATE_IMAGES) {
                Ok(Invocation::UpdateImages)
            } else {
                Err(CliError::UnknownSubcommand { name })
            }
        },
    }
}

/// Reads a command line, the program's name first, and says what it asks
/// for. The command line is parsed by clap under a definition as [`cli`]
/// makes it. What clap turns down or answers itself (its help, also for a
/// command line without arguments) is a rejection, with clap's message
/// and exit code. What clap accepts reads as [`invocation_for`] says of
/// the subcommand and the flags found.
pub fn execute_cli(args: &Vec<String>) -> (r: Result<Invocation, CliError>)
    ensures
        exists|command: clap::Command| #[trigger]
            is_cli(command) && reads_as(parse_of(command, texts(args@)), r),
{
    let command = cli();
    let ghost definition = command;
    let matches = match command_try_get_matches_from(command, args) {
        Ok(matches) => matches,
        Err(e) => {
            let r = Err(e);
            assert(is_cli(definition) && reads_as(parse_of(definition, texts(args@)), r));
            return r;
        },
    };
    let clean = matches_flag(&matches, CLEAN);
    let verify_only = matches_flag(&matches, VERIFY_ONLY);
    let subcommand = matches_subcommand_name(&matches);
    let r = select_invocation(clean, verify_only, subcommand);
    assert(is_cli(definition) && reads_as(parse_of(definition, texts(args@)), r));
    r
}

} // verus!
