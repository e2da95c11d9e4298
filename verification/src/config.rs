//! The command line: the directory to digest, the directories to ignore,
//! the globs of the files to show in full, and whether a tree is drawn.
//!
//! The command line is read by clap. The library describes its arguments to
//! clap one by one, hands the arguments of the program over, and makes the
//! configuration of what clap matched.

use vstd::prelude::*;
use vstd::string::*;
use crate::text::texts;

verus! {

/// What the command line asks for.
#[derive(Debug, Clone)]
pub struct AppConfig {
    /// The path to the directory containing the files.
    pub directory: String,
    /// Additional directories to ignore (optional, zero or more)
    pub ignore: Vec<String>,
    /// Glob patterns of the files whose full content is shown, e.g. `*.md` (optional, zero or more)
    pub includes: Vec<String>,
    /// Print a file tree for each directory (optional, default false)
    pub tree: bool,
}

/// Why the command line gives no configuration.
#[derive(Debug, Clone)]
pub enum ConfigError {
    /// The command line cannot be read; the text is what clap says against
    /// it.
    CliError(String),
    /// The command line asks for the help text or the version; the text is
    /// the one that is asked for.
    DisplayHelpOrVersion(String),
}

/// The model of a configuration.
pub struct AppConfigView {
    pub directory: Seq<char>,
    pub ignore: Seq<Seq<char>>,
    pub includes: Seq<Seq<char>>,
    pub tree: bool,
}

/// The model of the reason why there is no configuration.
pub enum ConfigErrorView {
    CliError(Seq<char>),
    DisplayHelpOrVersion(Seq<char>),
}

impl View for AppConfig {
    type V = AppConfigView;

    open spec fn view(&self) -> AppConfigView {
        AppConfigView {
            directory: self.directory@,
            ignore: texts(self.ignore@),
            includes: texts(self.includes@),
            tree: self.tree,
        }
    }
}

impl View for ConfigError {
    type V = ConfigErrorView;

    open spec fn view(&self) -> ConfigErrorView {
        match self {
            ConfigError::CliError(arg) => ConfigErrorView::CliError(arg@),
            ConfigError::DisplayHelpOrVersion(arg) => ConfigErrorView::DisplayHelpOrVersion(arg@),
        }
    }
}

impl ConfigError {
    /// The message that describes the error to a user.
    pub fn message(&self) -> (text: String)
        ensures
            text@ == match self {
                ConfigError::CliError(arg) => "Failed to parse CLI arguments: "@ + arg@,
                ConfigError::DisplayHelpOrVersion(_) => "Display help or version"@,
            },
    {
        match self {
            ConfigError::CliError(arg) => {
                let mut text = "Failed to parse CLI arguments: ".to_owned();
                text.append(arg.as_str());
                text
            },
            ConfigError::DisplayHelpOrVersion(_) => "Display help or version".to_owned(),
        }
    }
}

/// The model of what reading the command line returns.
pub open spec fn config_result(r: Result<AppConfig, ConfigError>) -> Result<
    AppConfigView,
    ConfigErrorView,
> {
    match r {
        Ok(config) => Ok(config@),
        Err(e) => Err(e@),
    }
}

/// How an argument is given on the command line.
#[derive(Clone, Copy, Debug, PartialEq, Eq, Structural)]
pub enum ArgShape {
    /// By its place: a value that must be given, without a name before it.
    Positional,
    /// By name, with a value, any number of times: behind a dash and the
    /// letter of the argument, or behind two dashes and its name.
    Values,
    /// By name, without a value: it is given or it is not.
    Flag,
}

/// The description of one argument: its name, the letter that stands for
/// it, and how it is given. The letter of a positional argument is not
/// read.
pub struct ArgSpec {
    pub id: Seq<char>,
    pub short: char,
    pub shape: ArgShape,
}

/// What clap makes of a command line.
pub enum Reading {
    /// The command line is matched: the values that were given for each
    /// argument, and the flags that were given.
    Matched { values: Map<Seq<char>, Seq<Seq<char>>>, flags: Set<Seq<char>> },
    /// The command line asks for the help text or the version.
    Display,
    /// The command line is refused.
    Refused,
}

/// A command of clap: the description of a command line.
#[verifier::external_type_specification]
#[verifier::external_body]
pub struct ExCommand(clap::Command);

/// What clap matched on a command line.
#[verifier::external_type_specification]
#[verifier::external_body]
pub struct ExArgMatches(clap::ArgMatches);

/// The arguments that a command of clap holds, in the order in which they
/// were added.
pub uninterp spec fn command_args(command: clap::Command) -> Seq<ArgSpec>;

/// The name and the version that a command of clap was made with.
pub uninterp spec fn command_title(command: clap::Command) -> Seq<Seq<char>>;

/// The values that matches of clap hold, by the name of the argument.
pub uninterp spec fn matched_values(matches: clap::ArgMatches) -> Map<Seq<char>, Seq<Seq<char>>>;

/// The flags that matches of clap hold as given.
pub uninterp spec fn matched_flags(matches: clap::ArgMatches) -> Set<Seq<char>>;

/// What `Command::try_get_matches_from` of clap makes of the arguments of a
/// program, for a command with the given name and version and the given
/// arguments.
pub uninterp spec fn clap_reading(
    title: Seq<Seq<char>>,
    specs: Seq<ArgSpec>,
    args: Seq<Seq<char>>,
) -> Reading;

/// Whether a letter is a small or a capital letter of the alphabet.
pub open spec fn is_letter(c: char) -> bool {
    'a' <= c <= 'z' || 'A' <= c <= 'Z'
}

/// Whether clap can read a command line by these descriptions: every name
/// is made of small letters and is neither `help` nor `version`, which clap
/// adds itself; the letter of every argument that is given by name is a
/// letter other than `h` and `V`; and no two arguments share a name or a
/// letter.
pub open spec fn can_be_read(specs: Seq<ArgSpec>) -> bool {
    &&& forall|i: int|
        0 <= i < specs.len() ==> {
            let spec = #[trigger] specs[i];
            &&& spec.id.len() > 0
            &&& forall|k: int| 0 <= k < spec.id.len() ==> 'a' <= #[trigger] spec.id[k] <= 'z'
            &&& spec.id != "help"@
            &&& spec.id != "version"@
            &&& spec.shape != ArgShape::Positional ==> is_letter(spec.short) && spec.short != 'h'
                && spec.short != 'V'
        }
    &&& forall|i: int, j: int|
        0 <= i < j < specs.len() ==> {
            &&& (#[trigger] specs[i]).id != (#[trigger] specs[j]).id
            &&& specs[i].shape != ArgShape::Positional && specs[j].shape != ArgShape::Positional
                ==> specs[i].short != specs[j].short
        }
}

/// `Command::new` and `Command::version` of clap: a command with a name and
/// a version, and without arguments.
#[verifier::external_body]
fn new_command(name: &'static str, version: &'static str) -> (command: clap::Command)
    ensures
        command_title(command) == seq![name@, version@],
        command_args(command) == Seq::<ArgSpec>::empty(),
{
    clap::Command::new(name).version(version)
}

/// `Command::arg` of clap with an argument made by `Arg::new`: a required
/// value for a positional argument; `Arg::short`, `Arg::long` with the name
/// of the argument and `ArgAction::Append` for values; the same with
/// `ArgAction::SetTrue` for a flag.
#[verifier::external_body]
fn with_arg(command: clap::Command, id: &'static str, short: char, shape: ArgShape) -> (r:
    clap::Command)
    ensures
        command_title(r) == command_title(command),
        command_args(r) == command_args(command).push((ArgSpec { id: id@, short, shape })),
{
    let arg = clap::Arg::new(id);
    command.arg(
        match shape {
            ArgShape::Positional => arg.required(true),
            ArgShape::Values => arg.short(short).long(id).action(clap::ArgAction::Append),
            ArgShape::Flag => arg.short(short).long(id).action(clap::ArgAction::SetTrue),
        },
    )
}

/// `Command::try_get_matches_from` of clap. What it makes of the arguments
/// depends on the command and on the arguments alone. An error of the kinds
/// `DisplayHelp` and `DisplayVersion` asks for a text to be shown, every
/// other error refuses the command line; the text of the error is what its
/// `Display` writes, and nothing is claimed of it.
#[verifier::external_body]
fn try_matches(command: clap::Command, args: &[String]) -> (r: Result<
    clap::ArgMatches,
    ConfigError,
>)
    requires
        can_be_read(command_args(command)),
    ensures
        clap_reading(command_title(command), command_args(command), texts(args@)) == (match r {
            Ok(matches) => Reading::Matched {
                values: matched_values(matches),
                flags: matched_flags(matches),
            },
            Err(ConfigError::DisplayHelpOrVersion(_)) => Reading::Display,
            Err(ConfigError::CliError(_)) => Reading::Refused,
        }),
{
    match command.try_get_matches_from(args) {
        Ok(matches) => Ok(matches),
        Err(e) => match e.kind() {
            clap::error::ErrorKind::DisplayHelp => Err(
                ConfigError::DisplayHelpOrVersion(e.to_string()),
            ),
            clap::error::ErrorKind::DisplayVersion => Err(
                ConfigError::DisplayHelpOrVersion(e.to_string()),
            ),
            _ => Err(ConfigError::CliError(e.to_string())),
        },
    }
}

/// The values that were given for an argument, none where none were given.
pub open spec fn values_for(values: Map<Seq<char>, Seq<Seq<char>>>, id: Seq<char>) -> Seq<
    Seq<char>,
> {
    if values.contains_key(id) {
        values[id]
    } else {
        Seq::empty()
    }
}

/// `ArgMatches::try_get_many` of clap for values that are texts; no values
/// where the matches hold none for the argument.
#[verifier::external_body]
fn values_of(matches: &clap::ArgMatches, id: &str) -> (values: Vec<String>)
    ensures
        texts(values@) == values_for(matched_values(*matches), id@),
{
    match matches.try_get_many::<String>(id) {
        Ok(Some(values)) => values.cloned().collect(),
        _ => Vec::new(),
    }
}

/// `ArgMatches::try_get_one` of clap for a flag; not given where the
/// matches hold no flag of that name.
#[verifier::external_body]
fn flag_of(matches: &clap::ArgMatches, id: &str) -> (given: bool)
    ensures
        given == matched_flags(*matches).contains(id@),
{
    match matches.try_get_one::<bool>(id) {
        Ok(Some(given)) => *given,
        _ => false,
    }
}

/// The name and the version of the program.
pub open spec fn cli_title() -> Seq<Seq<char>> {
    seq!["code-digest"@, "0.1.0"@]
}

/// The arguments of the program: the directory, by its place; the
/// directories to ignore, behind `-i` or `--ignore`; the globs of the files
/// to show in full, behind `-I` or the long name; and the flag `-t` or
/// `--tree` that asks for the tree.
pub open spec fn cli_args() -> Seq<ArgSpec> {
    seq![
        ArgSpec { id: "directory"@, short: 'd', shape: ArgShape::Positional },
        ArgSpec { id: "ignore"@, short: 'i', shape: ArgShape::Values },
        ArgSpec { id: "\x69nclude"@, short: 'I', shape: ArgShape::Values },
        ArgSpec { id: "tree"@, short: 't', shape: ArgShape::Flag },
    ]
}

/// The configuration of the values that were given, where a directory is
/// among them.
pub open spec fn configuration(
    directory: Seq<Seq<char>>,
    ignore: Seq<Seq<char>>,
    includes: Seq<Seq<char>>,
    tree: bool,
) -> Result<AppConfigView, ConfigErrorView> {
    if directory.len() > 0 {
        Ok(AppConfigView { directory: directory[0], ignore, includes, tree })
    } else {
        Err(ConfigErrorView::CliError("the directory is missing"@))
    }
}

/// Whether `result` is the configuration of what clap made of a command
/// line: the configuration of the values and flags that it matched, an
/// error that asks for the help text or the version where clap does, and an
/// error that says that the command line cannot be read where clap refuses
/// it.
pub open spec fn is_configured(
    reading: Reading,
    result: Result<AppConfigView, ConfigErrorView>,
) -> bool {
    match reading {
        Reading::Matched { values, flags } => result == configuration(
            values_for(values, "directory"@),
            values_for(values, "ignore"@),
            values_for(values, "\x69nclude"@),
            flags.contains("tree"@),
        ),
        Reading::Display => result is Err && result->Err_0 is DisplayHelpOrVersion,
        Reading::Refused => result is Err && result->Err_0 is CliError,
    }
}

/// The arguments of the program can be read by clap.
proof fn lemma_cli_can_be_read()
    ensures
        can_be_read(cli_args()),
{
    reveal_strlit("directory");
    reveal_strlit("ignore");
    reveal_strlit("\x69nclude");
    reveal_strlit("tree");
    reveal_strlit("help");
    reveal_strlit("version");
    let specs = cli_args();
    assert("directory"@.len() == 9);
    assert("ignore"@.len() == 6);
    assert("\x69nclude"@.len() == 7);
    assert("tree"@.len() == 4);
    assert("help"@[0] == 'h');
    assert("version"@[0] == 'v');
    assert("tree"@[0] == 't');
    assert("\x69nclude"@[0] == 'i');
    assert forall|i: int| 0 <= i < specs.len() implies {
        let spec = #[trigger] specs[i];
        &&& spec.id.len() > 0
        &&& forall|k: int| 0 <= k < spec.id.len() ==> 'a' <= #[trigger] spec.id[k] <= 'z'
        &&& spec.id != "help"@
        &&& spec.id != "version"@
        &&& spec.shape != ArgShape::Positional ==> is_letter(spec.short) && spec.short != 'h'
            && spec.short != 'V'
    } by {}
}

/// A glob as it is meant: a text that a shell handed on between two single
/// quotes is the text between them.
pub open spec fn unquoted(text: Seq<char>) -> Seq<char> {
    if text.len() >= 2 && text.first() == '\'' && text.last() == '\'' {
        text.subrange(1, text.len() - 1)
    } else {
        text
    }
}

/// Takes a pair of single quotes from around a glob.
pub fn strip_quotes(text: &str) -> (glob: String)
    ensures
        glob@ == unquoted(text@),
{
    let len = text.unicode_len();
    if len >= 2 && text.get_char(0) == '\'' && text.get_char(len - 1) == '\'' {
        text.substring_char(1, len - 1).to_owned()
    } else {
        text.to_owned()
    }
}

impl AppConfig {
    /// The globs of the files to show in full, each without the single
    /// quotes that a shell may have left around it.
    pub fn globs(&self) -> (globs: Vec<String>)
        ensures
            texts(globs@) == self@.includes.map_values(|text: Seq<char>| unquoted(text)),
    {
        let mut globs: Vec<String> = Vec::new();
        let mut i: usize = 0;
        while i < self.includes.len()
            invariant
                0 <= i <= self.includes.len(),
                globs.len() == i,
                forall|k: int| 0 <= k < i ==> (#[trigger] globs[k])@ == unquoted(self.includes[k]@),
            decreases self.includes.len() - i,
        {
            globs.push(strip_quotes(self.includes[i].as_str()));
            i += 1;
        }
        globs
    }

    /// The configuration of the values that were given for the arguments.
    /// Of the values for the directory the first counts; without one there
    /// is no configuration.
    pub fn from_values(
        directory: Vec<String>,
        ignore: Vec<String>,
        includes: Vec<String>,
        tree: bool,
    ) -> (r: Result<AppConfig, ConfigError>)
        ensures
            config_result(r) == configuration(
                texts(directory@),
                texts(ignore@),
                texts(includes@),
                tree,
            ),
    {
        if directory.len() > 0 {
            Ok(AppConfig { directory: directory[0].clone(), ignore, includes, tree })
        } else {
            Err(ConfigError::CliError("the directory is missing".to_owned()))
        }
    }

    /// Reads the command line: the arguments of the program, the first of
    /// which is its name.
    pub fn new(args: &[String]) -> (r: Result<AppConfig, ConfigError>)
        ensures
            is_configured(clap_reading(cli_title(), cli_args(), texts(args@)), config_result(r)),
    {
        let command = new_command("code-digest", "0.1.0");
        let command = with_arg(command, "directory", 'd', ArgShape::Positional);
        let command = with_arg(command, "ignore", 'i', ArgShape::Values);
        let command = with_arg(command, "\x69nclude", 'I', ArgShape::Values);
        let command = with_arg(command, "tree", 't', ArgShape::Flag);
        proof {
            assert(command_args(command) =~= cli_args());
            lemma_cli_can_be_read();
        }
        match try_matches(command, args) {
            Ok(matches) => AppConfig::from_values(
                values_of(&matches, "directory"),
                values_of(&matches, "ignore"),
                values_of(&matches, "\x69nclude"),
                flag_of(&matches, "tree"),
            ),
            Err(e) => Err(e),
        }
    }
}

} // verus!
