//! The command line.

use vstd::prelude::*;

verus! {

/// What the command line says.
#[derive(Clone, Debug, PartialEq, Eq)]
pub struct Cli {
    /// The path of the configuration file.
    pub config: String,
}

/// A command line that does not lead to a run: it is wrong, or asks for help.
#[derive(Clone, Debug, PartialEq, Eq)]
pub struct CliError {
    /// What to tell the user.
    pub message: String,
    /// The exit code: 0 where help was asked for, 2 where the command line is wrong.
    pub exit_code: i32,
}

/// The arguments in `args`.
pub open spec fn arg_views(args: Seq<String>) -> Seq<Seq<char>> {
    args.map_values(|a: String| a@)
}

/// Whether a text is made of lower-case ASCII letters, and has at least one.
pub open spec fn is_lower_word(text: Seq<char>) -> bool {
    text.len() > 0 && forall|i: int|
        0 <= i < text.len() ==> 'a' <= #[trigger] text[i] && text[i] <= 'z'
}

/// The path that a command line gives for its only option, `--long` or `-short`,
/// which stands at `default` where it is not given; or else the exit code, where the
/// command line is wrong or asks for help.
pub uninterp spec fn path_option(
    long: Seq<char>,
    short: char,
    default: Seq<char>,
    args: Seq<Seq<char>>,
) -> Result<Seq<char>, i32>;

/// `clap::Command::try_get_matches_from` for a command whose only argument is an
/// option that takes a path: the path that `args` give for it. The first of `args`
/// is the name of the program. Without further arguments the path is `default`; of
/// the arguments `--long` and a path that does not begin with a hyphen, it is that
/// path; else it is only named, and so is an error's exit code, which is 0 or 2.
/// Help shows the path as `value_name`. Nothing is stated of an error's message: it
/// holds the program's name as the machine's rules for paths part it from its
/// directory.
#[verifier::external_body]
fn clap_path_option(
    program: &'static str,
    about: &'static str,
    long: &'static str,
    short: char,
    value_name: &'static str,
    default: &'static str,
    args: Vec<String>,
) -> (r: Result<String, CliError>)
    requires
        is_lower_word(long@),
        long@ != "help"@,
        long@ != "version"@,
        'a' <= short && short <= 'z',
        short != 'h',
        default@.len() > 0,
    ensures
        match r {
            Ok(path) => path_option(long@, short, default@, arg_views(args@)) == Ok::<_, i32>(path@),
            Err(e) => path_option(long@, short, default@, arg_views(args@)) == Err::<Seq<char>, _>(
                e.exit_code,
            ) && (e.exit_code == 0 || e.exit_code == 2),
        },
        args@.len() <= 1 ==> r is Ok && r->Ok_0@ == default@,
        args@.len() == 3 && args@[1]@ == "--"@ + long@ && args@[2]@.len() > 0 && args@[2]@[0] != '-'
            ==> r is Ok && r->Ok_0@ == args@[2]@,
{
    let parser = clap::builder::ValueParser::path_buf();
    let option = clap::Arg::new(long).long(long).short(short).value_name(value_name);
    let option = option.value_parser(parser).default_value(default);
    let command = clap::Command::new(program).about(about).arg(option);
    match command.try_get_matches_from(args) {
        Ok(found) => match found.get_one::<std::path::PathBuf>(long) {
            Some(path) => Ok(path.to_string_lossy().into_owned()),
            None => Ok(default.to_string()),
        },
        Err(e) => Err(CliError { message: e.render().to_string(), exit_code: e.exit_code() }),
    }
}

impl Cli {
    /// Reads a command line, the first argument of which is the program's name.
    pub fn try_parse_from(args: Vec<String>) -> (r: Result<Cli, CliError>)
        ensures
            match r {
                Ok(cli) => path_option("config"@, 'c', "config.yaml"@, arg_views(args@)) == Ok::<
                    _,
                    i32,
                >(cli.config@),
                Err(e) => path_option("config"@, 'c', "config.yaml"@, arg_views(args@)) == Err::<
                    Seq<char>,
                    _,
                >(e.exit_code) && (e.exit_code == 0 || e.exit_code == 2),
            },
            args@.len() <= 1 ==> r is Ok && r->Ok_0.config@ == "config.yaml"@,
            args@.len() == 3 && args@[1]@ == "--config"@ && args@[2]@.len() > 0 && args@[2]@[0]
                != '-' ==> r is Ok && r->Ok_0.config@ == args@[2]@,
    {
        proof {
            reveal_strlit("config");
            reveal_strlit("--config");
            reveal_strlit("--");
            reveal_strlit("help");
            reveal_strlit("version");
            reveal_strlit("config.yaml");
            assert("--config"@ =~= "--"@ + "config"@);
        }
        match clap_path_option(
            "publisher",
            "Ethera Shared Publisher",
            "config",
            'c',
            "CONFIG",
            "config.yaml",
            args,
        ) {
            Ok(config) => Ok(Cli { config }),
            Err(e) => Err(e),
        }
    }
}

} // verus!
