//! The command line: which command an invocation asks for, the arguments that
//! go on to git, and the exit status.

use vstd::prelude::*;

use crate::git_context::args_view;
use crate::text::{non_blank, non_blank_opt, non_blank_trimmed, opt_view, str_eq};

verus! {

/// The commands of the command line.
#[derive(Debug, Clone, Copy, PartialEq, Eq)]
pub enum Invocation {
    /// `--version` or `-V` alone.
    Version,
    /// `help`, `--help` or `-h` alone.
    Help,
    /// `config-path` (or `gitcredit-login-path`): print where the config file is.
    ConfigPath,
    /// `configure ...`: the arguments after the word.
    Configure,
    /// `record ...`: report without running git; the arguments after the word
    /// are git global options.
    Record,
    /// Anything else runs git.
    Git,
}

/// The command that the arguments ask for.
pub open spec fn invocation(args: Seq<Seq<char>>) -> Invocation {
    if args.len() == 1 && (args[0] == "--version"@ || args[0] == "-V"@) {
        Invocation::Version
    } else if args.len() == 1 && (args[0] == "help"@ || args[0] == "--help"@ || args[0] == "-h"@) {
        Invocation::Help
    } else if args.len() > 0 && (args[0] == "gitcredit-login-path"@ || args[0] == "config-path"@) {
        Invocation::ConfigPath
    } else if args.len() > 0 && args[0] == "configure"@ {
        Invocation::Configure
    } else if args.len() > 0 && args[0] == "record"@ {
        Invocation::Record
    } else {
        Invocation::Git
    }
}

/// The first word decides the command whatever follows it: `record ...`
/// records, `configure ...` configures, `config-path ...` prints the path;
/// a git subcommand word such as `push` runs git.
pub proof fn law_first_word_decides(rest: Seq<Seq<char>>, word: Seq<char>)
    ensures
        invocation(seq!["record"@] + rest) == Invocation::Record,
        invocation(seq!["configure"@] + rest) == Invocation::Configure,
        invocation(seq!["config-path"@] + rest) == Invocation::ConfigPath,
        word.len() > 0 && word[0] != '-' && word != "help"@ && word != "record"@ && word
            != "configure"@ && word != "config-path"@ && word != "gitcredit-login-path"@
            ==> invocation(seq![word] + rest) == Invocation::Git,
{
    reveal_strlit("record");
    reveal_strlit("configure");
    reveal_strlit("config-path");
    reveal_strlit("gitcredit-login-path");
    reveal_strlit("--version");
    reveal_strlit("-V");
    reveal_strlit("help");
    reveal_strlit("--help");
    reveal_strlit("-h");
    let r = seq!["record"@] + rest;
    assert(r[0] == "record"@);
    assert("record"@[0] != "--help"@[0]);
    assert("record"@[0] != "configure"@[0]);
    let c = seq!["configure"@] + rest;
    assert(c[0] == "configure"@);
    assert("configure"@[0] != "--version"@[0]);
    assert("configure"@[6] != "config-path"@[6]);
    let p = seq!["config-path"@] + rest;
    assert(p[0] == "config-path"@);
    let w = seq![word] + rest;
    assert(w[0] == word);
    if word.len() > 0 && word[0] != '-' {
        assert(word != "--version"@ && word != "-V"@ && word != "--help"@ && word != "-h"@) by {
            assert("--version"@[0] == '-' && "-V"@[0] == '-' && "--help"@[0] == '-' && "-h"@[0]
                == '-');
        }
    }
}

/// The command that the arguments (without the program name) ask for.
pub fn classify_invocation(raw: &[String]) -> (res: Invocation)
    ensures
        res == invocation(args_view(raw@)),
{
    let ghost args = args_view(raw@);
    if raw.len() == 0 {
        return Invocation::Git;
    }
    let first = raw[0].as_str();
    assert(first@ == args[0]);
    if raw.len() == 1 && (str_eq(first, "--version") || str_eq(first, "-V")) {
        Invocation::Version
    } else if raw.len() == 1 && (str_eq(first, "help") || str_eq(first, "--help") || str_eq(
        first,
        "-h",
    )) {
        Invocation::Help
    } else if str_eq(first, "gitcredit-login-path") || str_eq(first, "config-path") {
        Invocation::ConfigPath
    } else if str_eq(first, "configure") {
        Invocation::Configure
    } else if str_eq(first, "record") {
        Invocation::Record
    } else {
        Invocation::Git
    }
}

/// The arguments for git: a leading `git` word is dropped where more follows,
/// so that `gitcredit git push` is `gitcredit push`.
pub open spec fn git_passthrough(args: Seq<Seq<char>>) -> Seq<Seq<char>> {
    if args.len() >= 2 && args[0] == "git"@ {
        args.skip(1)
    } else {
        args
    }
}

/// `gitcredit git <args>` hands git the same arguments as `gitcredit <args>`
/// does, and a lone `git` is handed on as it is.
pub proof fn law_git_word_dropped(rest: Seq<Seq<char>>)
    ensures
        rest.len() > 0 ==> git_passthrough(seq!["git"@] + rest) == rest,
        git_passthrough(seq!["git"@]) == seq!["git"@],
{
    if rest.len() > 0 {
        assert((seq!["git"@] + rest).skip(1) =~= rest);
    }
}

/// `gitcredit git push` is the same as `gitcredit push`.
pub fn strip_optional_git_prefix(argv: Vec<String>) -> (res: Vec<String>)
    ensures
        args_view(res@) == git_passthrough(args_view(argv@)),
{
    let mut argv = argv;
    let ghost before = argv@;
    if argv.len() >= 2 && str_eq(argv[0].as_str(), "git") {
        argv.remove(0);
        assert(args_view(argv@) =~= args_view(before).skip(1));
    }
    argv
}

/// The subcommands of `configure`.
pub enum ConfigureCommand {
    /// No subcommand, `help`, `--help` or `-h`.
    Help,
    /// `api-key`, with the trimmed key that follows where it is not blank
    /// (else the key is read from standard input).
    ApiKey(Option<String>),
    /// `show`.
    Show,
    /// Any other word.
    Unknown(String),
}

/// `configure` subcommands, as text.
pub enum ConfigureModel {
    Help,
    ApiKey(Option<Seq<char>>),
    Show,
    Unknown(Seq<char>),
}

impl View for ConfigureCommand {
    type V = ConfigureModel;

    open spec fn view(&self) -> ConfigureModel {
        match self {
            ConfigureCommand::Help => ConfigureModel::Help,
            ConfigureCommand::ApiKey(k) => ConfigureModel::ApiKey(opt_view(*k)),
            ConfigureCommand::Show => ConfigureModel::Show,
            ConfigureCommand::Unknown(w) => ConfigureModel::Unknown(w@),
        }
    }
}

/// The `configure` subcommand that the arguments after `configure` ask for.
pub open spec fn configure_command(args: Seq<Seq<char>>) -> ConfigureModel {
    if args.len() == 0 || args[0] == "help"@ || args[0] == "--help"@ || args[0] == "-h"@ {
        ConfigureModel::Help
    } else if args[0] == "api-key"@ {
        ConfigureModel::ApiKey(
            if args.len() > 1 {
                non_blank_opt(Some(args[1]))
            } else {
                None
            },
        )
    } else if args[0] == "show"@ {
        ConfigureModel::Show
    } else {
        ConfigureModel::Unknown(args[0])
    }
}

/// `configure api-key <key> ...` carries the trimmed key where it is not blank
/// (else the key is asked for), `configure show ...` shows, and any other
/// word that is not a help word is refused as unknown.
pub proof fn law_configure_words(k: Seq<char>, rest: Seq<Seq<char>>, word: Seq<char>)
    ensures
        configure_command(seq!["api-key"@, k] + rest) == ConfigureModel::ApiKey(non_blank(k)),
        configure_command(seq!["api-key"@]) == ConfigureModel::ApiKey(None),
        configure_command(seq!["show"@] + rest) == ConfigureModel::Show,
        configure_command(Seq::empty()) == ConfigureModel::Help,
        word != "help"@ && word != "--help"@ && word != "-h"@ && word != "api-key"@ && word
            != "show"@ ==> configure_command(seq![word] + rest) == ConfigureModel::Unknown(word),
{
    reveal_strlit("api-key");
    reveal_strlit("show");
    reveal_strlit("help");
    reveal_strlit("--help");
    reveal_strlit("-h");
    let a = seq!["api-key"@, k] + rest;
    assert(a[0] == "api-key"@ && a[1] == k);
    assert("api-key"@[0] != "help"@[0] && "api-key"@[0] != "--help"@[0]);
    let s = seq!["show"@] + rest;
    assert(s[0] == "show"@);
    assert("show"@[0] != "help"@[0]);
    let w = seq![word] + rest;
    assert(w[0] == word);
}

/// The `configure` subcommand in `args` (the arguments after `configure`).
pub fn classify_configure(args: &[String]) -> (res: ConfigureCommand)
    ensures
        res@ == configure_command(args_view(args@)),
{
    let ghost a = args_view(args@);
    if args.len() == 0 {
        return ConfigureCommand::Help;
    }
    let first = args[0].as_str();
    assert(first@ == a[0]);
    if str_eq(first, "help") || str_eq(first, "--help") || str_eq(first, "-h") {
        ConfigureCommand::Help
    } else if str_eq(first, "api-key") {
        if args.len() > 1 {
            assert(args@[1]@ == a[1]);
            ConfigureCommand::ApiKey(non_blank_trimmed(args[1].as_str()))
        } else {
            ConfigureCommand::ApiKey(None)
        }
    } else if str_eq(first, "show") {
        ConfigureCommand::Show
    } else {
        ConfigureCommand::Unknown(first.to_owned())
    }
}

/// The exit code of git: its code, or 0 or 1 by its success where it has none
/// (it was ended by a signal).
pub fn git_exit_code(code: Option<i32>, success: bool) -> (res: i32)
    ensures
        res == match code {
            Some(c) => c,
            None => if success {
                0i32
            } else {
                1i32
            },
        },
{
    match code {
        Some(c) => c,
        None => if success {
            0
        } else {
            1
        },
    }
}

/// The process exit status for an exit code: the code where it fits in a byte, else 1.
pub fn exit_status_byte(code: i32) -> (res: u8)
    ensures
        0 <= code <= 255 ==> res == code,
        !(0 <= code <= 255) ==> res == 1,
{
    if 0 <= code && code <= 255 {
        code as u8
    } else {
        1
    }
}

} // verus!
