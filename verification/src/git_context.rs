//! Leading git global options (`-C`, `-c`, `--namespace`) and the working
//! tree and subcommand they leave.

use vstd::prelude::*;

use crate::text::{has_prefix, skip_chars, starts_with, str_eq, contains_char};

verus! {

/// The views of the arguments.
pub open spec fn args_view(argv: Seq<String>) -> Seq<Seq<char>> {
    argv.map_values(|a: String| a@)
}

/// `base` joined with `path` as `Path::join` does on Unix: an absolute `path`
/// replaces `base`; otherwise a separator is put between them where `base` is
/// not empty and does not end in one.
pub open spec fn join_path(base: Seq<char>, path: Seq<char>) -> Seq<char> {
    if path.len() > 0 && path[0] == '/' {
        path
    } else if base.len() > 0 && base.last() != '/' {
        base + seq!['/'] + path
    } else {
        base + path
    }
}

/// How many arguments the global option at `args[i]` takes up; 0 where
/// `args[i]` is not one that is handled.
pub open spec fn global_option_len(args: Seq<Seq<char>>, i: int) -> int
    recommends
        0 <= i < args.len(),
{
    let a = args[i];
    let has_next = i + 1 < args.len();
    if a == "-C"@ && has_next {
        2
    } else if has_prefix(a, "-C="@) {
        1
    } else if a == "-c"@ && has_next {
        2
    } else if has_prefix(a, "-c"@) && a.contains('=') {
        1
    } else if a == "--namespace"@ && has_next {
        2
    } else if has_prefix(a, "--namespace="@) {
        if a.len() == "--namespace="@.len() && has_next {
            2
        } else {
            1
        }
    } else {
        0
    }
}

/// The directory that the global option at `args[i]` names (`-C dir`, `-C=dir`).
pub open spec fn global_option_dir(args: Seq<Seq<char>>, i: int) -> Option<Seq<char>>
    recommends
        0 <= i < args.len(),
{
    let a = args[i];
    if a == "-C"@ && i + 1 < args.len() {
        Some(args[i + 1])
    } else if has_prefix(a, "-C="@) {
        Some(a.skip("-C="@.len() as int))
    } else {
        None
    }
}

/// The index of the first argument from `i` on that is not a leading global option.
pub open spec fn globals_end(args: Seq<Seq<char>>, i: int) -> int
    decreases args.len() - i,
{
    if i < 0 || i >= args.len() || global_option_len(args, i) == 0 {
        i
    } else {
        globals_end(args, i + global_option_len(args, i))
    }
}

/// The directory reached from `base` by the `-C` options from `args[i]` on.
pub open spec fn globals_dir(base: Seq<char>, args: Seq<Seq<char>>, i: int) -> Seq<char>
    decreases args.len() - i,
{
    if i < 0 || i >= args.len() || global_option_len(args, i) == 0 {
        base
    } else {
        let next = match global_option_dir(args, i) {
            Some(d) => join_path(base, d),
            None => base,
        };
        globals_dir(next, args, i + global_option_len(args, i))
    }
}

/// The git subcommand: the first argument after the leading global options.
pub open spec fn subcommand(args: Seq<Seq<char>>) -> Option<Seq<char>> {
    let i = globals_end(args, 0);
    if i < args.len() {
        Some(args[i])
    } else {
        None
    }
}

/// An absolute path replaces the base; a relative one is appended to it,
/// with exactly one `/` between them where the base is not empty.
pub proof fn law_join_path(base: Seq<char>, path: Seq<char>)
    ensures
        path.len() > 0 && path[0] == '/' ==> join_path(base, path) == path,
        !(path.len() > 0 && path[0] == '/') ==> join_path(base, path).take(base.len() as int) == base
            && join_path(base, path).skip(join_path(base, path).len() - path.len()) == path,
        !(path.len() > 0 && path[0] == '/') && base.len() > 0 ==> join_path(base, path)[base.len()
            - 1] == '/' || join_path(base, path)[base.len() as int] == '/',
        !(path.len() > 0 && path[0] == '/') && base.len() == 0 ==> join_path(base, path) == path,
{
    if !(path.len() > 0 && path[0] == '/') {
        let r = join_path(base, path);
        assert(r.take(base.len() as int) =~= base);
        assert(r.skip(r.len() - path.len()) =~= path);
        if base.len() == 0 {
            assert(r =~= path);
        }
    }
}

/// `base` joined with the directory of a `-C` option.
pub fn join_git_c_path(base: &str, path: &str) -> (res: String)
    ensures
        res@ == join_path(base@, path@),
{
    let n = path.unicode_len();
    if n > 0 && path.get_char(0) == '/' {
        return path.to_owned();
    }
    let m = base.unicode_len();
    let mut res = base.to_owned();
    if m > 0 && base.get_char(m - 1) != '/' {
        res.append("/");
        proof {
            reveal_strlit("/");
        }
    }
    res.append(path);
    res
}

/// The width of the global option at `argv[i]` and the directory it names.
fn global_option_at(argv: &[String], i: usize) -> (res: (usize, Option<&str>))
    requires
        i < argv@.len(),
    ensures
        res.0 == global_option_len(args_view(argv@), i as int),
        res.1 matches Some(d) ==> global_option_dir(args_view(argv@), i as int) == Some(d@),
        res.1 is None ==> global_option_dir(args_view(argv@), i as int) is None,
{
    let ghost args = args_view(argv@);
    let arg = argv[i].as_str();
    let has_next = i + 1 < argv.len();
    assert(arg@ == args[i as int]);
    if str_eq(arg, "-C") && has_next {
        assert(argv@[i + 1]@ == args[i + 1]);
        return (2, Some(argv[i + 1].as_str()));
    }
    if starts_with(arg, "-C=") {
        let n = "-C=".unicode_len();
        return (1, Some(skip_chars(arg, n)));
    }
    if str_eq(arg, "-c") && has_next {
        return (2, None);
    }
    if starts_with(arg, "-c") && contains_char(arg, '=') {
        return (1, None);
    }
    if str_eq(arg, "--namespace") && has_next {
        return (2, None);
    }
    if starts_with(arg, "--namespace=") {
        if arg.unicode_len() == "--namespace=".unicode_len() && has_next {
            return (2, None);
        } else {
            return (1, None);
        }
    }
    (0, None)
}

/// Scans the leading git global options of `argv`. Returns the working tree that
/// the `-C` options lead to from `process_cwd`, and the index of the first
/// argument that is not a handled global option (usually the subcommand).
/// The directory is returned as joined; making it canonical is left to the
/// caller, which has the file system at hand.
pub fn parse_leading_git_globals(process_cwd: &str, argv: &[String]) -> (res: (String, usize))
    ensures
        res.0@ == globals_dir(process_cwd@, args_view(argv@), 0),
        res.1 == globals_end(args_view(argv@), 0),
{
    let ghost args = args_view(argv@);
    let mut base = process_cwd.to_owned();
    let mut i: usize = 0;
    while i < argv.len()
        invariant_except_break
            i <= argv@.len(),
            args == args_view(argv@),
            globals_end(args, i as int) == globals_end(args, 0),
            globals_dir(base@, args, i as int) == globals_dir(process_cwd@, args, 0),
        ensures
            i <= argv@.len(),
            i == globals_end(args, 0),
            base@ == globals_dir(process_cwd@, args, 0),
        decreases argv@.len() - i,
    {
        let (width, dir) = global_option_at(argv, i);
        if width == 0 {
            break;
        }
        if let Some(d) = dir {
            base = join_git_c_path(base.as_str(), d);
        }
        i = i + width;
    }
    (base, i)
}

/// The working tree that git uses after the leading global options.
pub fn resolve_git_working_directory(process_cwd: &str, git_argv: &[String]) -> (res: String)
    ensures
        res@ == globals_dir(process_cwd@, args_view(git_argv@), 0),
{
    parse_leading_git_globals(process_cwd, git_argv).0
}

/// The first git subcommand word, e.g. `push` in `git -C x push origin main`.
pub fn first_git_subcommand(argv: &[String]) -> (res: Option<&str>)
    ensures
        res matches Some(s) ==> subcommand(args_view(argv@)) == Some(s@),
        res is None ==> subcommand(args_view(argv@)) is None,
{
    let (_, i) = parse_leading_git_globals(".", argv);
    if i < argv.len() {
        Some(argv[i].as_str())
    } else {
        None
    }
}

proof fn lemma_option_len_shift(p: Seq<Seq<char>>, rest: Seq<Seq<char>>, j: int)
    requires
        0 <= j < rest.len(),
    ensures
        global_option_len(p + rest, p.len() + j) == global_option_len(rest, j),
        global_option_dir(p + rest, p.len() + j) == global_option_dir(rest, j),
{
    let a = p + rest;
    assert(a[p.len() + j] == rest[j]);
    if j + 1 < rest.len() {
        assert(a[p.len() + j + 1] == rest[j + 1]);
    }
}

/// Arguments in front of a list shift where its global options end, and
/// change nothing else of the scan.
proof fn lemma_globals_shift(base: Seq<char>, p: Seq<Seq<char>>, rest: Seq<Seq<char>>, j: int)
    requires
        0 <= j <= rest.len(),
    ensures
        globals_end(p + rest, p.len() + j) == p.len() + globals_end(rest, j),
        globals_dir(base, p + rest, p.len() + j) == globals_dir(base, rest, j),
    decreases rest.len() - j,
{
    if j < rest.len() {
        lemma_option_len_shift(p, rest, j);
        let w = global_option_len(rest, j);
        if w != 0 {
            let next = match global_option_dir(rest, j) {
                Some(d) => join_path(base, d),
                None => base,
            };
            lemma_globals_shift(next, p, rest, j + w);
        }
    }
}

proof fn lemma_globals_end_bounds(args: Seq<Seq<char>>, j: int)
    requires
        0 <= j <= args.len(),
    ensures
        j <= globals_end(args, j) <= args.len(),
    decreases args.len() - j,
{
    if j < args.len() && global_option_len(args, j) != 0 {
        lemma_globals_end_bounds(args, j + global_option_len(args, j));
    }
}

/// A leading `-C dir`, `-c name=value` or `--namespace name` pair does not
/// change which argument is the subcommand: `gitcredit -C repo push` reports
/// like `gitcredit push`.
pub proof fn law_global_pair_keeps_subcommand(opt: Seq<char>, value: Seq<char>, rest: Seq<Seq<char>>)
    requires
        opt == "-C"@ || opt == "-c"@ || opt == "--namespace"@,
    ensures
        subcommand(seq![opt, value] + rest) == subcommand(rest),
{
    reveal_strlit("-C");
    reveal_strlit("-c");
    reveal_strlit("--namespace");
    reveal_strlit("-C=");
    reveal_strlit("--namespace=");
    let p = seq![opt, value];
    let a = p + rest;
    assert(a[0] == opt);
    assert(a.len() >= 2);
    if opt == "-c"@ {
        assert(opt[1] != "-C"@[1]);
    } else if opt == "--namespace"@ {
        assert(opt.len() != "-C"@.len());
        assert(opt.len() != "-c"@.len());
        assert(opt.subrange(0, 3)[2] != "-C="@[2]);
        assert(opt.subrange(0, 2)[1] != "-c"@[1]);
    }
    assert(global_option_len(a, 0) == 2);
    lemma_globals_shift(Seq::empty(), p, rest, 0);
    lemma_globals_end_bounds(rest, 0);
    let k = globals_end(rest, 0);
    if k < rest.len() {
        assert(a[2 + k] == rest[k]);
    }
}

/// Only `-C` moves the working tree: a leading `-c name=value` or
/// `--namespace name` pair, or a one-word `-cname=value`, leaves the directory
/// that the rest of the options start from as it is.
pub proof fn law_other_globals_keep_dir(
    base: Seq<char>,
    opt: Seq<char>,
    value: Seq<char>,
    word: Seq<char>,
    rest: Seq<Seq<char>>,
)
    requires
        opt == "-c"@ || opt == "--namespace"@,
        has_prefix(word, "-c"@),
        word.contains('='),
    ensures
        globals_dir(base, seq![opt, value] + rest, 0) == globals_dir(base, rest, 0),
        globals_dir(base, seq![word] + rest, 0) == globals_dir(base, rest, 0),
{
    reveal_strlit("-C");
    reveal_strlit("-c");
    reveal_strlit("--namespace");
    reveal_strlit("-C=");
    reveal_strlit("--namespace=");
    let p = seq![opt, value];
    let a = p + rest;
    assert(a[0] == opt);
    if opt == "-c"@ {
        assert(opt[1] != "-C"@[1]);
    } else {
        assert(opt.len() != "-C"@.len());
        assert(opt.len() != "-c"@.len());
        assert(opt.subrange(0, 3)[2] != "-C="@[2]);
        assert(opt.subrange(0, 2)[1] != "-c"@[1]);
    }
    assert(global_option_len(a, 0) == 2);
    assert(global_option_dir(a, 0) is None);
    lemma_globals_shift(base, p, rest, 0);

    let q = seq![word];
    let b = q + rest;
    assert(b[0] == word);
    assert(word.subrange(0, 2)[1] == 'c');
    assert(word != "-C"@) by {
        if word == "-C"@ {
            assert(word[1] == 'C');
        }
    }
    assert(!has_prefix(word, "-C="@)) by {
        if has_prefix(word, "-C="@) {
            assert(word.subrange(0, 3)[1] == word[1]);
        }
    }
    assert(global_option_len(b, 0) == 1);
    assert(global_option_dir(b, 0) is None);
    lemma_globals_shift(base, q, rest, 0);
}

/// `-C dir` in front moves the working tree that the rest of the options start from
/// to `dir`, joined onto it as `Path::join` does.
pub proof fn law_c_option_joins_dir(base: Seq<char>, dir: Seq<char>, rest: Seq<Seq<char>>)
    ensures
        globals_dir(base, seq!["-C"@, dir] + rest, 0) == globals_dir(join_path(base, dir), rest, 0),
{
    let p = seq!["-C"@, dir];
    let a = p + rest;
    assert(a[0] == "-C"@);
    assert(a[1] == dir);
    lemma_globals_shift(join_path(base, dir), p, rest, 0);
}

/// An argument that does not start with `-` is the subcommand when it comes first:
/// without global options the working tree is left as it is.
pub proof fn law_plain_first_argument(base: Seq<char>, args: Seq<Seq<char>>)
    requires
        args.len() > 0,
        args[0].len() > 0,
        args[0][0] != '-',
    ensures
        subcommand(args) == Some(args[0]),
        globals_dir(base, args, 0) == base,
{
    reveal_strlit("-C");
    reveal_strlit("-c");
    reveal_strlit("--namespace");
    reveal_strlit("-C=");
    reveal_strlit("--namespace=");
    let a = args[0];
    assert(!has_prefix(a, "-C="@)) by {
        if has_prefix(a, "-C="@) {
            assert(a.subrange(0, 3)[0] == a[0]);
        }
    }
    assert(!has_prefix(a, "-c"@)) by {
        if has_prefix(a, "-c"@) {
            assert(a.subrange(0, 2)[0] == a[0]);
        }
    }
    assert(!has_prefix(a, "--namespace="@)) by {
        if has_prefix(a, "--namespace="@) {
            assert(a.subrange(0, 12)[0] == a[0]);
        }
    }
    assert(global_option_len(args, 0) == 0);
}

} // verus!
