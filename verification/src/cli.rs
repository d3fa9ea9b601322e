//! Command-line argument parsing.
//!
//! Handles flags: `-x`, `--x`
//! And options with args: `-xfoo`, `-x=foo`, `-x foo`, `--x=foo`, `--x foo`
//!
//! Arguments are given as text, or `None` for one that is not valid
//! Unicode; such an argument is always a free argument. Free arguments and
//! option arguments that are whole command-line arguments are handed back
//! by their position, so that the caller can use the argument as given.

use vstd::prelude::*;
use crate::errors::ErrorMsg;

verus! {

/// A command-line option: its short name (empty if it has none), its long
/// name, whether it is a flag (takes no argument), and its line of help.
pub struct Opt {
    pub short: &'static str,
    pub long: &'static str,
    pub flag: bool,
    pub help: &'static str,
}

/// The argument of an option: text in the same command-line argument
/// (`-xfoo`, `-x=foo`, `--x=foo`), or the whole next command-line argument
/// (`-x foo`, `--x foo`), by its position.
pub enum Param {
    Inline(String),
    Next(usize),
}

/// What parsing found.
pub struct Args {
    pub subcommand: &'static str,
    /// Positions of the free arguments.
    pub free_args: Vec<usize>,
    /// The options given, by long name, with their arguments.
    pub opt_args: Vec<(&'static str, Param)>,
    /// The flags given, by long name.
    pub flags: Vec<&'static str>,
}

/// The command-line arguments, how far parsing has got, and what it found.
pub struct Parse {
    pub argv: Vec<Option<String>>,
    pub next: usize,
    pub args: Args,
}

pub enum ParamView {
    Inline(Seq<char>),
    Next(nat),
}

/// What parsing found, as text and positions.
pub struct ArgsView {
    pub free: Seq<nat>,
    pub opts: Seq<(Seq<char>, ParamView)>,
    pub flags: Seq<Seq<char>>,
}

pub open spec fn param_view(p: Param) -> ParamView {
    match p {
        Param::Inline(s) => ParamView::Inline(s@),
        Param::Next(i) => ParamView::Next(i as nat),
    }
}

impl Args {
    pub open spec fn view_of(&self) -> ArgsView {
        ArgsView {
            free: self.free_args@.map_values(|i: usize| i as nat),
            opts: self.opt_args@.map_values(|e: (&'static str, Param)| (e.0@, param_view(e.1))),
            flags: self.flags@.map_values(|f: &'static str| f@),
        }
    }
}

/// The arguments as text (`None` for one that is not valid Unicode).
pub open spec fn argv_view(argv: Seq<Option<String>>) -> Seq<Option<Seq<char>>> {
    argv.map_values(|a: Option<String>| match a {
        Some(s) => Some(s@),
        None => None,
    })
}

/// How a command-line argument reads: a free argument, or an option name
/// with the argument written in the same command-line argument, if any.
pub enum ArgKind {
    Free,
    Opt { name: Seq<char>, param: Option<Seq<char>>, is_long: bool },
}

/// The position of the first `c` in `s`.
pub open spec fn find_char(s: Seq<char>, c: char) -> Option<nat>
    decreases s.len(),
{
    if s.len() == 0 {
        None
    } else if s[0] == c {
        Some(0)
    } else {
        match find_char(s.skip(1), c) {
            Some(i) => Some(i + 1),
            None => None,
        }
    }
}

/// How `a` reads: `--name` or `--name=param`; `-x`, `-x=param` or
/// `-xparam`; otherwise a free argument.
pub open spec fn classify(a: Seq<char>) -> ArgKind {
    if a.len() >= 2 && a[0] == '-' && a[1] == '-' {
        let n = a.skip(2);
        match find_char(n, '=') {
            Some(i) => ArgKind::Opt { name: n.take(i as int), param: Some(n.skip(i + 1 as int)), is_long: true },
            None => ArgKind::Opt { name: n, param: None, is_long: true },
        }
    } else if a.len() >= 1 && a[0] == '-' {
        let n = a.skip(1);
        if n.len() >= 2 && n[1] == '=' {
            ArgKind::Opt { name: n.take(1), param: Some(n.skip(2)), is_long: false }
        } else if n.len() >= 2 {
            ArgKind::Opt { name: n.take(1), param: Some(n.skip(1)), is_long: false }
        } else {
            ArgKind::Opt { name: n, param: None, is_long: false }
        }
    } else {
        ArgKind::Free
    }
}

/// Whether option `o` is the one named `name` (by its long name after `--`,
/// by its short name after `-`).
pub open spec fn opt_matches(o: Opt, name: Seq<char>, is_long: bool) -> bool {
    if is_long {
        name == o.long@
    } else {
        o.short@.len() > 0 && name == o.short@
    }
}

/// The position of the first of `opts` named `name`.
pub open spec fn first_match(opts: Seq<Opt>, name: Seq<char>, is_long: bool) -> Option<nat>
    decreases opts.len(),
{
    if opts.len() == 0 {
        None
    } else if opt_matches(opts[0], name, is_long) {
        Some(0)
    } else {
        match first_match(opts.skip(1), name, is_long) {
            Some(i) => Some(i + 1),
            None => None,
        }
    }
}

/// Whether an option with long name `long` was already given.
pub open spec fn has_opt(opts: Seq<(Seq<char>, ParamView)>, long: Seq<char>) -> bool {
    exists|i: int| 0 <= i < opts.len() && (#[trigger] opts[i]).0 == long
}

/// The result of parsing `argv` from position `i` on with the options
/// `opts`, when `a` was found before: what is found, or the message of the
/// first error.
pub open spec fn parse_opts_from(argv: Seq<Option<Seq<char>>>, i: nat, opts: Seq<Opt>, a: ArgsView)
    -> Result<ArgsView, Seq<char>>
    decreases argv.len() - i,
{
    if i >= argv.len() {
        Ok(a)
    } else {
        let free = ArgsView { free: a.free.push(i), ..a };
        match argv[i as int] {
            None => parse_opts_from(argv, i + 1, opts, free),
            Some(arg) => match classify(arg) {
                ArgKind::Free => parse_opts_from(argv, i + 1, opts, free),
                ArgKind::Opt { name, param, is_long } => match first_match(opts, name, is_long) {
                    None => Err("don't understand option "@ + (if is_long { "--"@ } else { "-"@ }) + name),
                    Some(k) => {
                        let long = opts[k as int].long@;
                        if opts[k as int].flag {
                            if param is Some {
                                Err("flag --"@ + long + " doesn't take an argument"@)
                            } else {
                                parse_opts_from(argv, i + 1, opts, ArgsView { flags: a.flags.push(long), ..a })
                            }
                        } else if param is None && i + 1 >= argv.len() {
                            Err("expected an argument after --"@ + long)
                        } else if has_opt(a.opts, long) {
                            Err("you already passed --"@ + long)
                        } else {
                            let (pv, next) = match param {
                                Some(p) => (ParamView::Inline(p), i + 1),
                                None => (ParamView::Next(i + 1), i + 2),
                            };
                            parse_opts_from(argv, next, opts, ArgsView { opts: a.opts.push((long, pv)), ..a })
                        }
                    },
                },
            },
        }
    }
}

proof fn lemma_find_char(s: Seq<char>, c: char)
    ensures
        find_char(s, c) matches Some(i) ==> i < s.len() && s[i as int] == c,
    decreases s.len(),
{
    if s.len() > 0 && s[0] != c {
        lemma_find_char(s.skip(1), c);
    }
}

proof fn lemma_first_match(opts: Seq<Opt>, name: Seq<char>, is_long: bool)
    ensures
        first_match(opts, name, is_long) matches Some(k) ==> k < opts.len(),
    decreases opts.len(),
{
    if opts.len() > 0 && !opt_matches(opts[0], name, is_long) {
        lemma_first_match(opts.skip(1), name, is_long);
    }
}

/// Whether two strings are the same text.
fn str_eq(a: &str, b: &str) -> (r: bool)
    ensures
        r == (a@ == b@),
{
    let n = a.unicode_len();
    if n != b.unicode_len() {
        return false;
    }
    let mut i: usize = 0;
    while i < n
        invariant
            n == a@.len(),
            n == b@.len(),
            i <= n,
            forall|j: int| 0 <= j < i ==> a@[j] == b@[j],
        decreases n - i,
    {
        if a.get_char(i) != b.get_char(i) {
            return false;
        }
        i += 1;
    }
    assert(a@ =~= b@);
    true
}

/// The exec form of `ArgKind`.
enum ArgClass {
    Free,
    Opt { name: String, param: Option<String>, is_long: bool },
}

spec fn arg_class_view(c: ArgClass) -> ArgKind {
    match c {
        ArgClass::Free => ArgKind::Free,
        ArgClass::Opt { name, param, is_long } => ArgKind::Opt {
            name: name@,
            param: match param {
                Some(p) => Some(p@),
                None => None,
            },
            is_long,
        },
    }
}

/// The position of the first `c` in `s`.
fn find_char_exec(s: &str, c: char) -> (r: Option<usize>)
    ensures
        match r {
            Some(i) => find_char(s@, c) == Some(i as nat),
            None => find_char(s@, c) is None,
        },
{
    let n = s.unicode_len();
    let mut i: usize = 0;
    assert(s@.skip(0) =~= s@);
    while i < n
        invariant
            n == s@.len(),
            i <= n,
            find_char(s@, c) == match find_char(s@.skip(i as int), c) {
                Some(k) => Some((k + i) as nat),
                None => None::<nat>,
            },
        decreases n - i,
    {
        assert(s@.skip(i as int).skip(1) =~= s@.skip(i + 1));
        if s.get_char(i) == c {
            return Some(i);
        }
        i += 1;
    }
    assert(s@.skip(i as int).len() == 0);
    None
}

fn classify_exec(arg: &str) -> (r: ArgClass)
    ensures
        arg_class_view(r) == classify(arg@),
{
    let n = arg.unicode_len();
    if n >= 2 && arg.get_char(0) == '-' && arg.get_char(1) == '-' {
        let name = arg.substring_char(2, n);
        assert(name@ =~= arg@.skip(2));
        proof {
            lemma_find_char(name@, '=');
        }
        match find_char_exec(name, '=') {
            Some(i) => {
                let param = name.substring_char(i + 1, n - 2);
                let short = name.substring_char(0, i);
                assert(param@ =~= name@.skip(i + 1));
                assert(short@ =~= name@.take(i as int));
                ArgClass::Opt { name: short.to_owned(), param: Some(param.to_owned()), is_long: true }
            },
            None => ArgClass::Opt { name: name.to_owned(), param: None, is_long: true },
        }
    } else if n >= 1 && arg.get_char(0) == '-' {
        let name = arg.substring_char(1, n);
        assert(name@ =~= arg@.skip(1));
        if n >= 3 {
            let first = name.substring_char(0, 1);
            assert(first@ =~= name@.take(1));
            if name.get_char(1) == '=' {
                let param = name.substring_char(2, n - 1);
                assert(param@ =~= name@.skip(2));
                ArgClass::Opt { name: first.to_owned(), param: Some(param.to_owned()), is_long: false }
            } else {
                let param = name.substring_char(1, n - 1);
                assert(param@ =~= name@.skip(1));
                ArgClass::Opt { name: first.to_owned(), param: Some(param.to_owned()), is_long: false }
            }
        } else {
            ArgClass::Opt { name: name.to_owned(), param: None, is_long: false }
        }
    } else {
        ArgClass::Free
    }
}

/// The position of the first of `opts` named `name`.
fn first_match_exec(opts: &[Opt], name: &String, is_long: bool) -> (r: Option<usize>)
    ensures
        match r {
            Some(k) => first_match(opts@, name@, is_long) == Some(k as nat),
            None => first_match(opts@, name@, is_long) is None,
        },
{
    let mut k: usize = 0;
    assert(opts@.skip(0) =~= opts@);
    while k < opts.len()
        invariant
            k <= opts@.len(),
            first_match(opts@, name@, is_long) == match first_match(opts@.skip(k as int), name@, is_long) {
                Some(j) => Some((j + k) as nat),
                None => None::<nat>,
            },
        decreases opts@.len() - k,
    {
        assert(opts@.skip(k as int).skip(1) =~= opts@.skip(k + 1));
        assert(opts@.skip(k as int)[0] == opts@[k as int]);
        let opt = &opts[k];
        let matches = if is_long {
            str_eq(name.as_str(), opt.long)
        } else {
            opt.short.unicode_len() != 0 && str_eq(name.as_str(), opt.short)
        };
        if matches {
            return Some(k);
        }
        k += 1;
    }
    assert(opts@.skip(k as int).len() == 0);
    None
}

/// The argument given with the first option named `long` among `opts`.
pub open spec fn opt_param(opts: Seq<(Seq<char>, ParamView)>, long: Seq<char>) -> Option<ParamView>
    decreases opts.len(),
{
    if opts.len() == 0 {
        None
    } else if opts[0].0 == long {
        Some(opts[0].1)
    } else {
        opt_param(opts.skip(1), long)
    }
}

impl Args {
    /// The argument of option `long`, if it was given.
    pub fn get_opt(&self, long: &str) -> (r: Option<&Param>)
        ensures
            match r {
                Some(p) => opt_param(self.view_of().opts, long@) == Some(param_view(*p)),
                None => opt_param(self.view_of().opts, long@) is None,
            },
    {
        let ghost v = self.view_of().opts;
        let mut i: usize = 0;
        assert(v.skip(0) =~= v);
        while i < self.opt_args.len()
            invariant
                v == self.view_of().opts,
                i <= self.opt_args@.len(),
                opt_param(v, long@) == opt_param(v.skip(i as int), long@),
            decreases self.opt_args@.len() - i,
        {
            assert(v.skip(i as int).skip(1) =~= v.skip(i + 1));
            assert(v.skip(i as int)[0] == v[i as int]);
            if str_eq(self.opt_args[i].0, long) {
                return Some(&self.opt_args[i].1);
            }
            i += 1;
        }
        assert(v.skip(i as int).len() == 0);
        None
    }

    /// Whether an option with long name `long` was given.
    pub fn has_opt(&self, long: &str) -> (r: bool)
        ensures
            r == has_opt(self.view_of().opts, long@),
    {
        let mut i: usize = 0;
        while i < self.opt_args.len()
            invariant
                i <= self.opt_args@.len(),
                forall|j: int| 0 <= j < i ==> self.opt_args@[j].0@ != long@,
            decreases self.opt_args@.len() - i,
        {
            if str_eq(self.opt_args[i].0, long) {
                assert(self.view_of().opts[i as int].0 == long@);
                return true;
            }
            i += 1;
        }
        proof {
            if has_opt(self.view_of().opts, long@) {
                let j = choose|j: int| 0 <= j < self.view_of().opts.len() && (#[trigger] self.view_of().opts[j]).0 == long@;
                assert(self.opt_args@[j].0@ == long@);
            }
        }
        false
    }
}

/// Parses the rest of the arguments as options, flags and free arguments,
/// up to the end or the first error.
pub fn parse_opts(p: &mut Parse, opts: &[Opt]) -> (r: Result<(), ErrorMsg>)
    requires
        old(p).next <= old(p).argv@.len(),
    ensures
        final(p).argv@ == old(p).argv@,
        final(p).args.subcommand == old(p).args.subcommand,
        match r {
            Ok(()) => parse_opts_from(argv_view(old(p).argv@), old(p).next as nat, opts@, old(p).args.view_of())
                == Ok::<ArgsView, Seq<char>>(final(p).args.view_of())
                && final(p).next == final(p).argv@.len(),
            Err(e) => parse_opts_from(argv_view(old(p).argv@), old(p).next as nat, opts@, old(p).args.view_of())
                == Err::<ArgsView, Seq<char>>(e.msg@),
        },
{
    let ghost argv = argv_view(p.argv@);
    let ghost goal = parse_opts_from(argv, p.next as nat, opts@, p.args.view_of());
    while p.next < p.argv.len()
        invariant
            argv == argv_view(p.argv@),
            p.argv@ == old(p).argv@,
            p.args.subcommand == old(p).args.subcommand,
            p.next <= p.argv@.len(),
            goal == parse_opts_from(argv, p.next as nat, opts@, p.args.view_of()),
            goal == parse_opts_from(argv_view(old(p).argv@), old(p).next as nat, opts@, old(p).args.view_of()),
        decreases p.argv@.len() - p.next,
    {
        let i = p.next;
        let ghost a = p.args.view_of();
        let class = match &p.argv[i] {
            Some(arg) => classify_exec(arg.as_str()),
            None => ArgClass::Free,
        };
        assert(arg_class_view(class) == match argv[i as int] {
            Some(arg) => classify(arg),
            None => ArgKind::Free,
        });
        proof {
            lemma_first_match(opts@, match arg_class_view(class) {
                ArgKind::Opt { name, .. } => name,
                ArgKind::Free => Seq::empty(),
            }, match arg_class_view(class) {
                ArgKind::Opt { is_long, .. } => is_long,
                ArgKind::Free => false,
            });
        }
        match class {
            ArgClass::Free => {
                p.args.free_args.push(i);
                p.next = i + 1;
                assert(p.args.view_of().free =~= a.free.push(i as nat));
                assert(p.args.view_of().opts =~= a.opts);
                assert(p.args.view_of().flags =~= a.flags);
            },
            ArgClass::Opt { name, param, is_long } => {
                match first_match_exec(opts, &name, is_long) {
                    None => {
                        let mut msg = String::from_str("don't understand option ");
                        msg.append(if is_long { "--" } else { "-" });
                        msg.append(name.as_str());
                        return Err(ErrorMsg { msg });
                    },
                    Some(k) => {
                        let opt = &opts[k];
                        if opt.flag {
                            if param.is_some() {
                                let mut msg = String::from_str("flag --");
                                msg.append(opt.long);
                                msg.append(" doesn't take an argument");
                                return Err(ErrorMsg { msg });
                            }
                            p.args.flags.push(opt.long);
                            p.next = i + 1;
                            assert(p.args.view_of().flags =~= a.flags.push(opt.long@));
                            assert(p.args.view_of().free =~= a.free);
                            assert(p.args.view_of().opts =~= a.opts);
                        } else {
                            let (value, next) = match param {
                                Some(s) => (Param::Inline(s), i + 1),
                                None => {
                                    if i + 1 >= p.argv.len() {
                                        let mut msg = String::from_str("expected an argument after --");
                                        msg.append(opt.long);
                                        return Err(ErrorMsg { msg });
                                    }
                                    (Param::Next(i + 1), i + 2)
                                },
                            };
                            if p.args.has_opt(opt.long) {
                                let mut msg = String::from_str("you already passed --");
                                msg.append(opt.long);
                                return Err(ErrorMsg { msg });
                            }
                            let ghost pv = param_view(value);
                            p.args.opt_args.push((opt.long, value));
                            p.next = next;
                            assert(p.args.view_of().opts =~= a.opts.push((opt.long@, pv)));
                            assert(p.args.view_of().free =~= a.free);
                            assert(p.args.view_of().flags =~= a.flags);
                        }
                    },
                }
            },
        }
    }
    Ok(())
}

pub open spec fn spec_help_opt() -> Opt {
    Opt { short: "h", long: "help", flag: true, help: "-h, --help                show help" }
}

pub open spec fn spec_output_opt() -> Opt {
    Opt { short: "o", long: "output", flag: false, help: "-o, --output <outdir>     place output files here (will be created)" }
}

pub open spec fn spec_all_animations_opt() -> Opt {
    Opt {
        short: "",
        long: "all-animations",
        flag: true,
        help: "--all-animations          don't guess which joint anims go with a model, just try them all",
    }
}

pub open spec fn spec_more_textures_opt() -> Opt {
    Opt { short: "", long: "more-textures", flag: true, help: "--more-textures           try to dump images for unused textures too" }
}

pub open spec fn spec_format_opt() -> Opt {
    Opt { short: "f", long: "format", flag: false, help: "-f, --format <format>     output model format (dae, glb, gltf)" }
}

/// The options each command takes.
pub open spec fn spec_command_opts(command: Seq<char>) -> Seq<Opt> {
    if command == "extract"@ {
        seq![spec_output_opt(), spec_help_opt()]
    } else if command == "convert"@ {
        seq![spec_output_opt(), spec_format_opt(), spec_more_textures_opt(), spec_all_animations_opt(), spec_help_opt()]
    } else if command == "view"@ {
        seq![spec_all_animations_opt(), spec_help_opt()]
    } else {
        seq![spec_help_opt()]
    }
}

/// The options each command takes.
pub fn command_opts(command: &str) -> (opts: Vec<Opt>)
    ensures
        opts@ == spec_command_opts(command@),
{
    let help = Opt { short: "h", long: "help", flag: true, help: "-h, --help                show help" };
    let output = Opt { short: "o", long: "output", flag: false, help: "-o, --output <outdir>     place output files here (will be created)" };
    let all_animations = Opt {
        short: "",
        long: "all-animations",
        flag: true,
        help: "--all-animations          don't guess which joint anims go with a model, just try them all",
    };
    let more_textures = Opt { short: "", long: "more-textures", flag: true, help: "--more-textures           try to dump images for unused textures too" };
    let format = Opt { short: "f", long: "format", flag: false, help: "-f, --format <format>     output model format (dae, glb, gltf)" };
    let v = if str_eq(command, "extract") {
        vec![output, help]
    } else if str_eq(command, "convert") {
        vec![output, format, more_textures, all_animations, help]
    } else if str_eq(command, "view") {
        vec![all_animations, help]
    } else {
        vec![help]
    };
    assert(v@ =~= spec_command_opts(command@));
    v
}

/// The hint printed after an error message.
#[derive(Debug, Copy, Clone, PartialEq, Eq, Structural)]
pub enum Hint {
    /// Nothing follows the message.
    NoHint,
    /// "use `apicula help` for help"
    UseHelpCommand,
    /// "Pass --help if you need help."
    PassHelp,
}

/// What the command line asks for.
pub enum CliRequest {
    /// Run `args.subcommand` with these arguments, which passed every check
    /// but the one for an existing output directory.
    Run(Args),
    /// Show the usage text.
    Usage,
    /// Show the help of this command.
    CommandHelp(&'static str),
    /// Show the version.
    Version,
    /// The command (the first argument) is not valid Unicode.
    UnreadableCommand,
    /// Fail with this message and hint.
    Fail { msg: String, hint: Hint },
}

pub enum RequestView {
    Run { subcommand: Seq<char>, args: ArgsView },
    Usage,
    CommandHelp(Seq<char>),
    Version,
    UnreadableCommand,
    Fail { msg: Seq<char>, hint: Hint },
}

pub open spec fn request_view(r: CliRequest) -> RequestView {
    match r {
        CliRequest::Run(a) => RequestView::Run { subcommand: a.subcommand@, args: a.view_of() },
        CliRequest::Usage => RequestView::Usage,
        CliRequest::CommandHelp(c) => RequestView::CommandHelp(c@),
        CliRequest::Version => RequestView::Version,
        CliRequest::UnreadableCommand => RequestView::UnreadableCommand,
        CliRequest::Fail { msg, hint } => RequestView::Fail { msg: msg@, hint },
    }
}

/// The command a first argument names (`x`/`extract`, `v`/`view`,
/// `c`/`convert`, `i`/`info`).
pub open spec fn command_name(arg: Seq<char>) -> Option<Seq<char>> {
    if arg == "x"@ || arg == "extract"@ {
        Some("extract"@)
    } else if arg == "v"@ || arg == "view"@ {
        Some("view"@)
    } else if arg == "c"@ || arg == "convert"@ {
        Some("convert"@)
    } else if arg == "i"@ || arg == "info"@ {
        Some("info"@)
    } else {
        None
    }
}

/// Nothing found yet.
pub open spec fn empty_args() -> ArgsView {
    ArgsView { free: Seq::empty(), opts: Seq::empty(), flags: Seq::empty() }
}

/// The text of the argument of option `long`, if it was given (`None` also
/// for an argument that is not valid Unicode).
pub open spec fn opt_text(argv: Seq<Option<Seq<char>>>, a: ArgsView, long: Seq<char>) -> Option<Seq<char>> {
    if has_opt(a.opts, long) {
        let i = choose|i: int| 0 <= i < a.opts.len() && (#[trigger] a.opts[i]).0 == long;
        match a.opts[i].1 {
            ParamView::Inline(s) => Some(s),
            ParamView::Next(k) => argv[k as int],
        }
    } else {
        None
    }
}

/// The checks each command makes of its arguments.
pub open spec fn check_args(argv: Seq<Option<Seq<char>>>, cmd: Seq<char>, a: ArgsView) -> RequestView {
    let run = RequestView::Run { subcommand: cmd, args: a };
    let no_output = RequestView::Fail { msg: "where do I put the output files? Pass it with --output"@, hint: Hint::NoHint };
    if cmd == "extract"@ {
        if a.free.len() == 0 {
            RequestView::Fail { msg: "pass the file you want to extract from"@, hint: Hint::NoHint }
        } else if a.free.len() > 1 {
            RequestView::Fail { msg: "too many input files! I only need one"@, hint: Hint::NoHint }
        } else if !has_opt(a.opts, "output"@) {
            no_output
        } else {
            run
        }
    } else if a.free.len() == 0 {
        RequestView::Fail { msg: "give me some input files"@, hint: Hint::NoHint }
    } else if cmd == "convert"@ {
        if has_opt(a.opts, "format"@) && !(opt_text(argv, a, "format"@) == Some("dae"@)
            || opt_text(argv, a, "format"@) == Some("glb"@) || opt_text(argv, a, "format"@) == Some("gltf"@))
        {
            RequestView::Fail { msg: "bad output format, should be one of: dae glb gltf"@, hint: Hint::NoHint }
        } else if !has_opt(a.opts, "output"@) {
            no_output
        } else {
            run
        }
    } else {
        run
    }
}

/// What the command line `argv` (the program's name first) asks for.
pub open spec fn spec_cli_request(argv: Seq<Option<Seq<char>>>) -> RequestView {
    if argv.len() < 2 {
        RequestView::Usage
    } else {
        match argv[1] {
            None => RequestView::UnreadableCommand,
            Some(arg) => if arg == "help"@ {
                if argv.len() >= 3 && argv[2] is Some && command_name(argv[2]->Some_0) is Some
                    && command_name(argv[2]->Some_0) == Some(argv[2]->Some_0) {
                    RequestView::CommandHelp(argv[2]->Some_0)
                } else {
                    RequestView::Usage
                }
            } else if arg == "-h"@ || arg == "--help"@ {
                RequestView::Usage
            } else if arg == "-V"@ || arg == "--version"@ {
                RequestView::Version
            } else {
                match command_name(arg) {
                    None => RequestView::Fail { msg: "don't understand "@ + arg, hint: Hint::UseHelpCommand },
                    Some(cmd) => match parse_opts_from(argv, 2, spec_command_opts(cmd), empty_args()) {
                        Err(m) => RequestView::Fail { msg: m, hint: Hint::PassHelp },
                        Ok(a) => if a.flags.contains("help"@) {
                            RequestView::CommandHelp(cmd)
                        } else {
                            check_args(argv, cmd, a)
                        },
                    },
                }
            },
        }
    }
}

/// No option was given twice, and every option argument that is a whole
/// command-line argument is one of the `n` arguments.
pub open spec fn opts_ok(a: ArgsView, n: nat) -> bool {
    &&& forall|i: int, j: int| 0 <= i < a.opts.len() && 0 <= j < a.opts.len() && i != j
        ==> (#[trigger] a.opts[i]).0 != (#[trigger] a.opts[j]).0
    &&& forall|i: int| 0 <= i < a.opts.len() ==> ((#[trigger] a.opts[i]).1 matches ParamView::Next(k) ==> k < n)
}

/// What `parse_opts` finds keeps no option twice, and the arguments it
/// takes whole are arguments of the command line.
pub proof fn lemma_parse_opts_ok(argv: Seq<Option<Seq<char>>>, i: nat, opts: Seq<Opt>, a: ArgsView)
    requires
        opts_ok(a, argv.len()),
    ensures
        parse_opts_from(argv, i, opts, a) matches Ok(r) ==> opts_ok(r, argv.len()),
    decreases argv.len() - i,
{
    if i < argv.len() {
        let free = ArgsView { free: a.free.push(i), ..a };
        match argv[i as int] {
            None => lemma_parse_opts_ok(argv, i + 1, opts, free),
            Some(arg) => match classify(arg) {
                ArgKind::Free => lemma_parse_opts_ok(argv, i + 1, opts, free),
                ArgKind::Opt { name, param, is_long } => match first_match(opts, name, is_long) {
                    None => {},
                    Some(k) => {
                        let long = opts[k as int].long@;
                        if opts[k as int].flag {
                            if param is None {
                                lemma_parse_opts_ok(argv, i + 1, opts, ArgsView { flags: a.flags.push(long), ..a });
                            }
                        } else if param is None && i + 1 >= argv.len() {
                        } else if has_opt(a.opts, long) {
                        } else {
                            let (pv, next) = match param {
                                Some(p) => (ParamView::Inline(p), i + 1),
                                None => (ParamView::Next(i + 1), i + 2),
                            };
                            let b = ArgsView { opts: a.opts.push((long, pv)), ..a };
                            assert forall|x: int, y: int| 0 <= x < b.opts.len() && 0 <= y < b.opts.len() && x != y
                                implies (#[trigger] b.opts[x]).0 != (#[trigger] b.opts[y]).0 by {
                                if x == a.opts.len() as int {
                                    assert(b.opts[y] == a.opts[y]);
                                } else if y == a.opts.len() as int {
                                    assert(b.opts[x] == a.opts[x]);
                                }
                            }
                            lemma_parse_opts_ok(argv, next, opts, b);
                        }
                    },
                },
            },
        }
    }
}

/// The text of the argument of option `long`, if it was given.
fn get_opt_text<'a>(argv: &'a Vec<Option<String>>, args: &'a Args, long: &str) -> (r: Option<&'a String>)
    requires
        opts_ok(args.view_of(), argv@.len()),
    ensures
        match r {
            Some(s) => opt_text(argv_view(argv@), args.view_of(), long@) == Some(s@),
            None => opt_text(argv_view(argv@), args.view_of(), long@) is None,
        },
{
    let mut i: usize = 0;
    while i < args.opt_args.len()
        invariant
            i <= args.opt_args@.len(),
            opts_ok(args.view_of(), argv@.len()),
            forall|j: int| 0 <= j < i ==> args.opt_args@[j].0@ != long@,
        decreases args.opt_args@.len() - i,
    {
        if str_eq(args.opt_args[i].0, long) {
            proof {
                let v = args.view_of();
                assert(v.opts[i as int].0 == long@);
                let j = choose|j: int| 0 <= j < v.opts.len() && (#[trigger] v.opts[j]).0 == long@;
                if j != i {
                    assert(v.opts[j].0 != v.opts[i as int].0);
                }
            }
            return match &args.opt_args[i].1 {
                Param::Inline(s) => Some(s),
                Param::Next(k) => match &argv[*k] {
                    Some(s) => Some(s),
                    None => None,
                },
            };
        }
        i += 1;
    }
    proof {
        if has_opt(args.view_of().opts, long@) {
            let j = choose|j: int| 0 <= j < args.view_of().opts.len() && (#[trigger] args.view_of().opts[j]).0 == long@;
            assert(args.opt_args@[j].0@ == long@);
        }
    }
    None
}

/// Whether the flag `long` was given.
fn has_flag(args: &Args, long: &str) -> (r: bool)
    ensures
        r == args.view_of().flags.contains(long@),
{
    let mut i: usize = 0;
    while i < args.flags.len()
        invariant
            i <= args.flags@.len(),
            forall|j: int| 0 <= j < i ==> args.flags@[j]@ != long@,
        decreases args.flags@.len() - i,
    {
        if str_eq(args.flags[i], long) {
            assert(args.view_of().flags[i as int] == long@);
            return true;
        }
        i += 1;
    }
    proof {
        if args.view_of().flags.contains(long@) {
            let j = choose|j: int| 0 <= j < args.view_of().flags.len() && args.view_of().flags[j] == long@;
            assert(args.flags@[j]@ == long@);
        }
    }
    false
}

fn fail(msg: &str, hint: Hint) -> (r: CliRequest)
    ensures
        request_view(r) == (RequestView::Fail { msg: msg@, hint }),
{
    CliRequest::Fail { msg: msg.to_owned(), hint }
}

/// What the command line `argv` (the program's name first) asks for.
pub fn parse_cli_args(argv: Vec<Option<String>>) -> (r: CliRequest)
    ensures
        request_view(r) == spec_cli_request(argv_view(argv@)),
{
    let ghost av = argv_view(argv@);
    if argv.len() < 2 {
        return CliRequest::Usage;
    }
    let cmd: &'static str = match &argv[1] {
        None => return CliRequest::UnreadableCommand,
        Some(arg) => {
            let arg = arg.as_str();
            assert(av[1] == Some(arg@));
            if str_eq(arg, "help") {
                if argv.len() >= 3 {
                    if let Some(c) = &argv[2] {
                        assert(av[2] == Some(c@));
                        proof {
                            reveal_strlit("x");
                            reveal_strlit("extract");
                            reveal_strlit("v");
                            reveal_strlit("view");
                            reveal_strlit("c");
                            reveal_strlit("convert");
                            reveal_strlit("i");
                            reveal_strlit("info");
                        }
                        if str_eq(c.as_str(), "extract") {
                            return CliRequest::CommandHelp("extract");
                        } else if str_eq(c.as_str(), "view") {
                            return CliRequest::CommandHelp("view");
                        } else if str_eq(c.as_str(), "convert") {
                            return CliRequest::CommandHelp("convert");
                        } else if str_eq(c.as_str(), "info") {
                            return CliRequest::CommandHelp("info");
                        }
                    }
                }
                return CliRequest::Usage;
            } else if str_eq(arg, "-h") || str_eq(arg, "--help") {
                return CliRequest::Usage;
            } else if str_eq(arg, "-V") || str_eq(arg, "--version") {
                return CliRequest::Version;
            } else if str_eq(arg, "x") || str_eq(arg, "extract") {
                "extract"
            } else if str_eq(arg, "v") || str_eq(arg, "view") {
                "view"
            } else if str_eq(arg, "c") || str_eq(arg, "convert") {
                "convert"
            } else if str_eq(arg, "i") || str_eq(arg, "info") {
                "info"
            } else {
                let mut msg = String::from_str("don't understand ");
                msg.append(arg);
                return CliRequest::Fail { msg, hint: Hint::UseHelpCommand };
            }
        },
    };
    assert(av[1] is Some && command_name(av[1]->Some_0) == Some(cmd@));
    let opts = command_opts(cmd);
    let mut p = Parse {
        argv,
        next: 2,
        args: Args { subcommand: cmd, free_args: Vec::new(), opt_args: Vec::new(), flags: Vec::new() },
    };
    assert(p.args.view_of().free =~= empty_args().free);
    assert(p.args.view_of().opts =~= empty_args().opts);
    assert(p.args.view_of().flags =~= empty_args().flags);
    match parse_opts(&mut p, opts.as_slice()) {
        Err(e) => return CliRequest::Fail { msg: e.msg, hint: Hint::PassHelp },
        Ok(()) => {},
    }
    proof {
        lemma_parse_opts_ok(av, 2, spec_command_opts(cmd@), empty_args());
    }
    if has_flag(&p.args, "help") {
        return CliRequest::CommandHelp(cmd);
    }
    let n_free = p.args.free_args.len();
    if str_eq(cmd, "extract") {
        if n_free == 0 {
            return fail("pass the file you want to extract from", Hint::NoHint);
        } else if n_free > 1 {
            return fail("too many input files! I only need one", Hint::NoHint);
        } else if !p.args.has_opt("output") {
            return fail("where do I put the output files? Pass it with --output", Hint::NoHint);
        }
    } else if n_free == 0 {
        return fail("give me some input files", Hint::NoHint);
    } else if str_eq(cmd, "convert") {
        if p.args.has_opt("format") {
            let ok = match get_opt_text(&p.argv, &p.args, "format") {
                Some(f) => str_eq(f.as_str(), "dae") || str_eq(f.as_str(), "glb") || str_eq(f.as_str(), "gltf"),
                None => false,
            };
            if !ok {
                return fail("bad output format, should be one of: dae glb gltf", Hint::NoHint);
            }
        }
        if !p.args.has_opt("output") {
            return fail("where do I put the output files? Pass it with --output", Hint::NoHint);
        }
    }
    CliRequest::Run(p.args)
}

} // verus!
