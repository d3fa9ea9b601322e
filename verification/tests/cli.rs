use apicula::cli::{command_opts, parse_cli_args, parse_opts, Args, CliRequest, Hint, Param, Parse};

fn argv(args: &[&str]) -> Vec<Option<String>> {
    args.iter().map(|a| Some(a.to_string())).collect()
}

fn run(args: &[&str]) -> Args {
    match parse_cli_args(argv(args)) {
        CliRequest::Run(a) => a,
        _ => panic!("expected a command to run"),
    }
}

fn fail(args: &[&str]) -> (String, Hint) {
    match parse_cli_args(argv(args)) {
        CliRequest::Fail { msg, hint } => (msg, hint),
        _ => panic!("expected a failure"),
    }
}

#[test]
fn extract_from_a_rom() {
    let a = run(&["apicula", "extract", "rom.nds", "-o", "nitro-files"]);
    assert_eq!(a.subcommand, "extract");
    assert_eq!(a.free_args, vec![2]);
    assert_eq!(a.opt_args.len(), 1);
    assert_eq!(a.opt_args[0].0, "output");
    assert!(matches!(a.opt_args[0].1, Param::Next(4)));
    assert!(a.flags.is_empty());
}

#[test]
fn convert_to_glb() {
    let a = run(&["apicula", "convert", "-f=glb", "my-model.nsbmd", "-o", "out"]);
    assert_eq!(a.subcommand, "convert");
    assert_eq!(a.free_args, vec![3]);
    assert_eq!(a.opt_args[0].0, "format");
    assert!(matches!(&a.opt_args[0].1, Param::Inline(s) if s == "glb"));
    assert_eq!(a.opt_args[1].0, "output");
    assert!(matches!(a.opt_args[1].1, Param::Next(5)));
}

#[test]
fn long_options_and_flags() {
    let a = run(&["apicula", "c", "--format", "gltf", "a", "b", "--output=o", "--more-textures", "--all-animations"]);
    assert_eq!(a.subcommand, "convert");
    assert_eq!(a.free_args, vec![4, 5]);
    assert!(matches!(a.opt_args[0].1, Param::Next(3)));
    assert!(matches!(&a.opt_args[1].1, Param::Inline(s) if s == "o"));
    assert_eq!(a.flags, vec!["more-textures", "all-animations"]);
}

#[test]
fn short_option_with_attached_argument() {
    let a = run(&["apicula", "x", "rom", "-oout"]);
    assert!(matches!(&a.opt_args[0].1, Param::Inline(s) if s == "out"));
}

#[test]
fn view_and_info_take_files() {
    let a = run(&["apicula", "view", "a.nsbmd", "b.nsbtx"]);
    assert_eq!(a.subcommand, "view");
    assert_eq!(a.free_args, vec![2, 3]);
    let a = run(&["apicula", "i", "f"]);
    assert_eq!(a.subcommand, "info");
    // An argument that is not valid Unicode is a free argument.
    match parse_cli_args(vec![Some("apicula".to_string()), Some("view".to_string()), None]) {
        CliRequest::Run(a) => assert_eq!(a.free_args, vec![2]),
        _ => panic!("expected a command to run"),
    }
}

#[test]
fn usage_help_and_version() {
    assert!(matches!(parse_cli_args(argv(&["apicula"])), CliRequest::Usage));
    assert!(matches!(parse_cli_args(argv(&["apicula", "--help"])), CliRequest::Usage));
    assert!(matches!(parse_cli_args(argv(&["apicula", "-h"])), CliRequest::Usage));
    assert!(matches!(parse_cli_args(argv(&["apicula", "help"])), CliRequest::Usage));
    assert!(matches!(parse_cli_args(argv(&["apicula", "help", "x"])), CliRequest::Usage));
    assert!(matches!(parse_cli_args(argv(&["apicula", "help", "view"])), CliRequest::CommandHelp("view")));
    assert!(matches!(parse_cli_args(argv(&["apicula", "help", "convert"])), CliRequest::CommandHelp("convert")));
    assert!(matches!(parse_cli_args(argv(&["apicula", "extract", "--help"])), CliRequest::CommandHelp("extract")));
    assert!(matches!(parse_cli_args(argv(&["apicula", "info", "-h"])), CliRequest::CommandHelp("info")));
    assert!(matches!(parse_cli_args(argv(&["apicula", "-V"])), CliRequest::Version));
    assert!(matches!(parse_cli_args(argv(&["apicula", "--version"])), CliRequest::Version));
    assert!(matches!(parse_cli_args(vec![Some("apicula".to_string()), None]), CliRequest::UnreadableCommand));
}

#[test]
fn option_errors() {
    assert_eq!(fail(&["apicula", "frob"]), ("don't understand frob".to_string(), Hint::UseHelpCommand));
    assert_eq!(
        fail(&["apicula", "view", "--all-animations=yes", "m"]),
        ("flag --all-animations doesn't take an argument".to_string(), Hint::PassHelp)
    );
    assert_eq!(
        fail(&["apicula", "extract", "rom", "-o"]),
        ("expected an argument after --output".to_string(), Hint::PassHelp)
    );
    assert_eq!(
        fail(&["apicula", "extract", "rom", "-o", "a", "--output", "b"]),
        ("you already passed --output".to_string(), Hint::PassHelp)
    );
    assert_eq!(fail(&["apicula", "view", "-z"]), ("don't understand option -z".to_string(), Hint::PassHelp));
    assert_eq!(fail(&["apicula", "view", "-"]), ("don't understand option -".to_string(), Hint::PassHelp));
    assert_eq!(fail(&["apicula", "view", "--frob"]), ("don't understand option --frob".to_string(), Hint::PassHelp));
    // `--more-textures` is only an option of `convert`.
    assert_eq!(
        fail(&["apicula", "view", "m", "--more-textures"]),
        ("don't understand option --more-textures".to_string(), Hint::PassHelp)
    );
}

#[test]
fn argument_checks() {
    assert_eq!(fail(&["apicula", "view"]), ("give me some input files".to_string(), Hint::NoHint));
    assert_eq!(fail(&["apicula", "info"]), ("give me some input files".to_string(), Hint::NoHint));
    assert_eq!(
        fail(&["apicula", "extract", "-o", "x"]),
        ("pass the file you want to extract from".to_string(), Hint::NoHint)
    );
    assert_eq!(
        fail(&["apicula", "extract", "a", "b", "-o", "x"]),
        ("too many input files! I only need one".to_string(), Hint::NoHint)
    );
    assert_eq!(
        fail(&["apicula", "extract", "a"]),
        ("where do I put the output files? Pass it with --output".to_string(), Hint::NoHint)
    );
    assert_eq!(
        fail(&["apicula", "convert", "a"]),
        ("where do I put the output files? Pass it with --output".to_string(), Hint::NoHint)
    );
    assert_eq!(
        fail(&["apicula", "convert", "--format=obj", "a", "-o", "x"]),
        ("bad output format, should be one of: dae glb gltf".to_string(), Hint::NoHint)
    );
    assert_eq!(
        fail(&["apicula", "convert", "-f", "dae", "a"]),
        ("where do I put the output files? Pass it with --output".to_string(), Hint::NoHint)
    );
}

#[test]
fn parse_opts_stops_at_first_error() {
    let opts = command_opts("view");
    let mut p = Parse {
        argv: argv(&["m", "--all-animations", "-q", "n"]),
        next: 0,
        args: Args { subcommand: "view", free_args: vec![], opt_args: vec![], flags: vec![] },
    };
    let r = parse_opts(&mut p, &opts);
    assert_eq!(r.unwrap_err().msg, "don't understand option -q");
    let mut p = Parse {
        argv: argv(&["m", "--all-animations", "n"]),
        next: 0,
        args: Args { subcommand: "view", free_args: vec![], opt_args: vec![], flags: vec![] },
    };
    assert!(parse_opts(&mut p, &opts).is_ok());
    assert_eq!(p.args.free_args, vec![0, 2]);
    assert_eq!(p.args.flags, vec!["all-animations"]);
}

#[test]
fn get_opt_finds_arguments() {
    let a = run(&["apicula", "convert", "-f=glb", "m", "--output", "out"]);
    assert!(matches!(a.get_opt("format"), Some(Param::Inline(s)) if s == "glb"));
    assert!(matches!(a.get_opt("output"), Some(Param::Next(5))));
    assert!(a.get_opt("help").is_none());
}
