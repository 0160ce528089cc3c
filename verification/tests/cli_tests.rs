use sce_core::cli::{
    constitution_about, ChainCommands, Cli, Commands, ConstitutionCommands, GraphCommands, OperatorCommands,
    RefCommands, TranslationCommands,
};
use sce_core::cli_scan::CliErrorKind;

#[test]
fn parses_watch_trends_defaults() {
    let cli = Cli::try_parse_from(&["sce_cli", "watch-trends", "--project-root", "/tmp/project"]).expect("parse");
    match cli.command {
        Commands::WatchTrends { project_root, last_n, interval_seconds } => {
            assert_eq!(project_root, "/tmp/project");
            assert_eq!(last_n, 25);
            assert_eq!(interval_seconds, 30);
        }
        _ => panic!("expected watch-trends command"),
    }
}

#[test]
fn parses_suggest_constitution_defaults() {
    let cli = Cli::try_parse_from(&["sce_cli", "suggest-constitution", "--project-root", "/tmp/project"])
        .expect("parse");
    match cli.command {
        Commands::SuggestConstitution { project_root, last_n, out } => {
            assert_eq!(project_root, "/tmp/project");
            assert_eq!(last_n, 25);
            assert!(out.is_none());
        }
        _ => panic!("expected suggest-constitution command"),
    }
}

#[test]
fn parses_constitution_subcommands() {
    let cli = Cli::try_parse_from(&[
        "sce_cli",
        "constitution",
        "impact",
        "--project-root",
        "/tmp/project",
        "--version",
        "v1.1",
        "--last-n",
        "50",
    ])
    .expect("parse");
    match cli.command {
        Commands::Constitution { command } => match command {
            ConstitutionCommands::Impact { project_root, version, last_n } => {
                assert_eq!(project_root, "/tmp/project");
                assert_eq!(version, "v1.1");
                assert_eq!(last_n, 50);
            }
            _ => panic!("expected impact subcommand"),
        },
        _ => panic!("expected constitution command"),
    }
}

#[test]
fn constitution_help_contains_examples() {
    let expected = [
        ("init", "Example: sce_cli constitution init"),
        ("add", "Example: sce_cli constitution add"),
        ("status", "Example: sce_cli constitution status"),
        ("shadow", "Example: sce_cli constitution shadow"),
        ("impact", "Example: sce_cli constitution impact"),
        ("canary", "Example: sce_cli constitution canary"),
        ("activate", "Example: sce_cli constitution activate"),
    ];
    for (name, snippet) in expected {
        let about = constitution_about(name).expect("subcommand about").to_string();
        assert!(about.contains(snippet), "expected {name} about to contain snippet {snippet}, got: {about}");
    }
}

#[test]
fn parses_commit7_commands() {
    let refs_cli = Cli::try_parse_from(&[
        "sce_cli",
        "refs",
        "add",
        "--project-root",
        "/tmp/project",
        "--file",
        "/tmp/ref.wav",
        "--name",
        "Alpha",
        "--tags",
        "warm,bright",
        "--copy-file",
    ])
    .expect("parse refs add");
    match refs_cli.command {
        Commands::Refs { command } => match command {
            RefCommands::Add { project_root, file, name, tags, copy_file } => {
                assert_eq!(project_root, "/tmp/project");
                assert_eq!(file, "/tmp/ref.wav");
                assert_eq!(name.as_deref(), Some("Alpha"));
                assert_eq!(tags, "warm,bright");
                assert!(copy_file);
            }
            _ => panic!("expected refs add"),
        },
        _ => panic!("expected refs command"),
    }

    let operators_cli = Cli::try_parse_from(&[
        "sce_cli",
        "operators",
        "run",
        "mixops_ci",
        "--project-root",
        "/tmp/project",
        "--last-n",
        "10",
    ])
    .expect("parse operators run");
    match operators_cli.command {
        Commands::Operators { command } => match command {
            OperatorCommands::Run { name, project_root, run_id, last_n } => {
                assert_eq!(name, "mixops_ci");
                assert_eq!(project_root, "/tmp/project");
                assert!(run_id.is_none());
                assert_eq!(last_n, 10);
            }
            _ => panic!("expected operators run"),
        },
        _ => panic!("expected operators command"),
    }
}

#[test]
fn parses_translation_graph_and_chain_commands() {
    let translation_cli = Cli::try_parse_from(&[
        "sce_cli",
        "translation",
        "run",
        "--project-root",
        "/tmp/project",
        "--run-id",
        "run-1",
    ])
    .expect("parse translation");
    match translation_cli.command {
        Commands::Translation { command } => match command {
            TranslationCommands::Run { project_root, run_id } => {
                assert_eq!(project_root, "/tmp/project");
                assert_eq!(run_id, "run-1");
            }
        },
        _ => panic!("expected translation command"),
    }

    let graph_cli = Cli::try_parse_from(&[
        "sce_cli",
        "graph",
        "export-dot",
        "--project-root",
        "/tmp/project",
        "--out",
        "/tmp/graph.dot",
    ])
    .expect("parse graph export");
    match graph_cli.command {
        Commands::Graph { command } => match command {
            GraphCommands::ExportDot { project_root, out } => {
                assert_eq!(project_root, "/tmp/project");
                assert_eq!(out.as_deref(), Some("/tmp/graph.dot"));
            }
            _ => panic!("expected graph export"),
        },
        _ => panic!("expected graph command"),
    }

    let chain_cli = Cli::try_parse_from(&[
        "sce_cli",
        "chain",
        "show",
        "--project-root",
        "/tmp/project",
        "--run-id",
        "run-1",
    ])
    .expect("parse chain show");
    match chain_cli.command {
        Commands::Chain { command } => match command {
            ChainCommands::Show { project_root, run_id } => {
                assert_eq!(project_root, "/tmp/project");
                assert_eq!(run_id, "run-1");
            }
        },
        _ => panic!("expected chain command"),
    }
}

fn error_kind(args: &[&str]) -> CliErrorKind {
    match Cli::try_parse_from(args) {
        Ok(cli) => panic!("expected an error, got {:?}", cli),
        Err(e) => e.kind,
    }
}

#[test]
fn db_url_defaults_and_can_be_set_before_the_subcommand() {
    let cli = Cli::try_parse_from(&["sce_cli", "trends", "--project-root", "/p"]).expect("parse");
    assert_eq!(cli.db_url, "sqlite://./sce.db");
    let cli = Cli::try_parse_from(&["sce_cli", "--db-url", "sqlite://x.db", "trends", "--project-root", "/p"]).expect("parse");
    assert_eq!(cli.db_url, "sqlite://x.db");
    let cli = Cli::try_parse_from(&["sce_cli", "--db-url=sqlite://y.db", "trends", "--project-root=/p", "--last-n=0"])
        .expect("parse");
    assert_eq!(cli.db_url, "sqlite://y.db");
    match cli.command {
        Commands::Trends { project_root, last_n } => {
            assert_eq!(project_root, "/p");
            assert_eq!(last_n, 0);
        }
        _ => panic!("expected trends"),
    }
}

#[test]
fn command_line_errors_are_classified() {
    assert_eq!(error_kind(&["sce_cli"]), CliErrorKind::MissingSubcommand);
    assert_eq!(error_kind(&["sce_cli", "bogus"]), CliErrorKind::UnknownSubcommand);
    assert_eq!(error_kind(&["sce_cli", "trends"]), CliErrorKind::MissingRequired);
    assert_eq!(error_kind(&["sce_cli", "trends", "--project-root"]), CliErrorKind::MissingValue);
    assert_eq!(error_kind(&["sce_cli", "trends", "--project-root", ""]), CliErrorKind::InvalidValue);
    assert_eq!(error_kind(&["sce_cli", "trends", "--project-root", "/p", "--last-n", "x"]), CliErrorKind::InvalidValue);
    assert_eq!(error_kind(&["sce_cli", "trends", "--project-root", "/p", "--project-root", "/q"]), CliErrorKind::Duplicate);
    assert_eq!(error_kind(&["sce_cli", "trends", "--project-root", "/p", "--bogus", "1"]), CliErrorKind::Unexpected);
    assert_eq!(error_kind(&["sce_cli", "trends", "--project-root", "/p", "extra"]), CliErrorKind::Unexpected);
    assert_eq!(error_kind(&["sce_cli", "watch-trends", "--project-root", "/p", "--interval-seconds", "0"]), CliErrorKind::InvalidValue);
    assert_eq!(error_kind(&["sce_cli", "refs", "add", "--project-root", "/p", "--file", "/f", "--copy-file=true"]), CliErrorKind::UnexpectedValue);
    assert_eq!(error_kind(&["sce_cli", "operators", "run", "--project-root", "/p"]), CliErrorKind::MissingRequired);
    assert_eq!(error_kind(&["sce_cli", "constitution"]), CliErrorKind::MissingSubcommand);
    assert_eq!(error_kind(&["sce_cli", "constitution", "nope"]), CliErrorKind::UnknownSubcommand);
    assert_eq!(error_kind(&["sce_cli", "--help"]), CliErrorKind::Help);
    assert_eq!(error_kind(&["sce_cli", "trends", "--db-url", "x", "--project-root", "/p"]), CliErrorKind::Unexpected);
}

#[test]
fn constitution_defaults_and_numbers() {
    let cli = Cli::try_parse_from(&["sce_cli", "constitution", "init", "--project-root", "/p"]).expect("parse");
    match cli.command {
        Commands::Constitution { command: ConstitutionCommands::Init { project_root, version } } => {
            assert_eq!(project_root, "/p");
            assert_eq!(version, "v1.0");
        }
        _ => panic!("expected init"),
    }
    let cli = Cli::try_parse_from(&[
        "sce_cli", "constitution", "canary", "--project-root", "/p", "--version", "v2", "--budget-runs", "+7",
    ])
    .expect("parse");
    match cli.command {
        Commands::Constitution { command: ConstitutionCommands::Canary { budget_runs, .. } } => assert_eq!(budget_runs, 7),
        _ => panic!("expected canary"),
    }
}

#[test]
fn error_messages_name_the_argument() {
    let err = Cli::try_parse_from(&["sce_cli", "trends"]).expect_err("missing root");
    assert_eq!(err.message(), "the following required argument was not provided: --project-root");
    let err = Cli::try_parse_from(&["sce_cli", "nope"]).expect_err("unknown");
    assert_eq!(err.message(), "unrecognized subcommand 'nope'");
}
