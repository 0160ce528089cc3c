//! The command line of `sce_cli`: its subcommands, their options and
//! defaults, and how an argument list is read into a command.
use vstd::prelude::*;
use crate::cli_scan::{
    CliError, CliErrorKind, DeclView, ValueKind, arg_views, decl_views, inline_value, is_dashed,
    is_long, lemma_scan_valid, nones, opt_views, option_key, scan, scan_options, valid_value,
    values_valid,
};
use crate::ordered::views;
use crate::text::{chars_of, parse_uint, spec_parse_uint, str_eq, string_of, to_owned_string};

verus! {

/// The database used when `--db-url` is not given.
pub const DEFAULT_DB_URL: &'static str = "sqlite://./sce.db";

/// A parsed `sce_cli` invocation.
#[derive(Debug)]
pub struct Cli {
    pub db_url: String,
    pub command: Commands,
}

#[derive(Debug)]
pub enum Commands {
    Trends { project_root: String, last_n: usize },
    WatchTrends { project_root: String, last_n: usize, interval_seconds: u64 },
    SuggestConstitution { project_root: String, last_n: usize, out: Option<String> },
    Constitution { command: ConstitutionCommands },
    Refs { command: RefCommands },
    Operators { command: OperatorCommands },
    CiCheck { project_root: String, last_n: usize, run_id: Option<String>, json_out: Option<String> },
    Translation { command: TranslationCommands },
    Graph { command: GraphCommands },
    Chain { command: ChainCommands },
}

#[derive(Debug)]
pub enum ConstitutionCommands {
    Init { project_root: String, version: String },
    Add { project_root: String, version: String, file: String, note: Option<String> },
    Status { project_root: String },
    Shadow { project_root: String, version: String, last_n: usize },
    Impact { project_root: String, version: String, last_n: usize },
    Canary { project_root: String, version: String, budget_runs: u64 },
    Activate { project_root: String, version: String },
}

#[derive(Debug)]
pub enum RefCommands {
    Add { project_root: String, file: String, name: Option<String>, tags: String, copy_file: bool },
    List { project_root: String },
    Show { project_root: String, content_hash: String },
    Remove { project_root: String, content_hash: String },
}

#[derive(Debug)]
pub enum OperatorCommands {
    List,
    Run { name: String, project_root: String, run_id: Option<String>, last_n: usize },
}

#[derive(Debug)]
pub enum TranslationCommands {
    Run { project_root: String, run_id: String },
}

#[derive(Debug)]
pub enum GraphCommands {
    Link { project_root: String, from: String, to: String },
    ExportDot { project_root: String, out: Option<String> },
}

#[derive(Debug)]
pub enum ChainCommands {
    Show { project_root: String, run_id: String },
}

/// A command as plain values.
pub enum CommandView {
    Trends { project_root: Seq<char>, last_n: nat },
    WatchTrends { project_root: Seq<char>, last_n: nat, interval_seconds: nat },
    SuggestConstitution { project_root: Seq<char>, last_n: nat, out: Option<Seq<char>> },
    ConstitutionInit { project_root: Seq<char>, version: Seq<char> },
    ConstitutionAdd { project_root: Seq<char>, version: Seq<char>, file: Seq<char>, note: Option<Seq<char>> },
    ConstitutionStatus { project_root: Seq<char> },
    ConstitutionShadow { project_root: Seq<char>, version: Seq<char>, last_n: nat },
    ConstitutionImpact { project_root: Seq<char>, version: Seq<char>, last_n: nat },
    ConstitutionCanary { project_root: Seq<char>, version: Seq<char>, budget_runs: nat },
    ConstitutionActivate { project_root: Seq<char>, version: Seq<char> },
    RefsAdd { project_root: Seq<char>, file: Seq<char>, name: Option<Seq<char>>, tags: Seq<char>, copy_file: bool },
    RefsList { project_root: Seq<char> },
    RefsShow { project_root: Seq<char>, content_hash: Seq<char> },
    RefsRemove { project_root: Seq<char>, content_hash: Seq<char> },
    OperatorsList,
    OperatorsRun { name: Seq<char>, project_root: Seq<char>, run_id: Option<Seq<char>>, last_n: nat },
    CiCheck { project_root: Seq<char>, last_n: nat, run_id: Option<Seq<char>>, json_out: Option<Seq<char>> },
    TranslationRun { project_root: Seq<char>, run_id: Seq<char> },
    GraphLink { project_root: Seq<char>, from: Seq<char>, to: Seq<char> },
    GraphExportDot { project_root: Seq<char>, out: Option<Seq<char>> },
    ChainShow { project_root: Seq<char>, run_id: Seq<char> },
}

pub open spec fn ov(o: Option<String>) -> Option<Seq<char>> {
    match o {
        Some(s) => Some(s@),
        None => None,
    }
}

impl Commands {
    pub open spec fn view(&self) -> CommandView {
        match self {
            Commands::Trends { project_root, last_n } => CommandView::Trends { project_root: project_root@, last_n: *last_n as nat },
            Commands::WatchTrends { project_root, last_n, interval_seconds } => CommandView::WatchTrends {
                project_root: project_root@, last_n: *last_n as nat, interval_seconds: *interval_seconds as nat,
            },
            Commands::SuggestConstitution { project_root, last_n, out } => CommandView::SuggestConstitution {
                project_root: project_root@, last_n: *last_n as nat, out: ov(*out),
            },
            Commands::Constitution { command } => match command {
                ConstitutionCommands::Init { project_root, version } =>
                    CommandView::ConstitutionInit { project_root: project_root@, version: version@ },
                ConstitutionCommands::Add { project_root, version, file, note } =>
                    CommandView::ConstitutionAdd { project_root: project_root@, version: version@, file: file@, note: ov(*note) },
                ConstitutionCommands::Status { project_root } => CommandView::ConstitutionStatus { project_root: project_root@ },
                ConstitutionCommands::Shadow { project_root, version, last_n } =>
                    CommandView::ConstitutionShadow { project_root: project_root@, version: version@, last_n: *last_n as nat },
                ConstitutionCommands::Impact { project_root, version, last_n } =>
                    CommandView::ConstitutionImpact { project_root: project_root@, version: version@, last_n: *last_n as nat },
                ConstitutionCommands::Canary { project_root, version, budget_runs } =>
                    CommandView::ConstitutionCanary { project_root: project_root@, version: version@, budget_runs: *budget_runs as nat },
                ConstitutionCommands::Activate { project_root, version } =>
                    CommandView::ConstitutionActivate { project_root: project_root@, version: version@ },
            },
            Commands::Refs { command } => match command {
                RefCommands::Add { project_root, file, name, tags, copy_file } => CommandView::RefsAdd {
                    project_root: project_root@, file: file@, name: ov(*name), tags: tags@, copy_file: *copy_file,
                },
                RefCommands::List { project_root } => CommandView::RefsList { project_root: project_root@ },
                RefCommands::Show { project_root, content_hash } =>
                    CommandView::RefsShow { project_root: project_root@, content_hash: content_hash@ },
                RefCommands::Remove { project_root, content_hash } =>
                    CommandView::RefsRemove { project_root: project_root@, content_hash: content_hash@ },
            },
            Commands::Operators { command } => match command {
                OperatorCommands::List => CommandView::OperatorsList,
                OperatorCommands::Run { name, project_root, run_id, last_n } => CommandView::OperatorsRun {
                    name: name@, project_root: project_root@, run_id: ov(*run_id), last_n: *last_n as nat,
                },
            },
            Commands::CiCheck { project_root, last_n, run_id, json_out } => CommandView::CiCheck {
                project_root: project_root@, last_n: *last_n as nat, run_id: ov(*run_id), json_out: ov(*json_out),
            },
            Commands::Translation { command } => match command {
                TranslationCommands::Run { project_root, run_id } =>
                    CommandView::TranslationRun { project_root: project_root@, run_id: run_id@ },
            },
            Commands::Graph { command } => match command {
                GraphCommands::Link { project_root, from, to } =>
                    CommandView::GraphLink { project_root: project_root@, from: from@, to: to@ },
                GraphCommands::ExportDot { project_root, out } =>
                    CommandView::GraphExportDot { project_root: project_root@, out: ov(*out) },
            },
            Commands::Chain { command } => match command {
                ChainCommands::Show { project_root, run_id } =>
                    CommandView::ChainShow { project_root: project_root@, run_id: run_id@ },
            },
        }
    }
}

/// The commands that take options (the leaves of the command tree).
#[derive(Debug, Clone, Copy, PartialEq, Eq, Structural)]
pub enum Leaf {
    Trends,
    WatchTrends,
    SuggestConstitution,
    CiCheck,
    ConstitutionInit,
    ConstitutionAdd,
    ConstitutionStatus,
    ConstitutionShadow,
    ConstitutionImpact,
    ConstitutionCanary,
    ConstitutionActivate,
    RefsAdd,
    RefsList,
    RefsShow,
    RefsRemove,
    OperatorsList,
    OperatorsRun,
    TranslationRun,
    GraphLink,
    GraphExportDot,
    ChainShow,
}

/// The subcommands that group further subcommands.
pub open spec fn is_group(name: Seq<char>) -> bool {
    name == "constitution"@ || name == "refs"@ || name == "operators"@ || name == "translation"@
        || name == "graph"@ || name == "chain"@
}

/// The command named `name` under `group` (the empty group is the top level).
pub open spec fn spec_leaf_of(group: Seq<char>, name: Seq<char>) -> Option<Leaf> {
    if group == ""@ {
        if name == "trends"@ { Some(Leaf::Trends) }
        else if name == "watch-trends"@ { Some(Leaf::WatchTrends) }
        else if name == "suggest-constitution"@ { Some(Leaf::SuggestConstitution) }
        else if name == "ci-check"@ { Some(Leaf::CiCheck) }
        else { None }
    } else if group == "constitution"@ {
        if name == "init"@ { Some(Leaf::ConstitutionInit) }
        else if name == "add"@ { Some(Leaf::ConstitutionAdd) }
        else if name == "status"@ { Some(Leaf::ConstitutionStatus) }
        else if name == "shadow"@ { Some(Leaf::ConstitutionShadow) }
        else if name == "impact"@ { Some(Leaf::ConstitutionImpact) }
        else if name == "canary"@ { Some(Leaf::ConstitutionCanary) }
        else if name == "activate"@ { Some(Leaf::ConstitutionActivate) }
        else { None }
    } else if group == "refs"@ {
        if name == "add"@ { Some(Leaf::RefsAdd) }
        else if name == "list"@ { Some(Leaf::RefsList) }
        else if name == "show"@ { Some(Leaf::RefsShow) }
        else if name == "remove"@ { Some(Leaf::RefsRemove) }
        else { None }
    } else if group == "operators"@ {
        if name == "list"@ { Some(Leaf::OperatorsList) }
        else if name == "run"@ { Some(Leaf::OperatorsRun) }
        else { None }
    } else if group == "translation"@ {
        if name == "run"@ { Some(Leaf::TranslationRun) } else { None }
    } else if group == "graph"@ {
        if name == "link"@ { Some(Leaf::GraphLink) }
        else if name == "export-dot"@ { Some(Leaf::GraphExportDot) }
        else { None }
    } else if group == "chain"@ {
        if name == "show"@ { Some(Leaf::ChainShow) } else { None }
    } else {
        None
    }
}

/// The options of each command, in declaration order.
pub open spec fn spec_decls(leaf: Leaf) -> Seq<DeclView> {
    match leaf {
        Leaf::Trends => seq![("project-root"@, ValueKind::Path), ("last-n"@, ValueKind::Count)],
        Leaf::WatchTrends => seq![
            ("project-root"@, ValueKind::Path), ("last-n"@, ValueKind::Count), ("interval-seconds"@, ValueKind::Interval),
        ],
        Leaf::SuggestConstitution => seq![
            ("project-root"@, ValueKind::Path), ("last-n"@, ValueKind::Count), ("out"@, ValueKind::Path),
        ],
        Leaf::CiCheck => seq![
            ("project-root"@, ValueKind::Path), ("last-n"@, ValueKind::Count), ("run-id"@, ValueKind::Text),
            ("json-out"@, ValueKind::Path),
        ],
        Leaf::ConstitutionInit => seq![("project-root"@, ValueKind::Path), ("version"@, ValueKind::Text)],
        Leaf::ConstitutionAdd => seq![
            ("project-root"@, ValueKind::Path), ("version"@, ValueKind::Text), ("file"@, ValueKind::Path),
            ("note"@, ValueKind::Text),
        ],
        Leaf::ConstitutionStatus => seq![("project-root"@, ValueKind::Path)],
        Leaf::ConstitutionShadow => seq![
            ("project-root"@, ValueKind::Path), ("version"@, ValueKind::Text), ("last-n"@, ValueKind::Count),
        ],
        Leaf::ConstitutionImpact => seq![
            ("project-root"@, ValueKind::Path), ("version"@, ValueKind::Text), ("last-n"@, ValueKind::Count),
        ],
        Leaf::ConstitutionCanary => seq![
            ("project-root"@, ValueKind::Path), ("version"@, ValueKind::Text), ("budget-runs"@, ValueKind::Number),
        ],
        Leaf::ConstitutionActivate => seq![("project-root"@, ValueKind::Path), ("version"@, ValueKind::Text)],
        Leaf::RefsAdd => seq![
            ("project-root"@, ValueKind::Path), ("file"@, ValueKind::Path), ("name"@, ValueKind::Text),
            ("tags"@, ValueKind::Text), ("copy-file"@, ValueKind::Flag),
        ],
        Leaf::RefsList => seq![("project-root"@, ValueKind::Path)],
        Leaf::RefsShow => seq![("project-root"@, ValueKind::Path), ("content-hash"@, ValueKind::Text)],
        Leaf::RefsRemove => seq![("project-root"@, ValueKind::Path), ("content-hash"@, ValueKind::Text)],
        Leaf::OperatorsList => seq![],
        Leaf::OperatorsRun => seq![
            ("project-root"@, ValueKind::Path), ("run-id"@, ValueKind::Text), ("last-n"@, ValueKind::Count),
        ],
        Leaf::TranslationRun => seq![("project-root"@, ValueKind::Path), ("run-id"@, ValueKind::Text)],
        Leaf::GraphLink => seq![("project-root"@, ValueKind::Path), ("from"@, ValueKind::Text), ("to"@, ValueKind::Text)],
        Leaf::GraphExportDot => seq![("project-root"@, ValueKind::Path), ("out"@, ValueKind::Path)],
        Leaf::ChainShow => seq![("project-root"@, ValueKind::Path), ("run-id"@, ValueKind::Text)],
    }
}

/// How many positionals a command takes (only `operators run`: the name).
pub open spec fn spec_max_pos(leaf: Leaf) -> nat {
    if leaf == Leaf::OperatorsRun { 1 } else { 0 }
}

/// The required options of each command, as (place, how the option is shown).
pub open spec fn spec_required(leaf: Leaf) -> Seq<(int, Seq<char>)> {
    match leaf {
        Leaf::OperatorsList => seq![],
        Leaf::ConstitutionInit => seq![(0int, "--project-root"@)],
        Leaf::ConstitutionAdd => seq![(0int, "--project-root"@), (1int, "--version"@), (2int, "--file"@)],
        Leaf::ConstitutionShadow | Leaf::ConstitutionImpact | Leaf::ConstitutionActivate =>
            seq![(0int, "--project-root"@), (1int, "--version"@)],
        Leaf::ConstitutionCanary => seq![(0int, "--project-root"@), (1int, "--version"@), (2int, "--budget-runs"@)],
        Leaf::RefsAdd => seq![(0int, "--project-root"@), (1int, "--file"@)],
        Leaf::RefsShow | Leaf::RefsRemove => seq![(0int, "--project-root"@), (1int, "--content-hash"@)],
        Leaf::TranslationRun | Leaf::ChainShow => seq![(0int, "--project-root"@), (1int, "--run-id"@)],
        Leaf::GraphLink => seq![(0int, "--project-root"@), (1int, "--from"@), (2int, "--to"@)],
        _ => seq![(0int, "--project-root"@)],
    }
}

/// The first required option that was not given.
pub open spec fn first_missing(vals: Seq<Option<Seq<char>>>, req: Seq<(int, Seq<char>)>) -> Option<Seq<char>>
    decreases req.len(),
{
    if req.len() == 0 {
        None
    } else if vals[req[0].0] is None {
        Some(req[0].1)
    } else {
        first_missing(vals, req.drop_first())
    }
}

/// A given value, or the empty text.
pub open spec fn text_of(v: Option<Seq<char>>) -> Seq<char> {
    match v {
        Some(x) => x,
        None => Seq::empty(),
    }
}

/// A count: the given value read as a number, or the default.
pub open spec fn count_or(v: Option<Seq<char>>, d: nat, max: nat) -> nat {
    match v {
        Some(x) => match spec_parse_uint(x, max) {
            Some(n) => n,
            None => 0,
        },
        None => d,
    }
}

/// The command denoted by the values of a command's options, once the
/// required ones are all present.
pub open spec fn spec_command(leaf: Leaf, vals: Seq<Option<Seq<char>>>, pos: Seq<Seq<char>>) -> CommandView {
    let umax = usize::MAX as nat;
    let lmax = u64::MAX as nat;
    match leaf {
        Leaf::Trends => CommandView::Trends { project_root: text_of(vals[0]), last_n: count_or(vals[1], 25, umax) },
        Leaf::WatchTrends => CommandView::WatchTrends {
            project_root: text_of(vals[0]), last_n: count_or(vals[1], 25, umax), interval_seconds: count_or(vals[2], 30, lmax),
        },
        Leaf::SuggestConstitution => CommandView::SuggestConstitution {
            project_root: text_of(vals[0]), last_n: count_or(vals[1], 25, umax), out: vals[2],
        },
        Leaf::CiCheck => CommandView::CiCheck {
            project_root: text_of(vals[0]), last_n: count_or(vals[1], 25, umax), run_id: vals[2], json_out: vals[3],
        },
        Leaf::ConstitutionInit => CommandView::ConstitutionInit {
            project_root: text_of(vals[0]), version: match vals[1] { Some(v) => v, None => "v1.0"@ },
        },
        Leaf::ConstitutionAdd => CommandView::ConstitutionAdd {
            project_root: text_of(vals[0]), version: text_of(vals[1]), file: text_of(vals[2]), note: vals[3],
        },
        Leaf::ConstitutionStatus => CommandView::ConstitutionStatus { project_root: text_of(vals[0]) },
        Leaf::ConstitutionShadow => CommandView::ConstitutionShadow {
            project_root: text_of(vals[0]), version: text_of(vals[1]), last_n: count_or(vals[2], 25, umax),
        },
        Leaf::ConstitutionImpact => CommandView::ConstitutionImpact {
            project_root: text_of(vals[0]), version: text_of(vals[1]), last_n: count_or(vals[2], 25, umax),
        },
        Leaf::ConstitutionCanary => CommandView::ConstitutionCanary {
            project_root: text_of(vals[0]), version: text_of(vals[1]), budget_runs: count_or(vals[2], 0, lmax),
        },
        Leaf::ConstitutionActivate => CommandView::ConstitutionActivate { project_root: text_of(vals[0]), version: text_of(vals[1]) },
        Leaf::RefsAdd => CommandView::RefsAdd {
            project_root: text_of(vals[0]), file: text_of(vals[1]), name: vals[2],
            tags: text_of(vals[3]), copy_file: vals[4] is Some,
        },
        Leaf::RefsList => CommandView::RefsList { project_root: text_of(vals[0]) },
        Leaf::RefsShow => CommandView::RefsShow { project_root: text_of(vals[0]), content_hash: text_of(vals[1]) },
        Leaf::RefsRemove => CommandView::RefsRemove { project_root: text_of(vals[0]), content_hash: text_of(vals[1]) },
        Leaf::OperatorsList => CommandView::OperatorsList,
        Leaf::OperatorsRun => CommandView::OperatorsRun {
            name: pos[0], project_root: text_of(vals[0]), run_id: vals[1], last_n: count_or(vals[2], 25, umax),
        },
        Leaf::TranslationRun => CommandView::TranslationRun { project_root: text_of(vals[0]), run_id: text_of(vals[1]) },
        Leaf::GraphLink => CommandView::GraphLink { project_root: text_of(vals[0]), from: text_of(vals[1]), to: text_of(vals[2]) },
        Leaf::GraphExportDot => CommandView::GraphExportDot { project_root: text_of(vals[0]), out: vals[1] },
        Leaf::ChainShow => CommandView::ChainShow { project_root: text_of(vals[0]), run_id: text_of(vals[1]) },
    }
}

/// The text a command holds for its option `name`: `None` when the command
/// has no text or path option of that name, else the value it holds (for an
/// optional value, `None` when it was not given).
pub open spec fn text_field(cmd: CommandView, name: Seq<char>) -> Option<Option<Seq<char>>> {
    match cmd {
        CommandView::Trends { project_root, .. } => if name == "project-root"@ { Some(Some(project_root)) } else { None },
        CommandView::WatchTrends { project_root, .. } => if name == "project-root"@ { Some(Some(project_root)) } else { None },
        CommandView::SuggestConstitution { project_root, out, .. } =>
            if name == "project-root"@ { Some(Some(project_root)) } else if name == "out"@ { Some(out) } else { None },
        CommandView::ConstitutionInit { project_root, version } =>
            if name == "project-root"@ { Some(Some(project_root)) } else if name == "version"@ { Some(Some(version)) } else { None },
        CommandView::ConstitutionAdd { project_root, version, file, note } =>
            if name == "project-root"@ { Some(Some(project_root)) }
            else if name == "version"@ { Some(Some(version)) }
            else if name == "file"@ { Some(Some(file)) }
            else if name == "note"@ { Some(note) }
            else { None },
        CommandView::ConstitutionStatus { project_root } => if name == "project-root"@ { Some(Some(project_root)) } else { None },
        CommandView::ConstitutionShadow { project_root, version, .. } =>
            if name == "project-root"@ { Some(Some(project_root)) } else if name == "version"@ { Some(Some(version)) } else { None },
        CommandView::ConstitutionImpact { project_root, version, .. } =>
            if name == "project-root"@ { Some(Some(project_root)) } else if name == "version"@ { Some(Some(version)) } else { None },
        CommandView::ConstitutionCanary { project_root, version, .. } =>
            if name == "project-root"@ { Some(Some(project_root)) } else if name == "version"@ { Some(Some(version)) } else { None },
        CommandView::ConstitutionActivate { project_root, version } =>
            if name == "project-root"@ { Some(Some(project_root)) } else if name == "version"@ { Some(Some(version)) } else { None },
        CommandView::RefsAdd { project_root, file, name: n, tags, .. } =>
            if name == "project-root"@ { Some(Some(project_root)) }
            else if name == "file"@ { Some(Some(file)) }
            else if name == "name"@ { Some(n) }
            else if name == "tags"@ { Some(Some(tags)) }
            else { None },
        CommandView::RefsList { project_root } => if name == "project-root"@ { Some(Some(project_root)) } else { None },
        CommandView::RefsShow { project_root, content_hash } =>
            if name == "project-root"@ { Some(Some(project_root)) } else if name == "content-hash"@ { Some(Some(content_hash)) } else { None },
        CommandView::RefsRemove { project_root, content_hash } =>
            if name == "project-root"@ { Some(Some(project_root)) } else if name == "content-hash"@ { Some(Some(content_hash)) } else { None },
        CommandView::OperatorsList => None,
        CommandView::OperatorsRun { project_root, run_id, .. } =>
            if name == "project-root"@ { Some(Some(project_root)) } else if name == "run-id"@ { Some(run_id) } else { None },
        CommandView::CiCheck { project_root, run_id, json_out, .. } =>
            if name == "project-root"@ { Some(Some(project_root)) }
            else if name == "run-id"@ { Some(run_id) }
            else if name == "json-out"@ { Some(json_out) }
            else { None },
        CommandView::TranslationRun { project_root, run_id } =>
            if name == "project-root"@ { Some(Some(project_root)) } else if name == "run-id"@ { Some(Some(run_id)) } else { None },
        CommandView::GraphLink { project_root, from, to } =>
            if name == "project-root"@ { Some(Some(project_root)) }
            else if name == "from"@ { Some(Some(from)) }
            else if name == "to"@ { Some(Some(to)) }
            else { None },
        CommandView::GraphExportDot { project_root, out } =>
            if name == "project-root"@ { Some(Some(project_root)) } else if name == "out"@ { Some(out) } else { None },
        CommandView::ChainShow { project_root, run_id } =>
            if name == "project-root"@ { Some(Some(project_root)) } else if name == "run-id"@ { Some(Some(run_id)) } else { None },
    }
}

/// The number a command holds for its option `name`, if it has a numeric
/// option of that name.
pub open spec fn number_field(cmd: CommandView, name: Seq<char>) -> Option<nat> {
    match cmd {
        CommandView::Trends { last_n, .. } => if name == "last-n"@ { Some(last_n) } else { None },
        CommandView::WatchTrends { last_n, interval_seconds, .. } =>
            if name == "last-n"@ { Some(last_n) } else if name == "interval-seconds"@ { Some(interval_seconds) } else { None },
        CommandView::SuggestConstitution { last_n, .. } => if name == "last-n"@ { Some(last_n) } else { None },
        CommandView::ConstitutionShadow { last_n, .. } => if name == "last-n"@ { Some(last_n) } else { None },
        CommandView::ConstitutionImpact { last_n, .. } => if name == "last-n"@ { Some(last_n) } else { None },
        CommandView::ConstitutionCanary { budget_runs, .. } => if name == "budget-runs"@ { Some(budget_runs) } else { None },
        CommandView::OperatorsRun { last_n, .. } => if name == "last-n"@ { Some(last_n) } else { None },
        CommandView::CiCheck { last_n, .. } => if name == "last-n"@ { Some(last_n) } else { None },
        _ => None,
    }
}

/// The largest value an option of a numeric kind takes.
pub open spec fn kind_max(kind: ValueKind) -> nat {
    if kind == ValueKind::Count { usize::MAX as nat } else { u64::MAX as nat }
}

/// Each option's value lands in the field of the same name: the text given
/// after `--<name>` is that field's text, a number given after `--<name>`
/// is that field's number, and a flag's field says whether it was given.
/// Without the option, `--last-n` is 25, `--interval-seconds` 30, and the
/// version of `constitution init` is `v1.0`.
pub proof fn law_options_fill_their_fields(leaf: Leaf, vals: Seq<Option<Seq<char>>>, pos: Seq<Seq<char>>, i: int)
    requires
        vals.len() == spec_decls(leaf).len(),
        0 <= i < vals.len(),
    ensures
        ({
            let name = spec_decls(leaf)[i].0;
            let kind = spec_decls(leaf)[i].1;
            let cmd = spec_command(leaf, vals, pos);
            &&& (kind == ValueKind::Text || kind == ValueKind::Path) && vals[i] is Some ==> text_field(cmd, name) == Some(vals[i])
            &&& (kind == ValueKind::Count || kind == ValueKind::Number || kind == ValueKind::Interval) && vals[i] is Some
                && spec_parse_uint(vals[i]->Some_0, kind_max(kind)) is Some ==> number_field(cmd, name) == spec_parse_uint(
                vals[i]->Some_0,
                kind_max(kind),
            )
            &&& (kind == ValueKind::Count || kind == ValueKind::Number || kind == ValueKind::Interval) ==> number_field(cmd, name) is Some
            &&& kind == ValueKind::Flag ==> (cmd matches CommandView::RefsAdd { copy_file, .. } && copy_file == (vals[i] is Some)
                && name == "copy-file"@)
            &&& name == "last-n"@ && vals[i] is None ==> number_field(cmd, name) == Some(25nat)
            &&& name == "interval-seconds"@ && vals[i] is None ==> number_field(cmd, name) == Some(30nat)
            &&& leaf == Leaf::ConstitutionInit && name == "version"@ && vals[i] is None ==> text_field(cmd, name) == Some(
                Some("v1.0"@),
            )
        }),
{
    reveal_strlit("project-root");
    reveal_strlit("last-n");
    reveal_strlit("interval-seconds");
    reveal_strlit("out");
    reveal_strlit("run-id");
    reveal_strlit("json-out");
    reveal_strlit("version");
    reveal_strlit("file");
    reveal_strlit("note");
    reveal_strlit("budget-runs");
    reveal_strlit("name");
    reveal_strlit("tags");
    reveal_strlit("copy-file");
    reveal_strlit("content-hash");
    reveal_strlit("from");
    reveal_strlit("to");
    assert("project-root"@[0] == 'p');
    assert("last-n"@[0] == 'l');
    assert("interval-seconds"@[0] == 'i');
    assert("out"@[0] == 'o');
    assert("run-id"@[0] == 'r');
    assert("json-out"@[0] == 'j');
    assert("version"@[0] == 'v');
    assert("file"@[0] == 'f' && "file"@[1] == 'i');
    assert("note"@[0] == 'n' && "note"@[1] == 'o');
    assert("budget-runs"@[0] == 'b');
    assert("name"@[0] == 'n' && "name"@[1] == 'a');
    assert("tags"@[0] == 't' && "tags"@[1] == 'a');
    assert("copy-file"@[0] == 'c' && "copy-file"@[1] == 'o');
    assert("content-hash"@[0] == 'c' && "content-hash"@[1] == 'o' && "content-hash"@[2] == 'n');
    assert("copy-file"@[2] == 'p');
    assert("from"@[0] == 'f' && "from"@[1] == 'r');
    assert("to"@[0] == 't' && "to"@[1] == 'o');
    let umax = usize::MAX as nat;
    let lmax = u64::MAX as nat;
    if vals[i] is Some {
        let x = vals[i]->Some_0;
        assert(count_or(vals[i], 25, umax) == match spec_parse_uint(x, umax) { Some(n) => n, None => 0 });
        assert(count_or(vals[i], 30, lmax) == match spec_parse_uint(x, lmax) { Some(n) => n, None => 0 });
        assert(count_or(vals[i], 0, lmax) == match spec_parse_uint(x, lmax) { Some(n) => n, None => 0 });
        assert(text_of(vals[i]) == x);
    }
}

/// The command built from a command's scanned options: the positional name
/// of `operators run` and the required options must be present.
pub open spec fn spec_build(leaf: Leaf, vals: Seq<Option<Seq<char>>>, pos: Seq<Seq<char>>) -> Result<CommandView, (CliErrorKind, Seq<char>)> {
    if leaf == Leaf::OperatorsRun && pos.len() == 0 {
        Err((CliErrorKind::MissingRequired, "<NAME>"@))
    } else if first_missing(vals, spec_required(leaf)) is Some {
        Err((CliErrorKind::MissingRequired, first_missing(vals, spec_required(leaf))->Some_0))
    } else {
        Ok(spec_command(leaf, vals, pos))
    }
}

/// A command read from the tokens after its name.
pub open spec fn spec_run_leaf(leaf: Leaf, toks: Seq<Seq<char>>) -> Result<CommandView, (CliErrorKind, Seq<char>)> {
    match scan(toks, spec_decls(leaf), nones(spec_decls(leaf).len()), seq![], spec_max_pos(leaf), false) {
        Err(e) => Err(e),
        Ok(r) => spec_build(leaf, r.0, r.1),
    }
}

/// A command read from a subcommand name and the tokens after it.
pub open spec fn spec_dispatch(name: Seq<char>, rest: Seq<Seq<char>>) -> Result<CommandView, (CliErrorKind, Seq<char>)> {
    if name == "help"@ {
        Err((CliErrorKind::Help, name))
    } else if is_group(name) {
        if rest.len() == 0 {
            Err((CliErrorKind::MissingSubcommand, name))
        } else if rest[0] == "help"@ || rest[0] == "-h"@ || rest[0] == "--help"@ {
            Err((CliErrorKind::Help, rest[0]))
        } else if is_dashed(rest[0]) {
            Err((CliErrorKind::Unexpected, rest[0]))
        } else {
            match spec_leaf_of(name, rest[0]) {
                None => Err((CliErrorKind::UnknownSubcommand, rest[0])),
                Some(leaf) => spec_run_leaf(leaf, rest.drop_first()),
            }
        }
    } else {
        match spec_leaf_of(""@, name) {
            None => Err((CliErrorKind::UnknownSubcommand, name)),
            Some(leaf) => spec_run_leaf(leaf, rest),
        }
    }
}

/// The top level: `--db-url` (at most once) and help before the subcommand.
pub open spec fn spec_global(toks: Seq<Seq<char>>, db: Option<Seq<char>>) -> Result<(Seq<char>, CommandView), (CliErrorKind, Seq<char>)>
    decreases toks.len(),
{
    if toks.len() == 0 {
        Err((CliErrorKind::MissingSubcommand, ""@))
    } else {
        let t = toks[0];
        let rest = toks.drop_first();
        if !is_dashed(t) {
            match spec_dispatch(t, rest) {
                Ok(c) => Ok((match db { Some(d) => d, None => "sqlite://./sce.db"@ }, c)),
                Err(e) => Err(e),
            }
        } else if t == "-h"@ || t == "--help"@ {
            Err((CliErrorKind::Help, t))
        } else if is_long(t) && option_key(t.skip(2)) == "db-url"@ {
            if db is Some {
                Err((CliErrorKind::Duplicate, "db-url"@))
            } else {
                match inline_value(t.skip(2)) {
                    Some(v) => spec_global(rest, Some(v)),
                    None => if rest.len() == 0 || is_dashed(rest[0]) {
                        Err((CliErrorKind::MissingValue, "db-url"@))
                    } else {
                        spec_global(rest.drop_first(), Some(rest[0]))
                    },
                }
            }
        } else {
            Err((CliErrorKind::Unexpected, t))
        }
    }
}

/// What an argument list (program name first) denotes: the database URL and
/// the command, or the first error met while reading it.
pub open spec fn spec_parse(args: Seq<Seq<char>>) -> Result<(Seq<char>, CommandView), (CliErrorKind, Seq<char>)> {
    spec_global(if args.len() > 0 { args.drop_first() } else { args }, None)
}


/// The subcommands that group further subcommands.
fn group_name(name: &str) -> (r: bool)
    ensures
        r == is_group(name@),
{
    str_eq(name, "constitution") || str_eq(name, "refs") || str_eq(name, "operators")
        || str_eq(name, "translation") || str_eq(name, "graph") || str_eq(name, "chain")
}

/// The command named `name` under `group` (`""` for the top level).
fn leaf_of(group: &str, name: &str) -> (r: Option<Leaf>)
    ensures
        r == spec_leaf_of(group@, name@),
{
    if str_eq(group, "") {
        if str_eq(name, "trends") { Some(Leaf::Trends) }
        else if str_eq(name, "watch-trends") { Some(Leaf::WatchTrends) }
        else if str_eq(name, "suggest-constitution") { Some(Leaf::SuggestConstitution) }
        else if str_eq(name, "ci-check") { Some(Leaf::CiCheck) }
        else { None }
    } else if str_eq(group, "constitution") {
        if str_eq(name, "init") { Some(Leaf::ConstitutionInit) }
        else if str_eq(name, "add") { Some(Leaf::ConstitutionAdd) }
        else if str_eq(name, "status") { Some(Leaf::ConstitutionStatus) }
        else if str_eq(name, "shadow") { Some(Leaf::ConstitutionShadow) }
        else if str_eq(name, "impact") { Some(Leaf::ConstitutionImpact) }
        else if str_eq(name, "canary") { Some(Leaf::ConstitutionCanary) }
        else if str_eq(name, "activate") { Some(Leaf::ConstitutionActivate) }
        else { None }
    } else if str_eq(group, "refs") {
        if str_eq(name, "add") { Some(Leaf::RefsAdd) }
        else if str_eq(name, "list") { Some(Leaf::RefsList) }
        else if str_eq(name, "show") { Some(Leaf::RefsShow) }
        else if str_eq(name, "remove") { Some(Leaf::RefsRemove) }
        else { None }
    } else if str_eq(group, "operators") {
        if str_eq(name, "list") { Some(Leaf::OperatorsList) }
        else if str_eq(name, "run") { Some(Leaf::OperatorsRun) }
        else { None }
    } else if str_eq(group, "translation") {
        if str_eq(name, "run") { Some(Leaf::TranslationRun) } else { None }
    } else if str_eq(group, "graph") {
        if str_eq(name, "link") { Some(Leaf::GraphLink) }
        else if str_eq(name, "export-dot") { Some(Leaf::GraphExportDot) }
        else { None }
    } else if str_eq(group, "chain") {
        if str_eq(name, "show") { Some(Leaf::ChainShow) } else { None }
    } else {
        None
    }
}

/// The options of a command.
fn decls(leaf: Leaf) -> (out: Vec<(&'static str, ValueKind)>)
    ensures
        decl_views(out@) == spec_decls(leaf),
{
    let out = match leaf {
        Leaf::Trends => vec![("project-root", ValueKind::Path), ("last-n", ValueKind::Count)],
        Leaf::WatchTrends => vec![
            ("project-root", ValueKind::Path), ("last-n", ValueKind::Count), ("interval-seconds", ValueKind::Interval),
        ],
        Leaf::SuggestConstitution => vec![
            ("project-root", ValueKind::Path), ("last-n", ValueKind::Count), ("out", ValueKind::Path),
        ],
        Leaf::CiCheck => vec![
            ("project-root", ValueKind::Path), ("last-n", ValueKind::Count), ("run-id", ValueKind::Text),
            ("json-out", ValueKind::Path),
        ],
        Leaf::ConstitutionInit => vec![("project-root", ValueKind::Path), ("version", ValueKind::Text)],
        Leaf::ConstitutionAdd => vec![
            ("project-root", ValueKind::Path), ("version", ValueKind::Text), ("file", ValueKind::Path),
            ("note", ValueKind::Text),
        ],
        Leaf::ConstitutionStatus => vec![("project-root", ValueKind::Path)],
        Leaf::ConstitutionShadow => vec![
            ("project-root", ValueKind::Path), ("version", ValueKind::Text), ("last-n", ValueKind::Count),
        ],
        Leaf::ConstitutionImpact => vec![
            ("project-root", ValueKind::Path), ("version", ValueKind::Text), ("last-n", ValueKind::Count),
        ],
        Leaf::ConstitutionCanary => vec![
            ("project-root", ValueKind::Path), ("version", ValueKind::Text), ("budget-runs", ValueKind::Number),
        ],
        Leaf::ConstitutionActivate => vec![("project-root", ValueKind::Path), ("version", ValueKind::Text)],
        Leaf::RefsAdd => vec![
            ("project-root", ValueKind::Path), ("file", ValueKind::Path), ("name", ValueKind::Text),
            ("tags", ValueKind::Text), ("copy-file", ValueKind::Flag),
        ],
        Leaf::RefsList => vec![("project-root", ValueKind::Path)],
        Leaf::RefsShow => vec![("project-root", ValueKind::Path), ("content-hash", ValueKind::Text)],
        Leaf::RefsRemove => vec![("project-root", ValueKind::Path), ("content-hash", ValueKind::Text)],
        Leaf::OperatorsList => vec![],
        Leaf::OperatorsRun => vec![
            ("project-root", ValueKind::Path), ("run-id", ValueKind::Text), ("last-n", ValueKind::Count),
        ],
        Leaf::TranslationRun => vec![("project-root", ValueKind::Path), ("run-id", ValueKind::Text)],
        Leaf::GraphLink => vec![("project-root", ValueKind::Path), ("from", ValueKind::Text), ("to", ValueKind::Text)],
        Leaf::GraphExportDot => vec![("project-root", ValueKind::Path), ("out", ValueKind::Path)],
        Leaf::ChainShow => vec![("project-root", ValueKind::Path), ("run-id", ValueKind::Text)],
    };
    assert(decl_views(out@) =~= spec_decls(leaf));
    out
}

/// The required options of a command.
fn required(leaf: Leaf) -> (out: Vec<(usize, &'static str)>)
    ensures
        out@.map_values(|r: (usize, &'static str)| (r.0 as int, r.1@)) == spec_required(leaf),
{
    let out = match leaf {
        Leaf::OperatorsList => vec![],
        Leaf::ConstitutionInit => vec![(0usize, "--project-root")],
        Leaf::ConstitutionAdd => vec![(0usize, "--project-root"), (1usize, "--version"), (2usize, "--file")],
        Leaf::ConstitutionShadow | Leaf::ConstitutionImpact | Leaf::ConstitutionActivate =>
            vec![(0usize, "--project-root"), (1usize, "--version")],
        Leaf::ConstitutionCanary => vec![(0usize, "--project-root"), (1usize, "--version"), (2usize, "--budget-runs")],
        Leaf::RefsAdd => vec![(0usize, "--project-root"), (1usize, "--file")],
        Leaf::RefsShow | Leaf::RefsRemove => vec![(0usize, "--project-root"), (1usize, "--content-hash")],
        Leaf::TranslationRun | Leaf::ChainShow => vec![(0usize, "--project-root"), (1usize, "--run-id")],
        Leaf::GraphLink => vec![(0usize, "--project-root"), (1usize, "--from"), (2usize, "--to")],
        _ => vec![(0usize, "--project-root")],
    };
    assert(out@.map_values(|r: (usize, &'static str)| (r.0 as int, r.1@)) =~= spec_required(leaf));
    out
}

/// The first required option that was not given, shown as `--name`.
fn missing_required(vals: &Vec<Option<String>>, leaf: Leaf) -> (r: Option<String>)
    requires
        vals@.len() == spec_decls(leaf).len(),
    ensures
        ov(r) == first_missing(opt_views(vals@), spec_required(leaf)),
{
    let req = required(leaf);
    let ghost rv = req@.map_values(|r: (usize, &'static str)| (r.0 as int, r.1@));
    proof {
        assert(forall|k: int| 0 <= k < rv.len() ==> 0 <= #[trigger] rv[k].0 < vals@.len());
        assert(rv.skip(0) =~= rv);
    }
    let mut i: usize = 0;
    while i < req.len()
        invariant
            rv == req@.map_values(|r: (usize, &'static str)| (r.0 as int, r.1@)),
            rv == spec_required(leaf),
            vals@.len() == spec_decls(leaf).len(),
            forall|k: int| 0 <= k < rv.len() ==> 0 <= #[trigger] rv[k].0 < vals@.len(),
            i <= req@.len(),
            first_missing(opt_views(vals@), rv) == first_missing(opt_views(vals@), rv.skip(i as int)),
        decreases req@.len() - i,
    {
        let (slot, shown) = req[i];
        proof {
            assert(rv.skip(i as int)[0] == rv[i as int]);
            assert(rv.skip(i as int).drop_first() =~= rv.skip(i + 1));
            assert(0 <= rv[i as int].0 < vals@.len());
        }
        if vals[slot].is_none() {
            return Some(to_owned_string(shown));
        }
        i += 1;
    }
    assert(rv.skip(i as int) =~= Seq::<(int, Seq<char>)>::empty());
    None
}

/// The value given for option `i`, if any.
fn given(vals: &Vec<Option<String>>, i: usize) -> (r: Option<String>)
    requires
        i < vals@.len(),
    ensures
        ov(r) == opt_views(vals@)[i as int],
{
    match &vals[i] {
        Some(s) => Some(s.clone()),
        None => None,
    }
}

/// The value given for option `i`, or the empty text.
fn text(vals: &Vec<Option<String>>, i: usize) -> (r: String)
    requires
        i < vals@.len(),
    ensures
        r@ == text_of(opt_views(vals@)[i as int]),
{
    match &vals[i] {
        Some(s) => s.clone(),
        None => String::new(),
    }
}

/// Option `i` read as a number no larger than `max`, or `d` when not given.
fn number(vals: &Vec<Option<String>>, i: usize, d: u64, max: u64) -> (r: u64)
    requires
        i < vals@.len(),
    ensures
        r == count_or(opt_views(vals@)[i as int], d as nat, max as nat),
{
    match &vals[i] {
        Some(s) => match parse_uint(s.as_str(), max) {
            Some(n) => n,
            None => 0,
        },
        None => d,
    }
}

/// Option `i`, a count, read as a `usize`.
fn count(vals: &Vec<Option<String>>, i: usize, d: usize) -> (r: usize)
    requires
        i < vals@.len(),
    ensures
        r == count_or(opt_views(vals@)[i as int], d as nat, usize::MAX as nat),
{
    let n = number(vals, i, d as u64, usize::MAX as u64);
    proof {
        match opt_views(vals@)[i as int] {
            Some(x) => match spec_parse_uint(x, usize::MAX as nat) {
                Some(v) => assert(v <= usize::MAX),
                None => {},
            },
            None => {},
        }
    }
    n as usize
}

/// Builds a command from its scanned options and positionals.
fn build(leaf: Leaf, vals: &Vec<Option<String>>, pos: &Vec<String>) -> (r: Result<Commands, CliError>)
    requires
        vals@.len() == spec_decls(leaf).len(),
        pos@.len() <= spec_max_pos(leaf),
    ensures
        match r {
            Ok(c) => spec_build(leaf, opt_views(vals@), views(pos@)) == Ok::<CommandView, (CliErrorKind, Seq<char>)>(c.view()),
            Err(e) => spec_build(leaf, opt_views(vals@), views(pos@)) == Err::<CommandView, (CliErrorKind, Seq<char>)>(e.view()),
        },
{
    proof {
        reveal_strlit("<NAME>");
        reveal_strlit("v1.0");
    }
    if leaf == Leaf::OperatorsRun && pos.len() == 0 {
        return Err(CliError { kind: CliErrorKind::MissingRequired, arg: to_owned_string("<NAME>") });
    }
    match missing_required(vals, leaf) {
        Some(m) => return Err(CliError { kind: CliErrorKind::MissingRequired, arg: m }),
        None => {},
    }
    let ghost v = opt_views(vals@);
    let c = match leaf {
        Leaf::Trends => Commands::Trends { project_root: text(vals, 0), last_n: count(vals, 1, 25) },
        Leaf::WatchTrends => Commands::WatchTrends {
            project_root: text(vals, 0), last_n: count(vals, 1, 25), interval_seconds: number(vals, 2, 30, u64::MAX),
        },
        Leaf::SuggestConstitution => Commands::SuggestConstitution {
            project_root: text(vals, 0), last_n: count(vals, 1, 25), out: given(vals, 2),
        },
        Leaf::CiCheck => Commands::CiCheck {
            project_root: text(vals, 0), last_n: count(vals, 1, 25), run_id: given(vals, 2), json_out: given(vals, 3),
        },
        Leaf::ConstitutionInit => Commands::Constitution {
            command: ConstitutionCommands::Init {
                project_root: text(vals, 0),
                version: match given(vals, 1) {
                    Some(x) => x,
                    None => to_owned_string("v1.0"),
                },
            },
        },
        Leaf::ConstitutionAdd => Commands::Constitution {
            command: ConstitutionCommands::Add {
                project_root: text(vals, 0), version: text(vals, 1), file: text(vals, 2), note: given(vals, 3),
            },
        },
        Leaf::ConstitutionStatus => Commands::Constitution { command: ConstitutionCommands::Status { project_root: text(vals, 0) } },
        Leaf::ConstitutionShadow => Commands::Constitution {
            command: ConstitutionCommands::Shadow { project_root: text(vals, 0), version: text(vals, 1), last_n: count(vals, 2, 25) },
        },
        Leaf::ConstitutionImpact => Commands::Constitution {
            command: ConstitutionCommands::Impact { project_root: text(vals, 0), version: text(vals, 1), last_n: count(vals, 2, 25) },
        },
        Leaf::ConstitutionCanary => Commands::Constitution {
            command: ConstitutionCommands::Canary {
                project_root: text(vals, 0), version: text(vals, 1), budget_runs: number(vals, 2, 0, u64::MAX),
            },
        },
        Leaf::ConstitutionActivate => Commands::Constitution {
            command: ConstitutionCommands::Activate { project_root: text(vals, 0), version: text(vals, 1) },
        },
        Leaf::RefsAdd => Commands::Refs {
            command: RefCommands::Add {
                project_root: text(vals, 0), file: text(vals, 1), name: given(vals, 2), tags: text(vals, 3),
                copy_file: vals[4].is_some(),
            },
        },
        Leaf::RefsList => Commands::Refs { command: RefCommands::List { project_root: text(vals, 0) } },
        Leaf::RefsShow => Commands::Refs { command: RefCommands::Show { project_root: text(vals, 0), content_hash: text(vals, 1) } },
        Leaf::RefsRemove => Commands::Refs { command: RefCommands::Remove { project_root: text(vals, 0), content_hash: text(vals, 1) } },
        Leaf::OperatorsList => Commands::Operators { command: OperatorCommands::List },
        Leaf::OperatorsRun => {
            assert(views(pos@)[0] == pos@[0]@);
            Commands::Operators {
                command: OperatorCommands::Run {
                    name: pos[0].clone(), project_root: text(vals, 0), run_id: given(vals, 1), last_n: count(vals, 2, 25),
                },
            }
        },
        Leaf::TranslationRun => Commands::Translation { command: TranslationCommands::Run { project_root: text(vals, 0), run_id: text(vals, 1) } },
        Leaf::GraphLink => Commands::Graph {
            command: GraphCommands::Link { project_root: text(vals, 0), from: text(vals, 1), to: text(vals, 2) },
        },
        Leaf::GraphExportDot => Commands::Graph { command: GraphCommands::ExportDot { project_root: text(vals, 0), out: given(vals, 1) } },
        Leaf::ChainShow => Commands::Chain { command: ChainCommands::Show { project_root: text(vals, 0), run_id: text(vals, 1) } },
    };
    proof {
        if leaf == Leaf::RefsAdd {
            assert(v[4] is Some == vals@[4] is Some);
        }
    }
    Ok(c)
}

/// Reads the command `leaf` from the arguments from `start` on.
fn run_leaf(args: &[&str], start: usize, leaf: Leaf) -> (r: Result<Commands, CliError>)
    requires
        start <= args@.len(),
    ensures
        match r {
            Ok(c) => spec_run_leaf(leaf, arg_views(args@).skip(start as int)) == Ok::<CommandView, (CliErrorKind, Seq<char>)>(c.view()),
            Err(e) => spec_run_leaf(leaf, arg_views(args@).skip(start as int)) == Err::<CommandView, (CliErrorKind, Seq<char>)>(e.view()),
        },
{
    let d = decls(leaf);
    let max_pos: usize = if leaf == Leaf::OperatorsRun { 1 } else { 0 };
    proof {
        assert(values_valid(spec_decls(leaf), nones(spec_decls(leaf).len())));
        lemma_scan_valid(arg_views(args@).skip(start as int), spec_decls(leaf), nones(spec_decls(leaf).len()), seq![], spec_max_pos(leaf), false);
    }
    match scan_options(args, start, &d, max_pos) {
        Err(e) => Err(e),
        Ok((vals, pos)) => {
            assert(opt_views(vals@).len() == vals@.len());
            assert(views(pos@).len() == pos@.len());
            build(leaf, &vals, &pos)
        },
    }
}

/// Reads the command whose name is `args[at]`.
fn dispatch(args: &[&str], at: usize) -> (r: Result<Commands, CliError>)
    requires
        at < args@.len(),
    ensures
        match r {
            Ok(c) => spec_dispatch(args@[at as int]@, arg_views(args@).skip(at + 1)) == Ok::<CommandView, (CliErrorKind, Seq<char>)>(c.view()),
            Err(e) => spec_dispatch(args@[at as int]@, arg_views(args@).skip(at + 1)) == Err::<CommandView, (CliErrorKind, Seq<char>)>(e.view()),
        },
{
    let name = args[at];
    let ghost rest = arg_views(args@).skip(at + 1);
    if str_eq(name, "help") {
        return Err(CliError { kind: CliErrorKind::Help, arg: to_owned_string(name) });
    }
    if group_name(name) {
        if at + 1 >= args.len() {
            return Err(CliError { kind: CliErrorKind::MissingSubcommand, arg: to_owned_string(name) });
        }
        let sub = args[at + 1];
        proof {
            assert(rest[0] == sub@);
            assert(rest.drop_first() =~= arg_views(args@).skip(at + 2));
        }
        if str_eq(sub, "help") || str_eq(sub, "-h") || str_eq(sub, "--help") {
            return Err(CliError { kind: CliErrorKind::Help, arg: to_owned_string(sub) });
        }
        let cs = chars_of(sub);
        if cs.len() > 1 && cs[0] == '-' {
            return Err(CliError { kind: CliErrorKind::Unexpected, arg: to_owned_string(sub) });
        }
        match leaf_of(name, sub) {
            None => Err(CliError { kind: CliErrorKind::UnknownSubcommand, arg: to_owned_string(sub) }),
            Some(leaf) => run_leaf(args, at + 2, leaf),
        }
    } else {
        match leaf_of("", name) {
            None => Err(CliError { kind: CliErrorKind::UnknownSubcommand, arg: to_owned_string(name) }),
            Some(leaf) => run_leaf(args, at + 1, leaf),
        }
    }
}

impl Cli {
    /// Reads an argument list, program name first, as `sce_cli` does.
    pub fn try_parse_from(args: &[&str]) -> (r: Result<Cli, CliError>)
        ensures
            match r {
                Ok(c) => spec_parse(arg_views(args@)) == Ok::<(Seq<char>, CommandView), (CliErrorKind, Seq<char>)>((c.db_url@, c.command.view())),
                Err(e) => spec_parse(arg_views(args@)) == Err::<(Seq<char>, CommandView), (CliErrorKind, Seq<char>)>(e.view()),
            },
    {
        let ghost toks = arg_views(args@);
        let mut i: usize = if args.len() > 0 { 1 } else { 0 };
        assert(toks.skip(i as int) =~= (if toks.len() > 0 { toks.drop_first() } else { toks }));
        let mut db: Option<String> = None;
        proof {
            reveal_strlit("-h");
            reveal_strlit("--help");
            reveal_strlit("db-url");
            reveal_strlit("sqlite://./sce.db");
        }
        while i < args.len()
            invariant
                toks == arg_views(args@),
                i <= args@.len(),
                spec_parse(toks) == spec_global(toks.skip(i as int), ov(db)),
            decreases args@.len() - i,
        {
            let t = args[i];
            let ghost ts = toks.skip(i as int);
            proof {
                assert(ts[0] == t@);
                assert(ts.drop_first() =~= toks.skip(i + 1));
            }
            let cs = chars_of(t);
            if !(cs.len() > 1 && cs[0] == '-') {
                let command = match dispatch(args, i) {
                    Ok(c) => c,
                    Err(e) => return Err(e),
                };
                let db_url = match db {
                    Some(d) => d,
                    None => to_owned_string("sqlite://./sce.db"),
                };
                assert(db_url@ == (match ov(db) { Some(d) => d, None => "sqlite://./sce.db"@ }));
                return Ok(Cli { db_url, command });
            }
            if str_eq(t, "-h") || str_eq(t, "--help") {
                return Err(CliError { kind: CliErrorKind::Help, arg: to_owned_string(t) });
            }
            let is_db = if cs[1] == '-' {
                let body = string_of(&cs.as_slice()[2..cs.len()]);
                assert(body@ =~= t@.skip(2));
                let bcs = chars_of(body.as_str());
                let mut j: usize = 0;
                while j < bcs.len() && bcs[j] != '='
                    invariant
                        j <= bcs@.len(),
                        forall|k: int| 0 <= k < j ==> #[trigger] bcs@[k] != '=',
                    decreases bcs@.len() - j,
                {
                    j += 1;
                }
                proof {
                    crate::cli_scan::lemma_first_eq(bcs@, j as int);
                }
                let key = string_of(&bcs.as_slice()[0..j]);
                proof {
                    if j == bcs@.len() {
                        assert(key@ =~= bcs@);
                    } else {
                        assert(key@ =~= bcs@.take(j as int));
                    }
                }
                if str_eq(key.as_str(), "db-url") {
                    if db.is_some() {
                        return Err(CliError { kind: CliErrorKind::Duplicate, arg: to_owned_string("db-url") });
                    }
                    if j < bcs.len() {
                        let v = string_of(&bcs.as_slice()[j + 1..bcs.len()]);
                        assert(v@ =~= bcs@.skip(j + 1));
                        db = Some(v);
                        i += 1;
                    } else {
                        if i + 1 >= args.len() || {
                            let ncs = chars_of(args[i + 1]);
                            ncs.len() > 1 && ncs[0] == '-'
                        } {
                            proof {
                                if i + 1 < args@.len() {
                                    assert(ts.drop_first()[0] == args@[i + 1]@);
                                }
                            }
                            return Err(CliError { kind: CliErrorKind::MissingValue, arg: to_owned_string("db-url") });
                        }
                        proof {
                            assert(ts.drop_first()[0] == args@[i + 1]@);
                            assert(ts.drop_first().drop_first() =~= toks.skip(i + 2));
                        }
                        db = Some(to_owned_string(args[i + 1]));
                        i += 2;
                    }
                    true
                } else {
                    false
                }
            } else {
                false
            };
            if !is_db {
                return Err(CliError { kind: CliErrorKind::Unexpected, arg: to_owned_string(t) });
            }
        }
        assert(toks.skip(i as int) =~= Seq::<Seq<char>>::empty());
        proof {
            reveal_strlit("");
        }
        Err(CliError { kind: CliErrorKind::MissingSubcommand, arg: to_owned_string("") })
    }
}

/// The help text of a `constitution` subcommand, with its usage example.
pub open spec fn spec_constitution_about(name: Seq<char>) -> Option<Seq<char>> {
    if name == "init"@ {
        Some("Initialize registry from <ProjectRoot>/SCE/constitution.yaml. Example: sce_cli constitution init --project-root /tmp/project --version v1.0"@)
    } else if name == "add"@ {
        Some("Add a candidate constitution YAML into registry/constitutions/<version>.yaml. Example: sce_cli constitution add --project-root /tmp/project --version v1.1 --file /tmp/v1.1.yaml"@)
    } else if name == "status"@ {
        Some("Show active pointer, index versions, and DB-backed canary state. Example: sce_cli constitution status --project-root /tmp/project"@)
    } else if name == "shadow"@ {
        Some("Build and write shadow impact to registry/shadow/<version>/impact.json. Example: sce_cli constitution shadow --project-root /tmp/project --version v1.1 --last-n 50"@)
    } else if name == "impact"@ {
        Some("Build deterministic impact report to registry/shadow/<version>/impact.json. Example: sce_cli constitution impact --project-root /tmp/project --version v1.1 --last-n 50"@)
    } else if name == "canary"@ {
        Some("Set DB-authoritative canary budget for a candidate constitution version. Example: sce_cli constitution canary --project-root /tmp/project --version v1.1 --budget-runs 1"@)
    } else if name == "activate"@ {
        Some("Activate an existing registry constitution version by updating active.json. Example: sce_cli constitution activate --project-root /tmp/project --version v1.1"@)
    } else {
        None
    }
}

/// The help text of a `constitution` subcommand.
pub fn constitution_about(name: &str) -> (r: Option<&'static str>)
    ensures
        match r {
            Some(t) => spec_constitution_about(name@) == Some(t@),
            None => spec_constitution_about(name@) is None,
        },
{
    if str_eq(name, "init") {
        Some("Initialize registry from <ProjectRoot>/SCE/constitution.yaml. Example: sce_cli constitution init --project-root /tmp/project --version v1.0")
    } else if str_eq(name, "add") {
        Some("Add a candidate constitution YAML into registry/constitutions/<version>.yaml. Example: sce_cli constitution add --project-root /tmp/project --version v1.1 --file /tmp/v1.1.yaml")
    } else if str_eq(name, "status") {
        Some("Show active pointer, index versions, and DB-backed canary state. Example: sce_cli constitution status --project-root /tmp/project")
    } else if str_eq(name, "shadow") {
        Some("Build and write shadow impact to registry/shadow/<version>/impact.json. Example: sce_cli constitution shadow --project-root /tmp/project --version v1.1 --last-n 50")
    } else if str_eq(name, "impact") {
        Some("Build deterministic impact report to registry/shadow/<version>/impact.json. Example: sce_cli constitution impact --project-root /tmp/project --version v1.1 --last-n 50")
    } else if str_eq(name, "canary") {
        Some("Set DB-authoritative canary budget for a candidate constitution version. Example: sce_cli constitution canary --project-root /tmp/project --version v1.1 --budget-runs 1")
    } else if str_eq(name, "activate") {
        Some("Activate an existing registry constitution version by updating active.json. Example: sce_cli constitution activate --project-root /tmp/project --version v1.1")
    } else {
        None
    }
}

} // verus!
