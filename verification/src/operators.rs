//! The operator registry: a fixed list of operators, in display order, each
//! with its output path template and the arguments it takes.
use vstd::prelude::*;
use crate::text::{str_eq, to_owned_string};

verus! {

const SCHEMA_VERSION: &'static str = "1.0";

/// The operators, in the order `operators list` shows them.
#[derive(Debug, Clone, Copy, PartialEq, Eq, Structural)]
pub enum OperatorKind {
    RefCanon,
    MixopsCi,
    TranslationMatrix,
    Stemgraph,
    PluginChainCompiler,
}

/// The operators in display order.
pub open spec fn spec_operators() -> Seq<OperatorKind> {
    seq![
        OperatorKind::RefCanon,
        OperatorKind::MixopsCi,
        OperatorKind::TranslationMatrix,
        OperatorKind::Stemgraph,
        OperatorKind::PluginChainCompiler,
    ]
}

impl OperatorKind {
    pub open spec fn spec_name(self) -> Seq<char> {
        match self {
            OperatorKind::RefCanon => "ref_canon"@,
            OperatorKind::MixopsCi => "mixops_ci"@,
            OperatorKind::TranslationMatrix => "translation_matrix"@,
            OperatorKind::Stemgraph => "stemgraph"@,
            OperatorKind::PluginChainCompiler => "plugin_chain_compiler"@,
        }
    }

    pub open spec fn spec_output_path_template(self) -> Seq<char> {
        match self {
            OperatorKind::RefCanon => "SCE/operators/ref_canon/latest.json"@,
            OperatorKind::MixopsCi => "SCE/operators/mixops_ci/latest.json"@,
            OperatorKind::TranslationMatrix => "SCE/operators/translation_matrix/<run_id>.json"@,
            OperatorKind::Stemgraph => "SCE/operators/stemgraph/latest.json"@,
            OperatorKind::PluginChainCompiler => "SCE/operators/plugin_chain_compiler/<run_id>.json"@,
        }
    }

    /// Only the per-run operators need a run id.
    pub open spec fn spec_requires_run_id(self) -> bool {
        self is TranslationMatrix || self is PluginChainCompiler
    }

    /// Only the CI operator reads a window of recent runs.
    pub open spec fn spec_supports_last_n(self) -> bool {
        self is MixopsCi
    }

    /// The operator's name.
    pub fn name(self) -> (out: &'static str)
        ensures
            out@ == self.spec_name(),
    {
        match self {
            OperatorKind::RefCanon => "ref_canon",
            OperatorKind::MixopsCi => "mixops_ci",
            OperatorKind::TranslationMatrix => "translation_matrix",
            OperatorKind::Stemgraph => "stemgraph",
            OperatorKind::PluginChainCompiler => "plugin_chain_compiler",
        }
    }

    /// Where the operator writes, relative to the project root.
    pub fn output_path_template(self) -> (out: &'static str)
        ensures
            out@ == self.spec_output_path_template(),
    {
        match self {
            OperatorKind::RefCanon => "SCE/operators/ref_canon/latest.json",
            OperatorKind::MixopsCi => "SCE/operators/mixops_ci/latest.json",
            OperatorKind::TranslationMatrix => "SCE/operators/translation_matrix/<run_id>.json",
            OperatorKind::Stemgraph => "SCE/operators/stemgraph/latest.json",
            OperatorKind::PluginChainCompiler => "SCE/operators/plugin_chain_compiler/<run_id>.json",
        }
    }

    /// Whether the operator needs `--run-id`.
    pub fn requires_run_id(self) -> (r: bool)
        ensures
            r == self.spec_requires_run_id(),
    {
        match self {
            OperatorKind::TranslationMatrix | OperatorKind::PluginChainCompiler => true,
            _ => false,
        }
    }

    /// Whether the operator reads `--last-n`.
    pub fn supports_last_n(self) -> (r: bool)
        ensures
            r == self.spec_supports_last_n(),
    {
        match self {
            OperatorKind::MixopsCi => true,
            _ => false,
        }
    }
}

/// The operators in display order.
pub fn all_operators() -> (out: Vec<OperatorKind>)
    ensures
        out@ == spec_operators(),
{
    let out = vec![
        OperatorKind::RefCanon,
        OperatorKind::MixopsCi,
        OperatorKind::TranslationMatrix,
        OperatorKind::Stemgraph,
        OperatorKind::PluginChainCompiler,
    ];
    assert(out@ =~= spec_operators());
    out
}

/// What `operators run` is asked.
#[derive(Debug, Clone, Copy)]
pub struct OperatorRunRequest<'a> {
    pub project_root: &'a str,
    pub run_id: Option<&'a str>,
    pub last_n: usize,
}

/// One line of `operators list`.
#[derive(Debug, Clone)]
pub struct OperatorListEntry {
    pub name: String,
    pub output_path: String,
    pub requires_run_id: bool,
    pub supports_last_n: bool,
}

/// What `operators list` prints.
#[derive(Debug, Clone)]
pub struct OperatorListOutput {
    pub schema_version: String,
    pub operators: Vec<OperatorListEntry>,
}

/// The list entry that describes an operator.
pub open spec fn describes(e: OperatorListEntry, k: OperatorKind) -> bool {
    &&& e.name@ == k.spec_name()
    &&& e.output_path@ == k.spec_output_path_template()
    &&& e.requires_run_id == k.spec_requires_run_id()
    &&& e.supports_last_n == k.spec_supports_last_n()
}

/// The operator list: schema `1.0` and one entry per operator, in display order.
pub fn list() -> (out: OperatorListOutput)
    ensures
        out.schema_version@ == "1.0"@,
        out.operators@.len() == spec_operators().len(),
        forall|i: int| 0 <= i < out.operators@.len() ==> describes(#[trigger] out.operators@[i], spec_operators()[i]),
{
    let kinds = all_operators();
    let mut operators: Vec<OperatorListEntry> = Vec::new();
    let mut i: usize = 0;
    while i < kinds.len()
        invariant
            kinds@ == spec_operators(),
            i <= kinds@.len(),
            operators@.len() == i,
            forall|k: int| 0 <= k < i ==> describes(#[trigger] operators@[k], spec_operators()[k]),
        decreases kinds@.len() - i,
    {
        let k = kinds[i];
        operators.push(OperatorListEntry {
            name: to_owned_string(k.name()),
            output_path: to_owned_string(k.output_path_template()),
            requires_run_id: k.requires_run_id(),
            supports_last_n: k.supports_last_n(),
        });
        i += 1;
    }
    proof {
        reveal_strlit("1.0");
    }
    OperatorListOutput { schema_version: to_owned_string(SCHEMA_VERSION), operators }
}

/// Looks an operator up by name.
pub fn operator_named(name: &str) -> (r: Option<OperatorKind>)
    ensures
        match r {
            Some(k) => k.spec_name() == name@,
            None => forall|i: int| 0 <= i < 5 ==> #[trigger] spec_operators()[i].spec_name() != name@,
        },
{
    let kinds = all_operators();
    let mut i: usize = 0;
    while i < kinds.len()
        invariant
            kinds@ == spec_operators(),
            i <= kinds@.len(),
            forall|k: int| 0 <= k < i ==> #[trigger] spec_operators()[k].spec_name() != name@,
        decreases kinds@.len() - i,
    {
        if str_eq(kinds[i].name(), name) {
            return Some(kinds[i]);
        }
        i += 1;
    }
    None
}

/// One operator invocation with the arguments it uses.
#[derive(Debug, Clone)]
pub enum OperatorCall {
    RefCanon,
    MixopsCi { run_id: Option<String>, last_n: usize },
    TranslationMatrix { run_id: String },
    Stemgraph,
    PluginChainCompiler { run_id: String },
}

/// Why an operator run was refused.
#[derive(Debug, Clone)]
pub enum OperatorError {
    Unknown { name: String },
    RunIdRequired { name: String },
}

impl OperatorError {
    pub open spec fn spec_message(&self) -> Seq<char> {
        match self {
            OperatorError::Unknown { name } => "unknown operator: "@ + name@,
            OperatorError::RunIdRequired { name } => name@ + " requires --run-id"@,
        }
    }

    /// The error as the text a user sees.
    pub fn message(&self) -> (out: String)
        ensures
            out@ == self.spec_message(),
    {
        match self {
            OperatorError::Unknown { name } => {
                let mut out = to_owned_string("unknown operator: ");
                out.append(name.as_str());
                out
            },
            OperatorError::RunIdRequired { name } => {
                let mut out = name.clone();
                out.append(" requires --run-id");
                out
            },
        }
    }
}

pub open spec fn opt_str(o: Option<&str>) -> Option<Seq<char>> {
    match o {
        Some(s) => Some(s@),
        None => None,
    }
}

pub open spec fn opt_string(o: Option<String>) -> Option<Seq<char>> {
    match o {
        Some(s) => Some(s@),
        None => None,
    }
}

/// Which call `operators run <name>` makes for a request: the named operator
/// with the arguments it reads; a per-run operator without a run id, or an
/// unknown name, is refused.
pub fn dispatch(request: OperatorRunRequest, name: &str) -> (r: Result<OperatorCall, OperatorError>)
    ensures
        (forall|i: int| 0 <= i < 5 ==> #[trigger] spec_operators()[i].spec_name() != name@) ==>
            r is Err && (r->Err_0 matches OperatorError::Unknown { name: n } && n@ == name@),
        name@ == "ref_canon"@ ==> r is Ok && r->Ok_0 is RefCanon,
        name@ == "stemgraph"@ ==> r is Ok && r->Ok_0 is Stemgraph,
        name@ == "mixops_ci"@ ==> r is Ok && (r->Ok_0 matches OperatorCall::MixopsCi { run_id, last_n }
            && opt_string(run_id) == opt_str(request.run_id) && last_n == request.last_n),
        name@ == "translation_matrix"@ ==> match request.run_id {
            Some(id) => r is Ok && (r->Ok_0 matches OperatorCall::TranslationMatrix { run_id } && run_id@ == id@),
            None => r is Err && (r->Err_0 matches OperatorError::RunIdRequired { name: n } && n@ == "translation_matrix"@),
        },
        name@ == "plugin_chain_compiler"@ ==> match request.run_id {
            Some(id) => r is Ok && (r->Ok_0 matches OperatorCall::PluginChainCompiler { run_id } && run_id@ == id@),
            None => r is Err && (r->Err_0 matches OperatorError::RunIdRequired { name: n } && n@ == "plugin_chain_compiler"@),
        },
{
    proof {
        reveal_strlit("ref_canon");
        reveal_strlit("mixops_ci");
        reveal_strlit("translation_matrix");
        reveal_strlit("stemgraph");
        reveal_strlit("plugin_chain_compiler");
        assert("ref_canon"@[0] == 'r');
        assert("mixops_ci"@[0] == 'm');
        assert("translation_matrix"@[0] == 't');
        assert("stemgraph"@[0] == 's');
        assert("plugin_chain_compiler"@[0] == 'p');
    }
    let kind = match operator_named(name) {
        Some(k) => k,
        None => {
            proof {
                assert(spec_operators()[0].spec_name() != name@);
                assert(spec_operators()[1].spec_name() != name@);
                assert(spec_operators()[2].spec_name() != name@);
                assert(spec_operators()[3].spec_name() != name@);
                assert(spec_operators()[4].spec_name() != name@);
            }
            return Err(OperatorError::Unknown { name: to_owned_string(name) });
        },
    };
    match kind {
        OperatorKind::RefCanon => Ok(OperatorCall::RefCanon),
        OperatorKind::MixopsCi => Ok(OperatorCall::MixopsCi {
            run_id: match request.run_id {
                Some(id) => Some(to_owned_string(id)),
                None => None,
            },
            last_n: request.last_n,
        }),
        OperatorKind::TranslationMatrix => match request.run_id {
            Some(id) => Ok(OperatorCall::TranslationMatrix { run_id: to_owned_string(id) }),
            None => Err(OperatorError::RunIdRequired { name: to_owned_string("translation_matrix") }),
        },
        OperatorKind::Stemgraph => Ok(OperatorCall::Stemgraph),
        OperatorKind::PluginChainCompiler => match request.run_id {
            Some(id) => Ok(OperatorCall::PluginChainCompiler { run_id: to_owned_string(id) }),
            None => Err(OperatorError::RunIdRequired { name: to_owned_string("plugin_chain_compiler") }),
        },
    }
}


/// An operator is listed as needing a run id exactly when it is one of the
/// per-run operators that `dispatch` refuses without one
/// (`translation_matrix` and `plugin_chain_compiler`); the others, among
/// them `stemgraph`, run without a run id. Only `mixops_ci` reads a window
/// of runs, and each operator writes under `SCE/operators/<name>/`, to
/// `<run_id>.json` when it is per-run and to `latest.json` otherwise.
pub proof fn law_requires_run_id_matches_dispatch(k: OperatorKind)
    ensures
        k.spec_requires_run_id() <==> (k.spec_name() == "translation_matrix"@ || k.spec_name() == "plugin_chain_compiler"@),
        k.spec_name() == "stemgraph"@ ==> !k.spec_requires_run_id(),
        k.spec_supports_last_n() <==> k.spec_name() == "mixops_ci"@,
        k.spec_output_path_template() == "SCE/operators/"@ + k.spec_name() + if k.spec_requires_run_id() {
            "/<run_id>.json"@
        } else {
            "/latest.json"@
        },
{
    reveal_strlit("SCE/operators/");
    reveal_strlit("/<run_id>.json");
    reveal_strlit("/latest.json");
    reveal_strlit("SCE/operators/ref_canon/latest.json");
    reveal_strlit("SCE/operators/mixops_ci/latest.json");
    reveal_strlit("SCE/operators/translation_matrix/<run_id>.json");
    reveal_strlit("SCE/operators/stemgraph/latest.json");
    reveal_strlit("SCE/operators/plugin_chain_compiler/<run_id>.json");
    reveal_strlit("ref_canon");
    reveal_strlit("mixops_ci");
    reveal_strlit("translation_matrix");
    reveal_strlit("stemgraph");
    reveal_strlit("plugin_chain_compiler");
    assert("ref_canon"@[0] == 'r');
    assert("mixops_ci"@[0] == 'm');
    assert("translation_matrix"@[0] == 't');
    assert("stemgraph"@[0] == 's');
    assert("plugin_chain_compiler"@[0] == 'p');
}

} // verus!
