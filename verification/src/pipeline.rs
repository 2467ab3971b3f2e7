//! The sandboxed Lean runs of a verification: what each run sees (its
//! mounts and module search path), what Lean is asked to do, and how a
//! failed run is reported.

use vstd::prelude::*;

use crate::artifacts::read_mount;
use crate::sandbox::{views, Mount};
use crate::text::{owned, owned_all};

verus! {

/// The host directories of a verification's private workspace.
pub struct Workspace {
    /// The rule library's sources.
    pub sources: String,
    /// The compiled rule library.
    pub library: String,
    /// The generated obligation and its object files.
    pub obligation: String,
    /// The submitted proof's source.
    pub submission: String,
    /// The compiled proof.
    pub producer: String,
    /// The exported declarations the consumer replays.
    pub consumer: String,
    /// The trusted checker and compile driver.
    pub checker: String,
}

/// A compile of one Lean module: where its source is, the root it is
/// resolved against, and where its object file goes.
pub open spec fn compile_line(source: Seq<char>, root: Seq<char>, output: Seq<char>) -> Seq<Seq<char>> {
    seq!["-R"@, "/checker"@, "-j"@, "2"@, "--run"@, "/checker/NobleCompile.lean"@, source, root, output]
}

/// The Lean arguments that compile one module through the checker's driver.
pub fn compile_arguments(source: &str, root: &str, output: &str) -> (r: Vec<String>)
    ensures
        views(r@) == compile_line(source@, root@, output@),
{
    let r = owned_all(&["-R", "/checker", "-j", "2", "--run", "/checker/NobleCompile.lean", source, root, output]);
    assert(views(r@) =~= compile_line(source@, root@, output@));
    r
}

/// The mount of the trusted checker every compile sees.
pub fn checker_mount(workspace: &Workspace) -> (r: Mount)
    ensures
        r.host@ == workspace.checker@ && r.guest@ == "/checker"@ && !r.writable,
{
    read_mount(workspace.checker.as_str(), "/checker")
}

/// Whether mounts are read-only binds of the given host and guest paths, in
/// order.
pub open spec fn read_only_binds(m: Seq<Mount>, binds: Seq<(Seq<char>, Seq<char>)>) -> bool {
    m.len() == binds.len() && forall|i: int| 0 <= i < m.len() ==> {
        &&& (#[trigger] m[i]).host@ == binds[i].0
        &&& m[i].guest@ == binds[i].1
        &&& !m[i].writable
    }
}

/// The mounts of a rule-library module's compile, before its output slots.
pub fn rule_mounts(workspace: &Workspace) -> (r: Vec<Mount>)
    ensures
        read_only_binds(r@, seq![(workspace.sources@, "/inputs"@), (workspace.library@, "/out"@)]),
{
    vec![read_mount(workspace.sources.as_str(), "/inputs"), read_mount(workspace.library.as_str(), "/out")]
}

/// The mounts of the obligation's compile, before its output slots.
pub fn obligation_mounts(workspace: &Workspace) -> (r: Vec<Mount>)
    ensures
        read_only_binds(r@, seq![(workspace.library@, "/library"@), (workspace.obligation@, "/obligation"@)]),
{
    vec![read_mount(workspace.library.as_str(), "/library"), read_mount(workspace.obligation.as_str(), "/obligation")]
}

/// The mounts of the submitted proof's compile, before its output slots.
pub fn submission_mounts(workspace: &Workspace) -> (r: Vec<Mount>)
    ensures
        read_only_binds(r@, seq![(workspace.library@, "/library"@), (workspace.obligation@, "/obligation"@),
            (workspace.submission@, "/inputs"@), (workspace.producer@, "/out"@)]),
{
    vec![
        read_mount(workspace.library.as_str(), "/library"),
        read_mount(workspace.obligation.as_str(), "/obligation"),
        read_mount(workspace.submission.as_str(), "/inputs"),
        read_mount(workspace.producer.as_str(), "/out"),
    ]
}

/// The Lean file that exports the selected theorem as declarations.
pub open spec fn export_text(is_refutation: bool) -> Seq<char> {
    "import NobleProducer\nimport MC1Proof\n\n#mc1_export "@
        + (if is_refutation { "MC1Proof.refutation"@ } else { "MC1Proof.proof"@ }) + "\n"@
}

/// The source of the export run.
pub fn export_source(is_refutation: bool) -> (r: String)
    ensures
        r@ == export_text(is_refutation),
{
    let mut r = owned("import NobleProducer\nimport MC1Proof\n\n#mc1_export ");
    crate::text::push_text(&mut r, if is_refutation { "MC1Proof.refutation" } else { "MC1Proof.proof" });
    crate::text::push_text(&mut r, "\n");
    r
}

/// The Lean arguments of the export run.
pub fn export_arguments() -> (r: Vec<String>)
    ensures
        views(r@) == seq!["-R"@, "/inputs"@, "-j"@, "2"@, "/inputs/ExportProof.lean"@],
{
    let r = owned_all(&["-R", "/inputs", "-j", "2", "/inputs/ExportProof.lean"]);
    assert(views(r@) =~= seq!["-R"@, "/inputs"@, "-j"@, "2"@, "/inputs/ExportProof.lean"@]);
    r
}

/// The mounts of the export run: the exporter's sources and objects, the
/// compiled library, obligation and proof, and the one writable file that
/// receives the declarations.
pub fn export_mounts(sources: &str, artifacts: &str, workspace: &Workspace, wire: &str) -> (r: Vec<Mount>)
    ensures
        r@.len() == 6,
        read_only_binds(r@.subrange(0, 5), seq![(sources@, "/inputs"@), (artifacts@, "/out"@),
            (workspace.library@, "/library"@), (workspace.obligation@, "/obligation"@), (workspace.producer@, "/producer"@)]),
        r@[5].host@ == wire@ && r@[5].guest@ == "/out/MC1Proof.json"@ && r@[5].writable,
{
    let r = vec![
        read_mount(sources, "/inputs"),
        read_mount(artifacts, "/out"),
        read_mount(workspace.library.as_str(), "/library"),
        read_mount(workspace.obligation.as_str(), "/obligation"),
        read_mount(workspace.producer.as_str(), "/producer"),
        Mount { host: owned(wire), guest: owned("/out/MC1Proof.json"), writable: true },
    ];
    assert(r@.subrange(0, 5) =~= seq![r@[0], r@[1], r@[2], r@[3], r@[4]]);
    r
}

/// The mounts of the exporter's own compile, before its output slots.
pub fn exporter_mounts(sources: &str, artifacts: &str) -> (r: Vec<Mount>)
    ensures
        read_only_binds(r@, seq![(sources@, "/inputs"@), (artifacts@, "/out"@)]),
{
    vec![read_mount(sources, "/inputs"), read_mount(artifacts, "/out")]
}

/// The Lean arguments of the consumer's replay of exported declarations.
pub open spec fn replay_line(is_refutation: bool) -> Seq<Seq<char>> {
    seq!["-R"@, "/checker"@, "-j"@, "2"@, "--run"@, "/checker/NobleConsumer.lean"@,
        if is_refutation { "refutation"@ } else { "proof"@ }, "/producer/MC1Proof.json"@]
}

pub fn replay_arguments(is_refutation: bool) -> (r: Vec<String>)
    ensures
        views(r@) == replay_line(is_refutation),
{
    let r = owned_all(&["-R", "/checker", "-j", "2", "--run", "/checker/NobleConsumer.lean",
        if is_refutation { "refutation" } else { "proof" }, "/producer/MC1Proof.json"]);
    assert(views(r@) =~= replay_line(is_refutation));
    r
}

/// The mounts of the replay: only the consumer's fresh declarations appear
/// at `/producer`; no producer or exporter object directory is visible.
pub fn replay_mounts(workspace: &Workspace) -> (r: Vec<Mount>)
    ensures
        read_only_binds(r@, seq![(workspace.library@, "/library"@), (workspace.obligation@, "/obligation"@),
            (workspace.consumer@, "/producer"@), (workspace.checker@, "/checker"@)]),
{
    vec![
        read_mount(workspace.library.as_str(), "/library"),
        read_mount(workspace.obligation.as_str(), "/obligation"),
        read_mount(workspace.consumer.as_str(), "/producer"),
        read_mount(workspace.checker.as_str(), "/checker"),
    ]
}

/// A sandboxed Lean run of a verification.
#[derive(Clone, Copy, PartialEq, Eq, Structural, Debug)]
pub enum Run {
    /// One module of the rule library.
    RuleLibrary,
    /// The generated obligation.
    Obligation,
    /// The submitted proof.
    Submission,
    /// The declaration exporter.
    Exporter,
    /// The export of the accepted theorem.
    Export,
}

/// The module search path of a run.
pub open spec fn search_path_spec(run: Run) -> Seq<char> {
    match run {
        Run::RuleLibrary | Run::Exporter => "/out"@,
        Run::Obligation | Run::Submission => "/library:/obligation"@,
        Run::Export => "/out:/library:/obligation:/producer"@,
    }
}

pub fn search_path(run: Run) -> (r: &'static str)
    ensures
        r@ == search_path_spec(run),
{
    match run {
        Run::RuleLibrary | Run::Exporter => "/out",
        Run::Obligation | Run::Submission => "/library:/obligation",
        Run::Export => "/out:/library:/obligation:/producer",
    }
}

/// The code and message a failed run is reported with.
pub open spec fn run_failure_spec(run: Run) -> (Seq<char>, Seq<char>) {
    match run {
        Run::RuleLibrary => ("rule-library-build"@, "consumer rule-library compilation failed"@),
        Run::Obligation => ("obligation-build"@, "consumer-generated obligation was not accepted by Lean"@),
        Run::Submission => ("proof-rejected"@, "proof elaboration failed; this is not a disproof"@),
        Run::Exporter => ("proof-export-build"@, "declaration exporter compilation failed"@),
        Run::Export => ("proof-export-rejected"@, "proof could not be exported as bounded declarations"@),
    }
}

pub fn run_failure(run: Run) -> (r: (&'static str, &'static str))
    ensures
        r.0@ == run_failure_spec(run).0,
        r.1@ == run_failure_spec(run).1,
{
    match run {
        Run::RuleLibrary => ("rule-library-build", "consumer rule-library compilation failed"),
        Run::Obligation => ("obligation-build", "consumer-generated obligation was not accepted by Lean"),
        Run::Submission => ("proof-rejected", "proof elaboration failed; this is not a disproof"),
        Run::Exporter => ("proof-export-build", "declaration exporter compilation failed"),
        Run::Export => ("proof-export-rejected", "proof could not be exported as bounded declarations"),
    }
}

/// The Lean search path of the independent replay: the rule library, the
/// obligation and the producer's declarations.
pub const REPLAY_SEARCH_PATH: &'static str = "/library:/obligation:/producer";

/// The message a rejected replay is reported with (its code comes from the
/// checker's error output).
pub const REPLAY_REJECTED: &'static str = "independent kernel replay, theorem type, or axiom policy rejected the evidence";

} // verus!
