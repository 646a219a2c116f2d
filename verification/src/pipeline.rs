//! The per-package pipeline's decisions.
//!
//! After a package's current version is resolved and reconciled against the
//! ledger, [`plan_update`] decides what the rest of the pipeline does: nothing
//! when the version is unchanged; otherwise fetch and unpack, format when
//! diffing is effectively enabled, and diff only when a prior version existed
//! as well. [`Update`] is the outcome reported for a package whose version
//! changed. [`lemma_run_records_all_packages`] and [`lemma_rerun_no_change`]
//! state the run-level laws: one run records every reconciled package's
//! resolved version in the ledger, and a second run that resolves the same
//! versions plans no work at all.

use vstd::prelude::*;
use crate::ledger::{sentinel, sentinel_version};

verus! {

/// The outcome for a package whose version changed: the version the ledger
/// held before (or the sentinel), the version just observed, and the
/// sanitized diff text when one was produced.
pub struct Update {
    pub prev_version: String,
    pub cur_version: String,
    pub diff: Option<String>,
}

/// Whether diffing is effectively enabled: a global override, where set,
/// wins over the package's own setting.
pub open spec fn spec_effective_diff(force: Option<bool>, per_package: bool) -> bool {
    match force {
        Some(f) => f,
        None => per_package,
    }
}

/// The per-package diff setting, after the global override.
pub fn effective_generate_diff(force_generate_diffs: &Option<bool>, generate_diff: bool) -> (b:
    bool)
    ensures
        b == spec_effective_diff(*force_generate_diffs, generate_diff),
{
    match force_generate_diffs {
        Some(f) => *f,
        None => generate_diff,
    }
}

/// What the pipeline does after the reconcile step.
#[derive(Debug, PartialEq, Eq, Structural)]
pub enum UpdatePlan {
    /// The resolved version equals the ledger's: nothing further runs.
    NoChange,
    /// The version changed: fetch and unpack, then format and diff as chosen.
    Fetch { format: bool, diff: bool },
}

/// The plan for one package, from the ledger's prior version and the resolved
/// current version: no change exactly when they are equal; otherwise the
/// release is fetched, formatted when diffing is effectively enabled, and
/// diffed only when a prior version existed as well.
pub open spec fn spec_plan(
    prev: Seq<char>,
    cur: Seq<char>,
    force: Option<bool>,
    per_package: bool,
) -> UpdatePlan {
    if cur == prev {
        UpdatePlan::NoChange
    } else {
        let gd = spec_effective_diff(force, per_package);
        UpdatePlan::Fetch { format: gd, diff: gd && prev != sentinel() }
    }
}

/// Decides the pipeline's remaining stages for one package.
pub fn plan_update(
    prev_version: &String,
    cur_version: &String,
    force_generate_diffs: &Option<bool>,
    generate_diff: bool,
) -> (p: UpdatePlan)
    ensures
        p == spec_plan(prev_version@, cur_version@, *force_generate_diffs, generate_diff),
{
    if *cur_version == *prev_version {
        UpdatePlan::NoChange
    } else {
        let gd = effective_generate_diff(force_generate_diffs, generate_diff);
        let had_prior = !(*prev_version == sentinel_version());
        UpdatePlan::Fetch { format: gd, diff: gd && had_prior }
    }
}

/// The ledger's map after one run in which the packages of `run` reached the
/// reconcile step, each with its resolved version, in that order.
pub open spec fn ledger_after_run(
    m: Map<Seq<char>, Seq<char>>,
    run: Seq<(Seq<char>, Seq<char>)>,
) -> Map<Seq<char>, Seq<char>>
    decreases run.len(),
{
    if run.len() == 0 {
        m
    } else {
        ledger_after_run(m, run.drop_last()).insert(run.last().0, run.last().1)
    }
}

/// After one run, the ledger holds an entry for every package that reached
/// the reconcile step, with exactly that run's resolved version.
pub proof fn lemma_run_records_all_packages(
    m: Map<Seq<char>, Seq<char>>,
    run: Seq<(Seq<char>, Seq<char>)>,
)
    requires
        forall|i: int, j: int| 0 <= i < j < run.len() ==> run[i].0 != run[j].0,
    ensures
        forall|i: int|
            0 <= i < run.len() ==> ledger_after_run(m, run).dom().contains(#[trigger] run[i].0)
                && ledger_after_run(m, run)[run[i].0] == run[i].1,
    decreases run.len(),
{
    if run.len() > 0 {
        lemma_run_records_all_packages(m, run.drop_last());
        let last = run.len() - 1;
        assert forall|i: int|
            0 <= i < run.len() implies ledger_after_run(m, run).dom().contains(
            #[trigger] run[i].0,
        ) && ledger_after_run(m, run)[run[i].0] == run[i].1 by {
            if i < last {
                assert(run.drop_last()[i] == run[i]);
                assert(run[i].0 != run[last].0);
            }
        }
    }
}

/// Re-running with no upstream change is idempotent: when a second run
/// resolves, for each package, exactly the version the first run recorded,
/// the plan for every package is `NoChange`, whatever the diff settings —
/// no fetch, no formatting and no diff take place.
pub proof fn lemma_rerun_no_change(
    m: Map<Seq<char>, Seq<char>>,
    run: Seq<(Seq<char>, Seq<char>)>,
    i: int,
    force: Option<bool>,
    per_package: bool,
)
    requires
        forall|p: int, q: int| 0 <= p < q < run.len() ==> run[p].0 != run[q].0,
        0 <= i < run.len(),
    ensures
        spec_plan(ledger_after_run(m, run)[run[i].0], run[i].1, force, per_package)
            == UpdatePlan::NoChange,
{
    lemma_run_records_all_packages(m, run);
}

} // verus!
