//! Transport benchmark profiles, checks and the aggregate over the
//! benchmark scenarios, with the published byte and queue-depth baselines of
//! the shard-target profile.

use vstd::prelude::*;
use crate::decimal::{decimal_digits, decimal_string};

verus! {

/// Load profile of the transport benchmark suite.
#[derive(Debug, Clone, Copy, PartialEq, Eq, Structural)]
pub enum TransportBenchmarkProfile {
    CiSmoke,
    ShardTarget,
}

/// Whether two strings are equal.
fn str_eq(a: &str, b: &str) -> (res: bool)
    ensures
        res == (a@ == b@),
{
    String::from_str(a) == String::from_str(b)
}

impl TransportBenchmarkProfile {
    /// The profile's name.
    pub open spec fn spec_name(self) -> Seq<char> {
        match self {
            TransportBenchmarkProfile::CiSmoke => "ci-smoke"@,
            TransportBenchmarkProfile::ShardTarget => "shard-target"@,
        }
    }

    /// The profile's name: "ci-smoke" or "shard-target".
    pub fn as_str(self) -> (res: &'static str)
        ensures
            res@ == self.spec_name(),
    {
        match self {
            TransportBenchmarkProfile::CiSmoke => "ci-smoke",
            TransportBenchmarkProfile::ShardTarget => "shard-target",
        }
    }

    /// How many state deltas the steady-delta scenario sends.
    pub fn delta_messages(self) -> (res: u64)
        ensures
            res == (if self is CiSmoke { 2u64 } else { 8u64 }),
    {
        match self {
            TransportBenchmarkProfile::CiSmoke => 2,
            TransportBenchmarkProfile::ShardTarget => 8,
        }
    }

    /// How many recovery snapshots the recovery scenario requests.
    pub fn recovery_requests(self) -> (res: u64)
        ensures
            res == (if self is CiSmoke { 1u64 } else { 3u64 }),
    {
        match self {
            TransportBenchmarkProfile::CiSmoke => 1,
            TransportBenchmarkProfile::ShardTarget => 3,
        }
    }

    /// How many actions the queue-pressure scenario submits in one batch
    /// (alternating idle and stop, starting with idle).
    pub fn queue_pressure_action_count(self) -> (res: usize)
        ensures
            res == (if self is CiSmoke { 3usize } else { 6usize }),
    {
        match self {
            TransportBenchmarkProfile::CiSmoke => 3,
            TransportBenchmarkProfile::ShardTarget => 6,
        }
    }

    /// The profile named `value`, or the error text for an unknown name.
    pub fn from_name(value: &str) -> (res: Result<Self, String>)
        ensures
            value@ == "ci-smoke"@ ==> res == Ok::<Self, String>(TransportBenchmarkProfile::CiSmoke),
            value@ == "shard-target"@ ==> res == Ok::<Self, String>(TransportBenchmarkProfile::ShardTarget),
            value@ != "ci-smoke"@ && value@ != "shard-target"@ ==> (res matches Err(e) && e@
                == "unsupported transport benchmark profile '"@ + value@
                + "' (expected 'ci-smoke' or 'shard-target')"@),
    {
        proof {
            reveal_strlit("ci-smoke");
            reveal_strlit("shard-target");
            assert("ci-smoke"@.len() != "shard-target"@.len());
        }
        if str_eq(value, "ci-smoke") {
            Ok(TransportBenchmarkProfile::CiSmoke)
        } else if str_eq(value, "shard-target") {
            Ok(TransportBenchmarkProfile::ShardTarget)
        } else {
            let text = String::from_str("unsupported transport benchmark profile '");
            let text = text.concat(value);
            Err(text.concat("' (expected 'ci-smoke' or 'shard-target')"))
        }
    }
}

impl std::str::FromStr for TransportBenchmarkProfile {
    type Err = String;

    fn from_str(value: &str) -> (res: Result<Self, Self::Err>)
        ensures
            value@ == "ci-smoke"@ ==> res == Ok::<Self, String>(TransportBenchmarkProfile::CiSmoke),
            value@ == "shard-target"@ ==> res == Ok::<Self, String>(TransportBenchmarkProfile::ShardTarget),
            value@ != "ci-smoke"@ && value@ != "shard-target"@ ==> (res matches Err(e) && e@
                == "unsupported transport benchmark profile '"@ + value@
                + "' (expected 'ci-smoke' or 'shard-target')"@),
    {
        Self::from_name(value)
    }
}

/// One benchmark check: a metric, whether it passed, and the expected and
/// observed values as text.
#[derive(Debug, Clone)]
pub struct TransportBenchmarkCheck {
    pub metric: String,
    pub passed: bool,
    pub expected: String,
    pub observed: String,
}

/// The texts of a check.
pub struct CheckText {
    pub metric: Seq<char>,
    pub passed: bool,
    pub expected: Seq<char>,
    pub observed: Seq<char>,
}

impl View for TransportBenchmarkCheck {
    type V = CheckText;

    open spec fn view(&self) -> CheckText {
        CheckText {
            metric: self.metric@,
            passed: self.passed,
            expected: self.expected@,
            observed: self.observed@,
        }
    }
}

/// The texts of a list of checks.
pub open spec fn check_texts(checks: Seq<TransportBenchmarkCheck>) -> Seq<CheckText> {
    checks.map_values(|c: TransportBenchmarkCheck| c@)
}

/// Builds one benchmark check.
pub fn transport_check(metric: &str, passed: bool, expected: String, observed: String) -> (res: TransportBenchmarkCheck)
    ensures
        res@ == (CheckText { metric: metric@, passed, expected: expected@, observed: observed@ }),
{
    TransportBenchmarkCheck { metric: String::from_str(metric), passed, expected, observed }
}

/// Whether every check passed.
pub open spec fn all_passed(checks: Seq<TransportBenchmarkCheck>) -> bool {
    forall|i: int| 0 <= i < checks.len() ==> (#[trigger] checks[i]).passed
}

/// Whether every check of a list passed (vacuously so for none).
pub fn checks_all_passed(checks: &Vec<TransportBenchmarkCheck>) -> (res: bool)
    ensures
        res == all_passed(checks@),
{
    let mut i: usize = 0;
    while i < checks.len()
        invariant
            i <= checks@.len(),
            forall|j: int| 0 <= j < i ==> (#[trigger] checks@[j]).passed,
        decreases checks@.len() - i,
    {
        if !checks[i].passed {
            return false;
        }
        i = i + 1;
    }
    true
}

/// The transport totals of one scenario's shard summary that the aggregate
/// reads.
#[derive(Debug, Clone, Copy, PartialEq, Eq, Structural)]
pub struct ScenarioSummary {
    pub total_full_snapshot_bytes: u64,
    pub total_recovery_snapshot_bytes: u64,
    pub total_delta_bytes: u64,
    pub total_delta_entities_updated: u64,
    pub total_delta_entities_destroyed: u64,
    pub queue_pressure_events: u64,
    pub resumed_sessions: u64,
    pub timed_out_clients: u64,
    pub recovery_delivery_failures: u64,
    pub peak_pending_action_queue_depth: usize,
}

/// The result of one benchmark scenario.
#[derive(Debug, Clone)]
pub struct TransportBenchmarkScenarioReport {
    pub name: String,
    pub description: String,
    pub all_checks_passed: bool,
    pub summary: ScenarioSummary,
    pub checks: Vec<TransportBenchmarkCheck>,
}

/// Builds a scenario report; it passes when all of its checks pass.
pub fn build_transport_scenario_report(
    name: &str,
    description: &str,
    summary: ScenarioSummary,
    checks: Vec<TransportBenchmarkCheck>,
) -> (res: TransportBenchmarkScenarioReport)
    ensures
        res.name@ == name@,
        res.description@ == description@,
        res.all_checks_passed == all_passed(checks@),
        res.summary == summary,
        check_texts(res.checks@) == check_texts(checks@),
        res.checks@ == checks@,
{
    let all_checks_passed = checks_all_passed(&checks);
    TransportBenchmarkScenarioReport {
        name: String::from_str(name),
        description: String::from_str(description),
        all_checks_passed,
        summary,
        checks,
    }
}

/// A summed column of the scenario totals.
#[derive(Debug, Clone, Copy, PartialEq, Eq, Structural)]
pub enum TotalsField {
    FullSnapshotBytes,
    RecoverySnapshotBytes,
    DeltaBytes,
    DeltaEntitiesUpdated,
    DeltaEntitiesDestroyed,
    QueuePressureEvents,
    ResumedSessions,
    TimedOutClients,
    RecoveryDeliveryFailures,
}

/// The value of column `field` for one scenario.
pub open spec fn field_value(report: TransportBenchmarkScenarioReport, field: TotalsField) -> u64 {
    let totals = report.summary;
    match field {
        TotalsField::FullSnapshotBytes => totals.total_full_snapshot_bytes,
        TotalsField::RecoverySnapshotBytes => totals.total_recovery_snapshot_bytes,
        TotalsField::DeltaBytes => totals.total_delta_bytes,
        TotalsField::DeltaEntitiesUpdated => totals.total_delta_entities_updated,
        TotalsField::DeltaEntitiesDestroyed => totals.total_delta_entities_destroyed,
        TotalsField::QueuePressureEvents => totals.queue_pressure_events,
        TotalsField::ResumedSessions => totals.resumed_sessions,
        TotalsField::TimedOutClients => totals.timed_out_clients,
        TotalsField::RecoveryDeliveryFailures => totals.recovery_delivery_failures,
    }
}

fn field_of(report: &TransportBenchmarkScenarioReport, field: TotalsField) -> (res: u64)
    ensures
        res == field_value(*report, field),
{
    let totals = &report.summary;
    match field {
        TotalsField::FullSnapshotBytes => totals.total_full_snapshot_bytes,
        TotalsField::RecoverySnapshotBytes => totals.total_recovery_snapshot_bytes,
        TotalsField::DeltaBytes => totals.total_delta_bytes,
        TotalsField::DeltaEntitiesUpdated => totals.total_delta_entities_updated,
        TotalsField::DeltaEntitiesDestroyed => totals.total_delta_entities_destroyed,
        TotalsField::QueuePressureEvents => totals.queue_pressure_events,
        TotalsField::ResumedSessions => totals.resumed_sessions,
        TotalsField::TimedOutClients => totals.timed_out_clients,
        TotalsField::RecoveryDeliveryFailures => totals.recovery_delivery_failures,
    }
}

/// The sum of column `field` over `scenarios`.
pub open spec fn field_total(scenarios: Seq<TransportBenchmarkScenarioReport>, field: TotalsField) -> nat
    decreases scenarios.len(),
{
    if scenarios.len() == 0 {
        0
    } else {
        field_total(scenarios.drop_last(), field) + field_value(scenarios.last(), field) as nat
    }
}

/// The largest pending-queue peak over `scenarios` (0 for none).
pub open spec fn peak_depth(scenarios: Seq<TransportBenchmarkScenarioReport>) -> nat
    decreases scenarios.len(),
{
    if scenarios.len() == 0 {
        0
    } else {
        let earlier = peak_depth(scenarios.drop_last());
        let here = scenarios.last().summary.peak_pending_action_queue_depth as nat;
        if here > earlier {
            here
        } else {
            earlier
        }
    }
}

/// How many scenarios passed all their checks.
pub open spec fn passed_count(scenarios: Seq<TransportBenchmarkScenarioReport>) -> nat
    decreases scenarios.len(),
{
    if scenarios.len() == 0 {
        0
    } else {
        passed_count(scenarios.drop_last()) + if scenarios.last().all_checks_passed {
            1nat
        } else {
            0nat
        }
    }
}

/// Every summed column fits in a `u64`.
pub open spec fn totals_fit(scenarios: Seq<TransportBenchmarkScenarioReport>) -> bool {
    forall|field: TotalsField| #[trigger] field_total(scenarios, field) <= u64::MAX
}

/// A prefix sums to no more than the whole.
proof fn lemma_field_total_prefix(scenarios: Seq<TransportBenchmarkScenarioReport>, field: TotalsField, i: int)
    requires
        0 <= i <= scenarios.len(),
    ensures
        field_total(scenarios.take(i), field) <= field_total(scenarios, field),
    decreases scenarios.len() - i,
{
    if i < scenarios.len() {
        lemma_field_total_prefix(scenarios, field, i + 1);
        assert(scenarios.take(i + 1).drop_last() =~= scenarios.take(i));
    } else {
        assert(scenarios.take(i) =~= scenarios);
    }
}

/// The sum of column `field` over `scenarios`.
fn sum_field(scenarios: &Vec<TransportBenchmarkScenarioReport>, field: TotalsField) -> (res: u64)
    requires
        field_total(scenarios@, field) <= u64::MAX,
    ensures
        res == field_total(scenarios@, field),
{
    let mut total: u64 = 0;
    let mut i: usize = 0;
    while i < scenarios.len()
        invariant
            i <= scenarios@.len(),
            field_total(scenarios@, field) <= u64::MAX,
            total == field_total(scenarios@.take(i as int), field),
        decreases scenarios@.len() - i,
    {
        proof {
            assert(scenarios@.take(i + 1).drop_last() =~= scenarios@.take(i as int));
            lemma_field_total_prefix(scenarios@, field, i + 1);
        }
        total = total + field_of(&scenarios[i], field);
        i = i + 1;
    }
    proof {
        assert(scenarios@.take(i as int) =~= scenarios@);
    }
    total
}

/// Aggregate over all benchmark scenarios.
#[derive(Debug, Clone)]
pub struct TransportBenchmarkAggregate {
    pub all_checks_passed: bool,
    pub scenarios_passed: usize,
    pub scenario_count: usize,
    pub published_baseline_profile: Option<String>,
    pub checks: Vec<TransportBenchmarkCheck>,
    pub total_full_snapshot_bytes: u64,
    pub total_recovery_snapshot_bytes: u64,
    pub total_delta_bytes: u64,
    pub total_delta_entities_updated: u64,
    pub total_delta_entities_destroyed: u64,
    pub total_queue_pressure_events: u64,
    pub total_resumed_sessions: u64,
    pub total_timed_out_clients: u64,
    pub total_recovery_delivery_failures: u64,
}

/// A published-baseline check: `observed` must equal `baseline`.
pub open spec fn baseline_check(metric: Seq<char>, observed: nat, baseline: nat) -> CheckText {
    CheckText {
        metric: metric,
        passed: observed == baseline,
        expected: decimal_digits(baseline),
        observed: decimal_digits(observed),
    }
}

/// The aggregate checks of `profile`: none for the CI smoke profile; for the
/// shard target, the published baselines for full-snapshot bytes (1220),
/// recovery-snapshot bytes (234), delta bytes (1904), the pending-queue peak
/// (6) and queue-pressure events (1).
pub open spec fn aggregate_checks(profile: TransportBenchmarkProfile, scenarios: Seq<TransportBenchmarkScenarioReport>) -> Seq<CheckText> {
    match profile {
        TransportBenchmarkProfile::CiSmoke => Seq::empty(),
        TransportBenchmarkProfile::ShardTarget => seq![
            baseline_check(
                "published_baseline.aggregate.total_full_snapshot_bytes"@,
                field_total(scenarios, TotalsField::FullSnapshotBytes),
                1220,
            ),
            baseline_check(
                "published_baseline.aggregate.total_recovery_snapshot_bytes"@,
                field_total(scenarios, TotalsField::RecoverySnapshotBytes),
                234,
            ),
            baseline_check(
                "published_baseline.aggregate.total_delta_bytes"@,
                field_total(scenarios, TotalsField::DeltaBytes),
                1904,
            ),
            baseline_check("published_baseline.aggregate.peak_pending_action_queue_depth"@, peak_depth(scenarios), 6),
            baseline_check(
                "published_baseline.aggregate.total_queue_pressure_events"@,
                field_total(scenarios, TotalsField::QueuePressureEvents),
                1,
            ),
        ],
    }
}

/// Builds a baseline check for an observed value.
fn build_baseline_check(metric: &str, observed: u64, baseline: u64) -> (res: TransportBenchmarkCheck)
    ensures
        res@ == baseline_check(metric@, observed as nat, baseline as nat),
{
    transport_check(metric, observed == baseline, decimal_string(baseline), decimal_string(observed))
}

/// Aggregates the scenario results of a benchmark run under `profile`: the
/// column sums, the pending-queue peak, how many scenarios passed, the
/// profile's baseline checks (naming the profile when it has any), and
/// whether every scenario and every baseline check passed.
pub fn build_transport_benchmark_aggregate(
    profile: TransportBenchmarkProfile,
    scenarios: &Vec<TransportBenchmarkScenarioReport>,
) -> (res: TransportBenchmarkAggregate)
    requires
        totals_fit(scenarios@),
    ensures
        res.scenario_count == scenarios@.len(),
        res.scenarios_passed == passed_count(scenarios@),
        res.total_full_snapshot_bytes == field_total(scenarios@, TotalsField::FullSnapshotBytes),
        res.total_recovery_snapshot_bytes == field_total(scenarios@, TotalsField::RecoverySnapshotBytes),
        res.total_delta_bytes == field_total(scenarios@, TotalsField::DeltaBytes),
        res.total_delta_entities_updated == field_total(scenarios@, TotalsField::DeltaEntitiesUpdated),
        res.total_delta_entities_destroyed == field_total(scenarios@, TotalsField::DeltaEntitiesDestroyed),
        res.total_queue_pressure_events == field_total(scenarios@, TotalsField::QueuePressureEvents),
        res.total_resumed_sessions == field_total(scenarios@, TotalsField::ResumedSessions),
        res.total_timed_out_clients == field_total(scenarios@, TotalsField::TimedOutClients),
        res.total_recovery_delivery_failures == field_total(scenarios@, TotalsField::RecoveryDeliveryFailures),
        check_texts(res.checks@) == aggregate_checks(profile, scenarios@),
        res.published_baseline_profile matches Some(name) ==> name@ == profile.spec_name(),
        res.published_baseline_profile is Some == (profile is ShardTarget),
        res.all_checks_passed == (passed_count(scenarios@) == scenarios@.len() && all_passed(res.checks@)),
{
    let mut scenarios_passed: usize = 0;
    let mut peak: usize = 0;
    let mut i: usize = 0;
    while i < scenarios.len()
        invariant
            i <= scenarios@.len(),
            scenarios_passed == passed_count(scenarios@.take(i as int)),
            passed_count(scenarios@.take(i as int)) <= i,
            peak == peak_depth(scenarios@.take(i as int)),
        decreases scenarios@.len() - i,
    {
        proof {
            assert(scenarios@.take(i + 1).drop_last() =~= scenarios@.take(i as int));
        }
        if scenarios[i].all_checks_passed {
            scenarios_passed = scenarios_passed + 1;
        }
        if scenarios[i].summary.peak_pending_action_queue_depth > peak {
            peak = scenarios[i].summary.peak_pending_action_queue_depth;
        }
        i = i + 1;
    }
    proof {
        assert(scenarios@.take(i as int) =~= scenarios@);
    }
    let total_full_snapshot_bytes = sum_field(scenarios, TotalsField::FullSnapshotBytes);
    let total_recovery_snapshot_bytes = sum_field(scenarios, TotalsField::RecoverySnapshotBytes);
    let total_delta_bytes = sum_field(scenarios, TotalsField::DeltaBytes);
    let total_delta_entities_updated = sum_field(scenarios, TotalsField::DeltaEntitiesUpdated);
    let total_delta_entities_destroyed = sum_field(scenarios, TotalsField::DeltaEntitiesDestroyed);
    let total_queue_pressure_events = sum_field(scenarios, TotalsField::QueuePressureEvents);
    let total_resumed_sessions = sum_field(scenarios, TotalsField::ResumedSessions);
    let total_timed_out_clients = sum_field(scenarios, TotalsField::TimedOutClients);
    let total_recovery_delivery_failures = sum_field(scenarios, TotalsField::RecoveryDeliveryFailures);
    let mut checks: Vec<TransportBenchmarkCheck> = Vec::new();
    let published_baseline_profile = match profile {
        TransportBenchmarkProfile::CiSmoke => None,
        TransportBenchmarkProfile::ShardTarget => {
            checks.push(
                build_baseline_check(
                    "published_baseline.aggregate.total_full_snapshot_bytes",
                    total_full_snapshot_bytes,
                    1220,
                ),
            );
            checks.push(
                build_baseline_check(
                    "published_baseline.aggregate.total_recovery_snapshot_bytes",
                    total_recovery_snapshot_bytes,
                    234,
                ),
            );
            checks.push(
                build_baseline_check("published_baseline.aggregate.total_delta_bytes", total_delta_bytes, 1904),
            );
            checks.push(
                build_baseline_check(
                    "published_baseline.aggregate.peak_pending_action_queue_depth",
                    peak as u64,
                    6,
                ),
            );
            checks.push(
                build_baseline_check(
                    "published_baseline.aggregate.total_queue_pressure_events",
                    total_queue_pressure_events,
                    1,
                ),
            );
            Some(String::from_str(profile.as_str()))
        },
    };
    proof {
        assert(check_texts(checks@) =~= aggregate_checks(profile, scenarios@));
    }
    let aggregate_checks_passed = checks_all_passed(&checks);
    TransportBenchmarkAggregate {
        all_checks_passed: scenarios_passed == scenarios.len() && aggregate_checks_passed,
        scenarios_passed,
        scenario_count: scenarios.len(),
        published_baseline_profile,
        checks,
        total_full_snapshot_bytes,
        total_recovery_snapshot_bytes,
        total_delta_bytes,
        total_delta_entities_updated,
        total_delta_entities_destroyed,
        total_queue_pressure_events,
        total_resumed_sessions,
        total_timed_out_clients,
        total_recovery_delivery_failures,
    }
}

/// The full benchmark report of one run.
#[derive(Debug, Clone)]
pub struct TransportBenchmarkReport {
    pub schema_version: u32,
    pub generated_at_unix_ms: u128,
    pub profile: String,
    pub scenarios: Vec<TransportBenchmarkScenarioReport>,
    pub aggregate: TransportBenchmarkAggregate,
    pub notes: Vec<String>,
}

impl TransportBenchmarkReport {
    /// Whether the whole run passed: every scenario and every baseline check.
    pub fn all_checks_passed(&self) -> (res: bool)
        ensures
            res == self.aggregate.all_checks_passed,
    {
        self.aggregate.all_checks_passed
    }
}

/// The explanatory notes of a report for `profile`: how the benchmark runs
/// and how to combine it, plus, for the shard target, why its baselines are
/// enforced.
pub open spec fn report_notes(profile: TransportBenchmarkProfile) -> Seq<Seq<char>> {
    let common = seq![
        "The transport benchmark uses in-process direct-connect scenarios instead of live sockets so it stays cheap and deterministic in CI."@,
        "Use scripts/run_moat_benchmarks.ts to combine this transport report with the core moat suite, browser route measurements, and creator bootstrap timing."@,
    ];
    match profile {
        TransportBenchmarkProfile::CiSmoke => common,
        TransportBenchmarkProfile::ShardTarget => common.push(
            "The shard-target profile also enforces published byte and queue-depth baselines so deterministic transport drift becomes a conscious contract update instead of silent movement."@,
        ),
    }
}

/// Assembles the report of a run under `profile` from its scenario reports,
/// stamped with `generated_at_unix_ms` (the wall clock, read by the host):
/// schema version 2, the profile's name, the scenarios as given, their
/// aggregate and the profile's notes.
pub fn assemble_transport_benchmark_report(
    profile: TransportBenchmarkProfile,
    scenarios: Vec<TransportBenchmarkScenarioReport>,
    generated_at_unix_ms: u128,
) -> (res: TransportBenchmarkReport)
    requires
        totals_fit(scenarios@),
    ensures
        res.schema_version == 2,
        res.generated_at_unix_ms == generated_at_unix_ms,
        res.profile@ == profile.spec_name(),
        res.scenarios@ == scenarios@,
        res.aggregate.scenario_count == scenarios@.len(),
        res.aggregate.scenarios_passed == passed_count(scenarios@),
        check_texts(res.aggregate.checks@) == aggregate_checks(profile, scenarios@),
        res.aggregate.all_checks_passed == (passed_count(scenarios@) == scenarios@.len() && all_passed(
            res.aggregate.checks@,
        )),
        res.aggregate.total_full_snapshot_bytes == field_total(scenarios@, TotalsField::FullSnapshotBytes),
        res.aggregate.total_delta_bytes == field_total(scenarios@, TotalsField::DeltaBytes),
        crate::stdb_adapter::texts(res.notes@) == report_notes(profile),
{
    let aggregate = build_transport_benchmark_aggregate(profile, &scenarios);
    let mut notes: Vec<String> = Vec::new();
    notes.push(
        String::from_str(
            "The transport benchmark uses in-process direct-connect scenarios instead of live sockets so it stays cheap and deterministic in CI.",
        ),
    );
    notes.push(
        String::from_str(
            "Use scripts/run_moat_benchmarks.ts to combine this transport report with the core moat suite, browser route measurements, and creator bootstrap timing.",
        ),
    );
    if profile == TransportBenchmarkProfile::ShardTarget {
        notes.push(
            String::from_str(
                "The shard-target profile also enforces published byte and queue-depth baselines so deterministic transport drift becomes a conscious contract update instead of silent movement.",
            ),
        );
    }
    proof {
        assert(crate::stdb_adapter::texts(notes@) =~= report_notes(profile));
    }
    TransportBenchmarkReport {
        schema_version: 2,
        generated_at_unix_ms,
        profile: String::from_str(profile.as_str()),
        scenarios,
        aggregate,
        notes,
    }
}

} // verus!
