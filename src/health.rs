use vstd::prelude::*;
use vstd::string::*;

use crate::utils::opt_view;

verus! {

/// Availability of the backend as the monitor sees it.
#[derive(PartialEq, Eq, Structural, Clone, Copy, Debug)]
pub enum HealthStatus {
    Healthy,
    Degraded,
    Unhealthy,
}

/// The last probe's view of the backend; times are seconds since the epoch.
pub struct CouchDbStatus {
    pub available: bool,
    pub last_checked: u64,
    pub error_message: Option<String>,
}

/// The body of the health endpoint.
pub struct HealthResponse {
    pub status: String,
    pub uptime_seconds: u64,
    pub version: String,
    pub services: ServiceStatus,
}

/// The state of each backing service.
pub struct ServiceStatus {
    pub couchdb: CouchDbStatus,
}

/// What one probe of the backend came to.
pub enum ProbeOutcome {
    /// The backend answered the ping.
    Succeeded,
    /// The ping failed, with its message.
    Failed(String),
    /// The ping did not finish within the probe timeout.
    TimedOut,
}

/// Failures in a row from which the backend counts as degraded.
pub const DEGRADED_AFTER: u32 = 3;
/// Failures in a row from which the backend counts as unhealthy.
pub const UNHEALTHY_AFTER: u32 = 10;
/// Longest wait between two probes, in seconds.
pub const MAX_CHECK_INTERVAL_SECS: u64 = 300;
/// Deadline of one probe, in seconds.
pub const PROBE_TIMEOUT_SECS: u64 = 5;

/// The status that a run of `failures` consecutive failed probes gives.
pub open spec fn status_for(failures: nat) -> HealthStatus {
    if failures >= UNHEALTHY_AFTER {
        HealthStatus::Unhealthy
    } else if failures >= DEGRADED_AFTER {
        HealthStatus::Degraded
    } else {
        HealthStatus::Healthy
    }
}

pub open spec fn pow2(n: nat) -> nat
    decreases n,
{
    if n == 0 {
        1
    } else {
        2 * pow2((n - 1) as nat)
    }
}

/// The wait after `failures` consecutive failed probes: `base * 2^failures`,
/// capped at `max`.
pub open spec fn spec_backoff(base: nat, failures: nat, max: nat) -> nat {
    if base * pow2(failures) < max {
        base * pow2(failures)
    } else {
        max
    }
}

proof fn lemma_pow2_grows(a: nat, b: nat)
    requires
        a <= b,
    ensures
        1 <= pow2(a) <= pow2(b),
    decreases b,
{
    if b > 0 {
        if a < b {
            lemma_pow2_grows(a, (b - 1) as nat);
        }
        lemma_pow2_grows(0, (b - 1) as nat);
    }
}

/// The wait after `failures` consecutive failed probes, in seconds.
pub fn backoff_interval(base: u64, failures: u32, max: u64) -> (r: u64)
    ensures
        r == spec_backoff(base as nat, failures as nat, max as nat),
{
    proof {
        lemma_pow2_grows(0, failures as nat);
    }
    if base >= max {
        assert(base * pow2(failures as nat) >= base) by (nonlinear_arith)
            requires pow2(failures as nat) >= 1;
        return max;
    }
    let mut v = base;
    let mut i: u32 = 0;
    assert(pow2(0) == 1);
    assert(v == base * pow2(0)) by (nonlinear_arith)
        requires pow2(0) == 1, v == base;
    while i < failures
        invariant
            i <= failures,
            v == base * pow2(i as nat),
            v < max,
        decreases failures - i,
    {
        if v >= max - v {
            proof {
                lemma_pow2_grows((i + 1) as nat, failures as nat);
                let p = pow2((i + 1) as nat);
                let q = pow2(failures as nat);
                assert(base * p == 2 * v) by (nonlinear_arith)
                    requires p == 2 * pow2(i as nat), v == base * pow2(i as nat);
                assert(base * q >= base * p) by (nonlinear_arith)
                    requires q >= p;
            }
            return max;
        }
        proof {
            assert(base * pow2((i + 1) as nat) == 2 * v) by (nonlinear_arith)
                requires pow2((i + 1) as nat) == 2 * pow2(i as nat), v == base * pow2(i as nat);
        }
        v = v * 2;
        i += 1;
    }
    v
}

/// The error text recorded for a failed probe.
pub open spec fn probe_error(outcome: ProbeOutcome) -> Option<Seq<char>> {
    match outcome {
        ProbeOutcome::Succeeded => None,
        ProbeOutcome::Failed(m) => Some("Backend connection error: "@ + m@),
        ProbeOutcome::TimedOut => Some("Backend connection timed out"@),
    }
}

/// The monitor's state.
pub struct HealthState {
    pub start_time: u64,
    pub couchdb_status: CouchDbStatus,
    pub check_interval: u64,
    consecutive_failures: u32,
    max_check_interval: u64,
    status: HealthStatus,
    last_couchdb_check: Option<u64>,
    current_interval: u64,
}

/// The model of the monitor: what its operations read and change.
pub struct HealthView {
    pub available: bool,
    pub last_checked: nat,
    pub error: Option<Seq<char>>,
    pub failures: nat,
    pub status: HealthStatus,
    pub base: nat,
    pub max: nat,
    pub interval: nat,
    pub last_success: Option<nat>,
    pub start: nat,
}

impl View for HealthState {
    type V = HealthView;

    closed spec fn view(&self) -> HealthView {
        HealthView {
            available: self.couchdb_status.available,
            last_checked: self.couchdb_status.last_checked as nat,
            error: opt_view(self.couchdb_status.error_message),
            failures: self.consecutive_failures as nat,
            status: self.status,
            base: self.check_interval as nat,
            max: self.max_check_interval as nat,
            interval: self.current_interval as nat,
            last_success: match self.last_couchdb_check {
                Some(t) => Some(t as nat),
                None => None,
            },
            start: self.start_time as nat,
        }
    }
}

/// The count after one more failure; it stays at its largest value.
pub open spec fn failures_after(failures: nat) -> nat {
    if failures < u32::MAX {
        failures + 1
    } else {
        failures
    }
}

/// The status after one more failure, with `failures` the new count: a
/// threshold that is reached lowers the status, below the first one it stays
/// as it was.
pub open spec fn status_after_failure(failures: nat, status: HealthStatus) -> HealthStatus {
    if failures >= UNHEALTHY_AFTER {
        HealthStatus::Unhealthy
    } else if failures >= DEGRADED_AFTER {
        HealthStatus::Degraded
    } else {
        status
    }
}

/// The label that the health endpoint reports for a status.
pub open spec fn status_label(status: HealthStatus) -> Seq<char> {
    match status {
        HealthStatus::Healthy => "healthy"@,
        HealthStatus::Degraded => "degraded"@,
        HealthStatus::Unhealthy => "unhealthy"@,
    }
}

/// The monitor after a probe that finished at `now` with `outcome`.
pub open spec fn spec_after_probe(m: HealthView, outcome: ProbeOutcome, now: nat) -> HealthView {
    match outcome {
        ProbeOutcome::Succeeded => HealthView {
            available: true,
            last_checked: now,
            error: None,
            failures: 0,
            status: HealthStatus::Healthy,
            interval: m.base,
            last_success: Some(now),
            ..m
        },
        _ => HealthView {
            available: false,
            last_checked: now,
            error: probe_error(outcome),
            failures: failures_after(m.failures),
            status: status_after_failure(failures_after(m.failures), m.status),
            interval: spec_backoff(m.base, failures_after(m.failures), m.max),
            ..m
        },
    }
}

impl HealthState {
    /// A monitor started at `now` that probes every `check_interval` seconds
    /// while the backend answers. It is `Healthy` but not yet `available`.
    pub fn new(check_interval: u64, now: u64) -> (r: HealthState)
        ensures
            r@ == (HealthView {
                available: false,
                last_checked: now as nat,
                error: None,
                failures: 0,
                status: HealthStatus::Healthy,
                base: check_interval as nat,
                max: MAX_CHECK_INTERVAL_SECS as nat,
                interval: check_interval as nat,
                last_success: None,
                start: now as nat,
            }),
    {
        HealthState {
            start_time: now,
            couchdb_status: CouchDbStatus { available: false, last_checked: now, error_message: None },
            check_interval,
            consecutive_failures: 0,
            max_check_interval: MAX_CHECK_INTERVAL_SECS,
            status: HealthStatus::Healthy,
            last_couchdb_check: None,
            current_interval: check_interval,
        }
    }

    /// Records the backend's availability as seen at `now`.
    pub fn update_couchdb_status(&mut self, available: bool, error_message: Option<String>, now: u64)
        ensures
            final(self)@ == (HealthView {
                available,
                last_checked: now as nat,
                error: opt_view(error_message),
                ..old(self)@
            }),
    {
        self.couchdb_status.available = available;
        self.couchdb_status.last_checked = now;
        self.couchdb_status.error_message = error_message;
    }

    /// Sets the reported status.
    pub fn set_status(&mut self, status: HealthStatus)
        ensures
            final(self)@ == (HealthView { status, ..old(self)@ }),
    {
        self.status = status;
    }

    /// Counts one more failed probe and lowers the status once the run of
    /// failures reaches its thresholds.
    pub fn record_couchdb_error(&mut self)
        ensures
            final(self)@ == (HealthView {
                failures: failures_after(old(self)@.failures),
                status: status_after_failure(failures_after(old(self)@.failures), old(self)@.status),
                ..old(self)@
            }),
    {
        if self.consecutive_failures < u32::MAX {
            self.consecutive_failures = self.consecutive_failures + 1;
        }
        if self.consecutive_failures >= UNHEALTHY_AFTER {
            self.set_status(HealthStatus::Unhealthy);
        } else if self.consecutive_failures >= DEGRADED_AFTER {
            self.set_status(HealthStatus::Degraded);
        }
    }

    /// Records a successful probe at `now`: the run of failures ends and the
    /// status is `Healthy` again.
    pub fn record_couchdb_success(&mut self, now: u64)
        ensures
            final(self)@ == (HealthView {
                failures: 0,
                status: HealthStatus::Healthy,
                last_success: Some(now as nat),
                ..old(self)@
            }),
    {
        self.last_couchdb_check = Some(now);
        self.consecutive_failures = 0;
        self.set_status(HealthStatus::Healthy);
    }

    /// Applies the outcome of one probe finished at `now`, and returns the
    /// number of seconds to wait before the next one.
    pub fn apply_probe(&mut self, outcome: ProbeOutcome, now: u64) -> (wait: u64)
        ensures
            final(self)@ == spec_after_probe(old(self)@, outcome, now as nat),
            wait as nat == final(self)@.interval,
    {
        match outcome {
            ProbeOutcome::Succeeded => {
                self.current_interval = self.check_interval;
                self.update_couchdb_status(true, None, now);
                self.record_couchdb_success(now);
            },
            ProbeOutcome::Failed(m) => {
                let mut text = "Backend connection error: ".to_owned();
                text.append(m.as_str());
                self.record_couchdb_error();
                self.current_interval = backoff_interval(self.check_interval, self.consecutive_failures, self.max_check_interval);
                self.update_couchdb_status(false, Some(text), now);
            },
            ProbeOutcome::TimedOut => {
                self.record_couchdb_error();
                self.current_interval = backoff_interval(self.check_interval, self.consecutive_failures, self.max_check_interval);
                self.update_couchdb_status(false, Some("Backend connection timed out".to_owned()), now);
            },
        }
        self.current_interval
    }

    /// The reported status.
    pub fn get_status(&self) -> (r: HealthStatus)
        ensures
            r == self@.status,
    {
        self.status
    }

    /// Seconds from the last successful probe to `now`, if there was one.
    pub fn time_since_last_couchdb_check(&self, now: u64) -> (r: Option<u64>)
        ensures
            r == match self@.last_success {
                Some(t) => Some(if now >= t { (now - t) as u64 } else { 0u64 }),
                None => None::<u64>,
            },
    {
        match self.last_couchdb_check {
            Some(t) => Some(if now >= t { now - t } else { 0 }),
            None => None,
        }
    }

    /// The number of consecutive failed probes.
    pub fn get_couchdb_errors(&self) -> (r: u32)
        ensures
            r as nat == self@.failures,
    {
        self.consecutive_failures
    }

    /// A copy of the last probe's view of the backend.
    pub fn couchdb_snapshot(&self) -> (r: CouchDbStatus)
        ensures
            r.available == self@.available,
            r.last_checked as nat == self@.last_checked,
            opt_view(r.error_message) == self@.error,
    {
        CouchDbStatus {
            available: self.couchdb_status.available,
            last_checked: self.couchdb_status.last_checked,
            error_message: match &self.couchdb_status.error_message {
                Some(e) => Some(e.clone()),
                None => None,
            },
        }
    }

    /// The body of the health endpoint at `now`, for a build of `version`.
    pub fn health_response(&self, now: u64, version: &str) -> (r: HealthResponse)
        ensures
            r.status@ == status_label(self@.status),
            r.uptime_seconds as nat == if now >= self@.start { now - self@.start } else { 0 },
            r.version@ == version@,
            r.services.couchdb.available == self@.available,
            r.services.couchdb.last_checked as nat == self@.last_checked,
            opt_view(r.services.couchdb.error_message) == self@.error,
    {
        let label = match self.status {
            HealthStatus::Healthy => "healthy",
            HealthStatus::Degraded => "degraded",
            HealthStatus::Unhealthy => "unhealthy",
        };
        HealthResponse {
            status: label.to_owned(),
            uptime_seconds: if now >= self.start_time { now - self.start_time } else { 0 },
            version: version.to_owned(),
            services: ServiceStatus { couchdb: self.couchdb_snapshot() },
        }
    }

    /// Seconds to wait before the next probe.
    pub fn current_interval(&self) -> (r: u64)
        ensures
            r as nat == self@.interval,
    {
        self.current_interval
    }
}

/// The monitor after the probes `outcomes`, in order.
pub open spec fn after_probes(m: HealthView, outcomes: Seq<ProbeOutcome>, now: nat) -> HealthView
    decreases outcomes.len(),
{
    if outcomes.len() == 0 {
        m
    } else {
        spec_after_probe(after_probes(m, outcomes.drop_last(), now), outcomes.last(), now)
    }
}

/// Whether every probe of `outcomes` failed.
pub open spec fn all_failed(outcomes: Seq<ProbeOutcome>) -> bool {
    forall|i: int| 0 <= i < outcomes.len() ==> !(#[trigger] outcomes[i] is Succeeded)
}

proof fn lemma_backoff_steps(base: nat, n: nat, max: nat)
    requires
        base <= max,
    ensures
        base <= spec_backoff(base, n, max),
        spec_backoff(base, n, max) <= spec_backoff(base, failures_after(n), max),
        spec_backoff(base, n, max) <= max,
{
    lemma_pow2_grows(0, n);
    lemma_pow2_grows(n, failures_after(n));
    let p = pow2(n);
    let q = pow2(failures_after(n));
    assert(base * p >= base) by (nonlinear_arith)
        requires p >= 1;
    assert(base * q >= base * p) by (nonlinear_arith)
        requires q >= p;
}

/// One probe: a failed one never shortens the wait and never takes it past
/// the cap; a successful one restores the base wait and clears the count of
/// failures. A monitor whose wait is the backoff of its count keeps that
/// property.
pub proof fn lemma_probe_backoff(m: HealthView, outcome: ProbeOutcome, now: nat)
    requires
        m.base <= m.max,
        m.interval == spec_backoff(m.base, m.failures, m.max),
    ensures
        ({
            let n = spec_after_probe(m, outcome, now);
            &&& n.base == m.base && n.max == m.max
            &&& n.interval == spec_backoff(n.base, n.failures, n.max)
            &&& outcome is Succeeded ==> n.interval == m.base && n.failures == 0
            &&& !(outcome is Succeeded) ==> m.interval <= n.interval <= m.max
        }),
{
    lemma_backoff_steps(m.base, m.failures, m.max);
    lemma_backoff_steps(m.base, failures_after(m.failures), m.max);
    lemma_pow2_grows(0, 0);
    assert(m.base * pow2(0) == m.base) by (nonlinear_arith)
        requires pow2(0) == 1;
}

/// Backoff over a run of failed probes: the waits after each of them form a
/// non-decreasing sequence that never passes the cap.
pub proof fn lemma_backoff_monotone(m: HealthView, outcomes: Seq<ProbeOutcome>, now: nat)
    requires
        m.base <= m.max,
        m.interval == spec_backoff(m.base, m.failures, m.max),
        all_failed(outcomes),
    ensures
        forall|i: int, j: int|
            0 <= i <= j <= outcomes.len() ==> #[trigger] after_probes(m, outcomes.take(i), now).interval
                <= #[trigger] after_probes(m, outcomes.take(j), now).interval <= m.max,
        forall|i: int| 0 <= i <= outcomes.len() ==> {
            let n = #[trigger] after_probes(m, outcomes.take(i), now);
            n.base == m.base && n.max == m.max && n.interval == spec_backoff(n.base, n.failures, n.max)
        },
    decreases outcomes.len(),
{
    lemma_backoff_steps(m.base, m.failures, m.max);
    assert(outcomes.take(0) =~= Seq::<ProbeOutcome>::empty());
    assert(after_probes(m, outcomes.take(0), now) == m);
    if outcomes.len() > 0 {
        let k = outcomes.len() as int;
        let init = outcomes.drop_last();
        assert(all_failed(init)) by {
            assert forall|i: int| 0 <= i < init.len() implies !(#[trigger] init[i] is Succeeded) by {
                assert(init[i] == outcomes[i]);
            }
        }
        lemma_backoff_monotone(m, init, now);
        assert forall|i: int| 0 <= i <= k - 1 implies #[trigger] init.take(i) == outcomes.take(i) by {
            assert(init.take(i) =~= outcomes.take(i));
        }
        assert(init.take(k - 1) =~= init);
        let prev = after_probes(m, init.take(k - 1), now);
        assert(!(outcomes[k - 1] is Succeeded));
        lemma_probe_backoff(prev, outcomes.last(), now);
        let last = after_probes(m, outcomes.take(k), now);
        assert(last == spec_after_probe(prev, outcomes.last(), now)) by {
            assert(outcomes.take(k).drop_last() =~= init);
            assert(outcomes.take(k).last() == outcomes.last());
        }
        assert forall|i: int| 0 <= i <= k implies {
            let n = #[trigger] after_probes(m, outcomes.take(i), now);
            n.base == m.base && n.max == m.max && n.interval == spec_backoff(n.base, n.failures, n.max)
        } by {
            if i < k {
                assert(init.take(i) == outcomes.take(i));
            }
        }
        assert forall|i: int, j: int| 0 <= i <= j <= k implies #[trigger] after_probes(m, outcomes.take(i), now).interval
            <= #[trigger] after_probes(m, outcomes.take(j), now).interval <= m.max by {
            if j < k {
                assert(init.take(i) == outcomes.take(i));
                assert(init.take(j) == outcomes.take(j));
            } else if i < k {
                assert(init.take(i) == outcomes.take(i));
                assert(after_probes(m, init.take(i), now).interval <= after_probes(m, init.take(k - 1), now).interval);
            }
        }
    }
}

proof fn lemma_failure_count(m: HealthView, outcomes: Seq<ProbeOutcome>, now: nat)
    requires
        all_failed(outcomes),
        m.failures + outcomes.len() <= u32::MAX,
    ensures
        after_probes(m, outcomes, now).failures == m.failures + outcomes.len(),
    decreases outcomes.len(),
{
    if outcomes.len() > 0 {
        let init = outcomes.drop_last();
        assert(all_failed(init)) by {
            assert forall|i: int| 0 <= i < init.len() implies !(#[trigger] init[i] is Succeeded) by {
                assert(init[i] == outcomes[i]);
            }
        }
        lemma_failure_count(m, init, now);
        assert(!(outcomes[outcomes.len() - 1] is Succeeded));
    }
}

/// Backoff from a monitor with no failures that waits its base interval:
/// after the `k`-th failed probe in a row the wait is `base * 2^k`, capped at
/// the largest wait.
pub proof fn lemma_backoff_from_start(m: HealthView, outcomes: Seq<ProbeOutcome>, now: nat)
    requires
        m.failures == 0,
        m.base <= m.max,
        m.interval == m.base,
        all_failed(outcomes),
        outcomes.len() < u32::MAX,
    ensures
        forall|k: int| 0 <= k <= outcomes.len() ==> #[trigger] after_probes(m, outcomes.take(k), now).interval
            == spec_backoff(m.base, k as nat, m.max),
{
    lemma_pow2_grows(0, 0);
    assert(m.base * pow2(0) == m.base) by (nonlinear_arith)
        requires pow2(0) == 1;
    lemma_backoff_monotone(m, outcomes, now);
    assert forall|k: int| 0 <= k <= outcomes.len() implies #[trigger] after_probes(m, outcomes.take(k), now).interval
        == spec_backoff(m.base, k as nat, m.max) by {
        let t = outcomes.take(k);
        assert(all_failed(t)) by {
            assert forall|i: int| 0 <= i < t.len() implies !(#[trigger] t[i] is Succeeded) by {
                assert(t[i] == outcomes[i]);
            }
        }
        lemma_failure_count(m, t, now);
    }
}

/// Status thresholds: from a monitor with no failures, a run of failed probes
/// leaves it `Healthy` for fewer than three, makes it `Degraded` at exactly
/// three and `Unhealthy` at exactly ten; one successful probe from any state
/// makes it `Healthy`.
pub proof fn lemma_status_thresholds(m: HealthView, outcomes: Seq<ProbeOutcome>, success_from: HealthView, now: nat)
    requires
        m.failures == 0,
        m.status == HealthStatus::Healthy,
        all_failed(outcomes),
        outcomes.len() < u32::MAX,
    ensures
        after_probes(m, outcomes, now).failures == outcomes.len(),
        after_probes(m, outcomes, now).status == status_for(outcomes.len()),
        outcomes.len() < 3 ==> after_probes(m, outcomes, now).status == HealthStatus::Healthy,
        outcomes.len() == 3 ==> after_probes(m, outcomes, now).status == HealthStatus::Degraded,
        outcomes.len() == 10 ==> after_probes(m, outcomes, now).status == HealthStatus::Unhealthy,
        spec_after_probe(success_from, ProbeOutcome::Succeeded, now).status == HealthStatus::Healthy,
    decreases outcomes.len(),
{
    if outcomes.len() > 0 {
        let init = outcomes.drop_last();
        assert(all_failed(init)) by {
            assert forall|i: int| 0 <= i < init.len() implies !(#[trigger] init[i] is Succeeded) by {
                assert(init[i] == outcomes[i]);
            }
        }
        lemma_status_thresholds(m, init, success_from, now);
        assert(!(outcomes[outcomes.len() - 1] is Succeeded));
    } else {
        assert(status_for(0) == HealthStatus::Healthy);
    }
}

} // verus!
