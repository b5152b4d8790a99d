//! What the background loops report about themselves.

use crate::routine::RoutineFireReport;
use crate::workload::WorkloadReconciliationReport;
use vstd::prelude::*;
use vstd::string::*;

verus! {

/// Five seconds, in nanoseconds.
pub const DEFAULT_WORKLOAD_RECONCILIATION_INTERVAL: u128 = 5_000_000_000;

/// One second, in nanoseconds.
pub const DEFAULT_ROUTINE_TICK_INTERVAL: u128 = 1_000_000_000;

/// Two seconds, in nanoseconds.
pub const DEFAULT_MANAGER_TICK_INTERVAL: u128 = 2_000_000_000;

pub const MAX_MANAGER_PLANS_PER_PASS: usize = 16;

pub const MAX_MANAGER_OBSERVATIONS_PER_PASS: usize = 64;

/// What one pass over the manager plans came to.
#[derive(Debug, Clone, Copy, PartialEq, Eq, Structural)]
pub struct ManagerSupervisorReport {
    pub plans_scanned: usize,
    pub plans_processed: usize,
    pub work_created: usize,
    pub messages_created: usize,
    pub decisions_created: usize,
    pub decisions_applied: usize,
    pub decisions_rejected: usize,
    pub bounded: bool,
}

impl Default for ManagerSupervisorReport {
    fn default() -> (r: ManagerSupervisorReport)
        ensures
            r == (ManagerSupervisorReport {
                plans_scanned: 0,
                plans_processed: 0,
                work_created: 0,
                messages_created: 0,
                decisions_created: 0,
                decisions_applied: 0,
                decisions_rejected: 0,
                bounded: false,
            }),
    {
        ManagerSupervisorReport {
            plans_scanned: 0,
            plans_processed: 0,
            work_created: 0,
            messages_created: 0,
            decisions_created: 0,
            decisions_applied: 0,
            decisions_rejected: 0,
            bounded: false,
        }
    }
}

/// An interval in whole milliseconds, as far as they can be counted.
pub open spec fn millis(nanos: u128) -> u64 {
    if nanos / 1_000_000 > u64::MAX {
        u64::MAX
    } else {
        (nanos / 1_000_000) as u64
    }
}

/// An interval, given in nanoseconds, in whole milliseconds.
pub fn interval_ms(nanos: u128) -> (ms: u64)
    ensures
        ms == millis(nanos),
{
    let ms: u128 = nanos / 1_000_000;
    if ms > u64::MAX as u128 {
        u64::MAX
    } else {
        ms as u64
    }
}

/// The interval a loop keeps: none is taken as one second.
pub fn used_interval(nanos: u128) -> (used: u128)
    ensures
        used == if nanos == 0 {
            1_000_000_000
        } else {
            nanos
        },
{
    if nanos == 0 {
        1_000_000_000
    } else {
        nanos
    }
}

/// How the loop over the manager plans is doing.
#[derive(Debug)]
pub struct ManagerSupervisorStatus {
    pub enabled: bool,
    pub interval_ms: u64,
    pub started_at: Option<i128>,
    pub last_run_at: Option<i128>,
    pub last_success_at: Option<i128>,
    pub last_error: Option<String>,
    pub last_report: ManagerSupervisorReport,
}

impl ManagerSupervisorStatus {
    /// The loop is off.
    pub fn disabled() -> (s: ManagerSupervisorStatus)
        ensures
            !s.enabled,
            s.interval_ms == 2_000,
            s.started_at is None,
            s.last_run_at is None,
            s.last_success_at is None,
            s.last_error is None,
            s.last_report == (ManagerSupervisorReport {
                plans_scanned: 0,
                plans_processed: 0,
                work_created: 0,
                messages_created: 0,
                decisions_created: 0,
                decisions_applied: 0,
                decisions_rejected: 0,
                bounded: false,
            }),
    {
        ManagerSupervisorStatus {
            enabled: false,
            interval_ms: interval_ms(DEFAULT_MANAGER_TICK_INTERVAL),
            started_at: None,
            last_run_at: None,
            last_success_at: None,
            last_error: None,
            last_report: ManagerSupervisorReport::default(),
        }
    }
}

/// How the loop over the work ledger is doing.
#[derive(Debug)]
pub struct WorkloadSupervisorStatus {
    pub enabled: bool,
    pub interval_ms: u64,
    pub started_at: Option<i128>,
    pub last_run_at: Option<i128>,
    pub last_success_at: Option<i128>,
    pub last_error: Option<String>,
    pub last_report: WorkloadReconciliationReport,
}

impl WorkloadSupervisorStatus {
    /// The loop has made no pass yet, with a report of nothing.
    pub open spec fn idle(self, enabled: bool, interval: u128, started_at: Option<i128>) -> bool {
        &&& self.enabled == enabled
        &&& self.interval_ms == millis(interval)
        &&& self.started_at == started_at
        &&& self.last_run_at is None
        &&& self.last_success_at is None
        &&& self.last_error is None
        &&& self.last_report == crate::workload::empty_report()
    }

    /// The loop is off.
    pub fn disabled(interval: u128) -> (s: WorkloadSupervisorStatus)
        ensures
            s.idle(false, interval, None),
    {
        WorkloadSupervisorStatus {
            enabled: false,
            interval_ms: interval_ms(interval),
            started_at: None,
            last_run_at: None,
            last_success_at: None,
            last_error: None,
            last_report: WorkloadReconciliationReport::default(),
        }
    }

    /// The loop was started.
    pub fn started(interval: u128, now: i128) -> (s: WorkloadSupervisorStatus)
        ensures
            s.idle(true, interval, Some(now)),
    {
        WorkloadSupervisorStatus {
            enabled: true,
            interval_ms: interval_ms(interval),
            started_at: Some(now),
            last_run_at: None,
            last_success_at: None,
            last_error: None,
            last_report: WorkloadReconciliationReport::default(),
        }
    }

    /// A pass began.
    pub fn begin_pass(&mut self, now: i128)
        ensures
            *final(self) == (WorkloadSupervisorStatus { last_run_at: Some(now), ..*old(self) }),
    {
        self.last_run_at = Some(now);
    }

    /// A pass that began at `now` ended. After an error the last report and the
    /// last success stand.
    pub fn end_pass(&mut self, outcome: Result<WorkloadReconciliationReport, String>, now: i128)
        ensures
            *final(self) == match outcome {
                Ok(report) => WorkloadSupervisorStatus {
                    last_success_at: Some(now),
                    last_error: None,
                    last_report: report,
                    ..*old(self)
                },
                Err(e) => WorkloadSupervisorStatus { last_error: Some(e), ..*old(self) },
            },
    {
        match outcome {
            Ok(report) => {
                self.last_success_at = Some(now);
                self.last_error = None;
                self.last_report = report;
            },
            Err(e) => {
                self.last_error = Some(e);
            },
        }
    }
}

/// How the loop that fires routines is doing.
#[derive(Debug)]
pub struct RoutineSupervisorStatus {
    pub enabled: bool,
    pub interval_ms: u64,
    pub started_at: Option<i128>,
    pub last_run_at: Option<i128>,
    pub last_success_at: Option<i128>,
    pub last_error: Option<String>,
    pub last_report: RoutineFireReport,
}

impl RoutineSupervisorStatus {
    /// The loop has made no pass yet, with a report of nothing.
    pub open spec fn idle(self, enabled: bool, interval: u128, started_at: Option<i128>) -> bool {
        &&& self.enabled == enabled
        &&& self.interval_ms == millis(interval)
        &&& self.started_at == started_at
        &&& self.last_run_at is None
        &&& self.last_success_at is None
        &&& self.last_error is None
        &&& self.last_report == (RoutineFireReport {
            scanned_routines: 0,
            created_work: 0,
            deduplicated: 0,
            rejected: 0,
            skipped: 0,
        })
    }

    /// The loop is off.
    pub fn disabled(interval: u128) -> (s: RoutineSupervisorStatus)
        ensures
            s.idle(false, interval, None),
    {
        RoutineSupervisorStatus {
            enabled: false,
            interval_ms: interval_ms(interval),
            started_at: None,
            last_run_at: None,
            last_success_at: None,
            last_error: None,
            last_report: RoutineFireReport::default(),
        }
    }

    /// The loop was started.
    pub fn started(interval: u128, now: i128) -> (s: RoutineSupervisorStatus)
        ensures
            s.idle(true, interval, Some(now)),
    {
        RoutineSupervisorStatus {
            enabled: true,
            interval_ms: interval_ms(interval),
            started_at: Some(now),
            last_run_at: None,
            last_success_at: None,
            last_error: None,
            last_report: RoutineFireReport::default(),
        }
    }

    /// A pass began.
    pub fn begin_pass(&mut self, now: i128)
        ensures
            *final(self) == (RoutineSupervisorStatus { last_run_at: Some(now), ..*old(self) }),
    {
        self.last_run_at = Some(now);
    }

    /// A pass that began at `now` ended. After an error the last report and the
    /// last success stand.
    pub fn end_pass(&mut self, outcome: Result<RoutineFireReport, String>, now: i128)
        ensures
            *final(self) == match outcome {
                Ok(report) => RoutineSupervisorStatus {
                    last_success_at: Some(now),
                    last_error: None,
                    last_report: report,
                    ..*old(self)
                },
                Err(e) => RoutineSupervisorStatus { last_error: Some(e), ..*old(self) },
            },
    {
        match outcome {
            Ok(report) => {
                self.last_success_at = Some(now);
                self.last_error = None;
                self.last_report = report;
            },
            Err(e) => {
                self.last_error = Some(e);
            },
        }
    }
}

} // verus!
