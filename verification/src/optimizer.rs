//! The game-mode engine.
//!
//! Everything that is touched is written down first and given back as it
//! was. The engine is a state machine: it decides, and the program around
//! it performs each system operation it asks for and hands back the answer.

use vstd::prelude::*;

use crate::config::{Power, PowerPlan};
use crate::error::{error_text, Error};
use crate::guid::{high_performance, ultimate, SchemeGuid};
use crate::paths::power_snapshot_file;
use crate::select::{select_throttle_targets, threshold_of, Target};
use crate::services::enabled_services;
use crate::snapshot::{same_services, snapshot_is_empty, ProcessState, ServiceState, Snapshot};
use crate::sys::{
    priority_name, MemoryStatus, ProcInfo, ProcessUsage, ServiceRunState, IDLE_PRIORITY, NORMAL_PRIORITY,
};
use crate::text::{decimal, owned, push_decimal, push_str, same_text};
use crate::util::{format_bytes, size_text};

verus! {

#[derive(Debug, Clone, Copy, PartialEq, Eq, Structural)]
pub enum Outcome {
    Applied,
    Skipped,
    Failed,
}

#[derive(Debug, Clone)]
pub struct Entry {
    pub outcome: Outcome,
    pub area: &'static str,
    pub message: String,
}

pub struct EntryView {
    pub outcome: Outcome,
    pub area: Seq<char>,
    pub message: Seq<char>,
}

impl View for Entry {
    type V = EntryView;

    open spec fn view(&self) -> EntryView {
        EntryView { outcome: self.outcome, area: self.area@, message: self.message@ }
    }
}

pub open spec fn entry_views(v: Seq<Entry>) -> Seq<EntryView> {
    v.map_values(|e: Entry| e@)
}

/// What happened while engaging or restoring. Shown as it is: the user has
/// the right to know what was touched on the machine.
#[derive(Debug, Clone)]
pub struct Report {
    pub entries: Vec<Entry>,
    pub elevated: bool,
    pub memory_before: u64,
    pub memory_after: u64,
}

impl Default for Report {
    fn default() -> (r: Report)
        ensures
            r.entries@.len() == 0,
            !r.elevated,
            r.memory_before == 0,
            r.memory_after == 0,
    {
        Report { entries: Vec::new(), elevated: false, memory_before: 0, memory_after: 0 }
    }
}

/// How many entries have that outcome.
pub open spec fn count_outcome(es: Seq<EntryView>, outcome: Outcome) -> nat
    decreases es.len(),
{
    if es.len() == 0 {
        0
    } else {
        count_outcome(es.drop_last(), outcome) + if es.last().outcome == outcome {
            1nat
        } else {
            0nat
        }
    }
}

/// Memory given back (negative: taken) during the operation.
pub open spec fn delta_of(r: Report) -> int {
    (r.memory_before as i64) - (r.memory_after as i64)
}

/// The one-line summary of a report.
pub open spec fn summary_text(r: Report) -> Seq<char> {
    let es = entry_views(r.entries@);
    let applied = count_outcome(es, Outcome::Applied);
    let failed = count_outcome(es, Outcome::Failed);
    let delta = delta_of(r);
    decimal(applied) + " cambios aplicados"@ + (if failed > 0 {
        ", "@ + decimal(failed) + " fallidos"@
    } else {
        Seq::empty()
    }) + (if delta > 8 * 1024 * 1024 {
        ", "@ + size_text(delta as nat) + " de RAM liberada"@
    } else {
        Seq::empty()
    })
}

proof fn lemma_count_prefix(es: Seq<EntryView>, outcome: Outcome, i: int)
    requires
        0 <= i <= es.len(),
    ensures
        count_outcome(es.take(i), outcome) <= i,
    decreases i,
{
    if i > 0 {
        assert(es.take(i).drop_last() == es.take(i - 1));
        lemma_count_prefix(es, outcome, i - 1);
    }
}

impl Report {
    fn push(&mut self, outcome: Outcome, area: &'static str, message: String)
        ensures
            entry_views(final(self).entries@) == entry_views(old(self).entries@).push(
                EntryView { outcome, area: area@, message: message@ },
            ),
            final(self).elevated == old(self).elevated,
            final(self).memory_before == old(self).memory_before,
            final(self).memory_after == old(self).memory_after,
    {
        let ghost before = entry_views(self.entries@);
        let e = Entry { outcome, area, message };
        self.entries.push(e);
        assert(entry_views(self.entries@) =~= before.push(e@));
    }

    /// How many entries ended with that outcome.
    pub fn count(&self, outcome: Outcome) -> (n: usize)
        ensures
            n == count_outcome(entry_views(self.entries@), outcome),
    {
        let ghost es = entry_views(self.entries@);
        let mut n: usize = 0;
        let mut i: usize = 0;
        while i < self.entries.len()
            invariant
                i <= self.entries.len(),
                es == entry_views(self.entries@),
                n == count_outcome(es.take(i as int), outcome),
            decreases self.entries.len() - i,
        {
            assert(es.take(i + 1).drop_last() == es.take(i as int));
            assert(es.take(i + 1).last() == self.entries@[i as int]@);
            proof {
                lemma_count_prefix(es, outcome, i as int);
            }
            if self.entries[i].outcome == outcome {
                n += 1;
            }
            i += 1;
        }
        assert(es.take(self.entries.len() as int) == es);
        n
    }

    /// Memory given back during the operation; negative if it was taken.
    pub fn memory_delta(&self) -> (d: i64)
        requires
            i64::MIN <= delta_of(*self) <= i64::MAX,
        ensures
            d == delta_of(*self),
    {
        let after = self.memory_after as i64;
        let before = self.memory_before as i64;
        before - after
    }

    /// "N cambios aplicados", the failures if any, and the memory given
    /// back when it is worth telling (over 8 MiB).
    pub fn summary(&self) -> (s: String)
        requires
            i64::MIN <= delta_of(*self) <= i64::MAX,
        ensures
            s@ == summary_text(*self),
    {
        let applied = self.count(Outcome::Applied);
        let failed = self.count(Outcome::Failed);
        let delta = self.memory_delta();
        let mut text = String::new();
        push_decimal(&mut text, applied as u64);
        push_str(&mut text, " cambios aplicados");
        if failed > 0 {
            push_str(&mut text, ", ");
            push_decimal(&mut text, failed as u64);
            push_str(&mut text, " fallidos");
        }
        if delta > 8 * 1024 * 1024 {
            push_str(&mut text, ", ");
            let size = format_bytes(delta as u64);
            push_str(&mut text, size.as_str());
            push_str(&mut text, " de RAM liberada");
        }
        proof {
            assert(text@ =~= summary_text(*self));
        }
        text
    }

    /// Whether the memory figure of the report can be told: the
    /// difference of its two readings fits.
    pub fn summary_fits(&self) -> (r: bool)
        ensures
            r == (i64::MIN <= delta_of(*self) <= i64::MAX),
    {
        let after = self.memory_after as i64;
        let before = self.memory_before as i64;
        before.checked_sub(after).is_some()
    }

    /// The one-line summary of any report: the full one when its memory
    /// figure can be told, the count of changes applied otherwise.
    pub fn summary_line(&self) -> (s: String)
        ensures
            s@ == (if i64::MIN <= delta_of(*self) <= i64::MAX {
                summary_text(*self)
            } else {
                decimal(count_outcome(entry_views(self.entries@), Outcome::Applied)) + " cambios aplicados"@
            }),
    {
        if self.summary_fits() {
            self.summary()
        } else {
            let applied = self.count(Outcome::Applied);
            let mut text = String::new();
            push_decimal(&mut text, applied as u64);
            push_str(&mut text, " cambios aplicados");
            text
        }
    }
}

// ---------------------------------------------------------------------
// The conversation with the system
// ---------------------------------------------------------------------

/// A system operation the engine asks for.
#[derive(Debug, Clone)]
pub enum SysRequest {
    /// Is the shell running as administrator? Answered with `Elevated`.
    IsElevated,
    /// Answered with `Memory`.
    MemoryStatus,
    /// Answered with `Scheme`.
    ActivePowerScheme,
    /// Make sure the plan exists (the hidden "ultimate" plan is duplicated
    /// first). Answered with `Done`.
    EnsureSchemeAvailable(SchemeGuid),
    /// Answered with `Done`.
    SetPowerScheme(SchemeGuid),
    /// Answered with `RunState`.
    ServiceState(String),
    /// Answered with `Done`.
    StopService(String),
    /// Answered with `Done`.
    StartService(String),
    /// Measure the running processes. Answered with `Usage`.
    SampleProcesses,
    /// List the running processes. Answered with `Processes`.
    ListProcesses,
    /// The pid of the shell. Answered with `Pid`.
    CurrentPid,
    /// Answered with `Priority`.
    PriorityClass(u32),
    /// Answered with `Done`.
    SetPriorityClass(u32, u32),
    /// Answered with `Done`.
    SetEcoQos(u32, bool),
    /// Answered with `Done`.
    TrimWorkingSet(u32),
    /// Answered with `Done`.
    KillExplorer,
    /// Answered with `Done`.
    StartExplorer,
    /// Write the snapshot to the engine's snapshot file. Answered with
    /// `Done`.
    SaveSnapshot(Snapshot),
    /// Read the snapshot file. Answered with `Loaded`.
    LoadSnapshot,
    /// Delete the snapshot file (a missing file is no error). Answered with
    /// `Done`.
    ClearSnapshot,
}

/// The answer to a `SysRequest`.
#[derive(Debug)]
pub enum SysReply {
    Elevated(bool),
    Memory(Result<MemoryStatus, Error>),
    Scheme(Result<SchemeGuid, Error>),
    RunState(Result<ServiceRunState, Error>),
    Usage(Result<Vec<ProcessUsage>, Error>),
    Processes(Result<Vec<ProcInfo>, Error>),
    Pid(u32),
    Priority(Result<u32, Error>),
    Done(Result<(), Error>),
    Loaded(Result<Option<Snapshot>, Error>),
}

/// What the engine wants next.
#[derive(Debug, Clone)]
pub enum Step {
    /// Perform this and hand the answer to `resume`.
    Ask(SysRequest),
    /// The operation is over. `recover_stale` gives `None` when there was
    /// nothing to recover.
    Finished(Option<Report>),
}

/// Where an operation stands.
#[derive(Debug, Clone, Copy, PartialEq, Eq, Structural)]
pub enum Phase {
    Idle,
    EngElevated,
    EngMemoryBefore,
    EngPlanRead,
    EngServiceState,
    EngSample,
    EngPid,
    EngPriority,
    EngSave,
    EngEnsure,
    EngSetPlan,
    EngSetFallback,
    EngStop,
    EngDemote,
    EngEco,
    EngTrim,
    EngKill,
    EngSaveFinal,
    EngMemoryAfter,
    ResElevated,
    ResMemoryBefore,
    ResStartExplorer,
    ResList,
    ResEcoOff,
    ResPriority,
    ResStart,
    ResPlan,
    ResClear,
    ResMemoryAfter,
    RecLoad,
    RecClearEmpty,
}

/// The kind of answer each phase waits for.
#[derive(Debug, Clone, Copy, PartialEq, Eq, Structural)]
pub enum ReplyKind {
    Elevated,
    Memory,
    Scheme,
    RunState,
    Usage,
    Processes,
    Pid,
    Priority,
    Done,
    Loaded,
    Nothing,
}

pub open spec fn reply_kind(r: SysReply) -> ReplyKind {
    match r {
        SysReply::Elevated(_) => ReplyKind::Elevated,
        SysReply::Memory(_) => ReplyKind::Memory,
        SysReply::Scheme(_) => ReplyKind::Scheme,
        SysReply::RunState(_) => ReplyKind::RunState,
        SysReply::Usage(_) => ReplyKind::Usage,
        SysReply::Processes(_) => ReplyKind::Processes,
        SysReply::Pid(_) => ReplyKind::Pid,
        SysReply::Priority(_) => ReplyKind::Priority,
        SysReply::Done(_) => ReplyKind::Done,
        SysReply::Loaded(_) => ReplyKind::Loaded,
    }
}

pub open spec fn expected_kind(p: Phase) -> ReplyKind {
    match p {
        Phase::Idle => ReplyKind::Nothing,
        Phase::EngElevated | Phase::ResElevated => ReplyKind::Elevated,
        Phase::EngMemoryBefore | Phase::EngMemoryAfter | Phase::ResMemoryBefore
        | Phase::ResMemoryAfter => ReplyKind::Memory,
        Phase::EngPlanRead => ReplyKind::Scheme,
        Phase::EngServiceState => ReplyKind::RunState,
        Phase::EngSample => ReplyKind::Usage,
        Phase::EngPid => ReplyKind::Pid,
        Phase::EngPriority => ReplyKind::Priority,
        Phase::ResList => ReplyKind::Processes,
        Phase::RecLoad => ReplyKind::Loaded,
        _ => ReplyKind::Done,
    }
}

/// The answer a request is waiting for.
pub open spec fn answer_kind(r: SysRequest) -> ReplyKind {
    match r {
        SysRequest::IsElevated => ReplyKind::Elevated,
        SysRequest::MemoryStatus => ReplyKind::Memory,
        SysRequest::ActivePowerScheme => ReplyKind::Scheme,
        SysRequest::ServiceState(_) => ReplyKind::RunState,
        SysRequest::SampleProcesses => ReplyKind::Usage,
        SysRequest::ListProcesses => ReplyKind::Processes,
        SysRequest::CurrentPid => ReplyKind::Pid,
        SysRequest::PriorityClass(_) => ReplyKind::Priority,
        SysRequest::LoadSnapshot => ReplyKind::Loaded,
        _ => ReplyKind::Done,
    }
}


// ---------------------------------------------------------------------
// The engine
// ---------------------------------------------------------------------

/// The names of the services that were running, in order.
pub open spec fn running_names(s: Seq<ServiceState>) -> Seq<Seq<char>>
    decreases s.len(),
{
    if s.len() == 0 {
        seq![]
    } else if s.last().was_running {
        running_names(s.drop_last()).push(s.last().name@)
    } else {
        running_names(s.drop_last())
    }
}

/// The services asked to start, in order.
pub open spec fn started(t: Seq<SysRequest>) -> Seq<Seq<char>>
    decreases t.len(),
{
    if t.len() == 0 {
        seq![]
    } else {
        match t.last() {
            SysRequest::StartService(n) => started(t.drop_last()).push(n@),
            _ => started(t.drop_last()),
        }
    }
}

/// The power plans asked for, in order.
pub open spec fn schemes_set(t: Seq<SysRequest>) -> Seq<SchemeGuid>
    decreases t.len(),
{
    if t.len() == 0 {
        seq![]
    } else {
        match t.last() {
            SysRequest::SetPowerScheme(g) => schemes_set(t.drop_last()).push(g),
            _ => schemes_set(t.drop_last()),
        }
    }
}

/// The priorities asked to be set, in order: (process id, class).
pub open spec fn priorities_set(t: Seq<SysRequest>) -> Seq<(u32, u32)>
    decreases t.len(),
{
    if t.len() == 0 {
        seq![]
    } else {
        match t.last() {
            SysRequest::SetPriorityClass(pid, c) => priorities_set(t.drop_last()).push((pid, c)),
            _ => priorities_set(t.drop_last()),
        }
    }
}

/// How many times explorer was asked to start.
pub open spec fn explorer_starts(t: Seq<SysRequest>) -> nat
    decreases t.len(),
{
    if t.len() == 0 {
        0
    } else {
        explorer_starts(t.drop_last()) + match t.last() {
            SysRequest::StartExplorer => 1nat,
            _ => 0nat,
        }
    }
}

/// The recorded process is still running under the same id and name.
pub open spec fn still_alive(live: Seq<ProcInfo>, p: ProcessState) -> bool {
    exists|i: int| 0 <= i < live.len() && (#[trigger] live[i]).pid == p.pid && live[i].name@ == p.name@
}

/// The priorities a restore gives back, in order: the previous class of
/// each recorded process that is still running under the same id and name.
pub open spec fn priorities_back(ps: Seq<ProcessState>, live: Seq<ProcInfo>) -> Seq<(u32, u32)>
    decreases ps.len(),
{
    if ps.len() == 0 {
        seq![]
    } else if still_alive(live, ps.last()) {
        priorities_back(ps.drop_last(), live).push((ps.last().pid, ps.last().previous_priority))
    } else {
        priorities_back(ps.drop_last(), live)
    }
}

/// The place of a request in the order of a restore: explorer first, then
/// the list of processes, the processes, the services, the power plan and
/// the snapshot file; 0 for requests outside that order.
pub open spec fn restore_rank(r: SysRequest) -> nat {
    match r {
        SysRequest::StartExplorer => 1,
        SysRequest::ListProcesses => 2,
        SysRequest::SetEcoQos(_, _) => 3,
        SysRequest::SetPriorityClass(_, _) => 3,
        SysRequest::StartService(_) => 4,
        SysRequest::SetPowerScheme(_) => 5,
        SysRequest::ClearSnapshot => 6,
        _ => 0,
    }
}

/// The requests come in the order of a restore.
pub open spec fn in_restore_order(t: Seq<SysRequest>) -> bool {
    forall|i: int, j: int|
        0 <= i < j < t.len() && restore_rank(#[trigger] t[j]) > 0 ==> restore_rank(#[trigger] t[i])
            <= restore_rank(t[j])
}

/// No request goes past a place in that order.
pub open spec fn ranks_at_most(t: Seq<SysRequest>, k: nat) -> bool {
    forall|i: int| 0 <= i < t.len() ==> restore_rank(#[trigger] t[i]) <= k
}

/// The place in the order that a restoring phase has reached.
pub open spec fn phase_rank(p: Phase) -> nat {
    match p {
        Phase::ResStartExplorer => 1,
        Phase::ResList => 2,
        Phase::ResEcoOff | Phase::ResPriority => 3,
        Phase::ResStart => 4,
        Phase::ResPlan => 5,
        Phase::ResClear | Phase::ResMemoryAfter => 6,
        _ => 0,
    }
}

pub open spec fn records_service(s: Snapshot, name: Seq<char>) -> bool {
    exists|i: int|
        0 <= i < s.services@.len() && (#[trigger] s.services@[i]).name@ == name
            && s.services@[i].was_running
}

pub open spec fn records_process(s: Snapshot, pid: u32) -> bool {
    exists|i: int| 0 <= i < s.processes@.len() && (#[trigger] s.processes@[i]).pid == pid
}

pub open spec fn is_engaging(p: Phase) -> bool {
    match p {
        Phase::EngElevated | Phase::EngMemoryBefore | Phase::EngPlanRead | Phase::EngServiceState
        | Phase::EngSample | Phase::EngPid | Phase::EngPriority | Phase::EngSave | Phase::EngEnsure
        | Phase::EngSetPlan | Phase::EngSetFallback | Phase::EngStop | Phase::EngDemote
        | Phase::EngEco | Phase::EngTrim | Phase::EngKill | Phase::EngSaveFinal
        | Phase::EngMemoryAfter => true,
        _ => false,
    }
}

pub open spec fn is_restoring(p: Phase) -> bool {
    match p {
        Phase::ResElevated | Phase::ResMemoryBefore | Phase::ResStartExplorer | Phase::ResList
        | Phase::ResEcoOff | Phase::ResPriority | Phase::ResStart | Phase::ResPlan | Phase::ResClear
        | Phase::ResMemoryAfter => true,
        _ => false,
    }
}

/// Writing before touching: every change asked for while engaging can be
/// undone from the snapshot written before it. A service is stopped only
/// once the snapshot says it was running, a priority is lowered (and EcoQoS
/// or a working-set trim applied) only once the process is written down
/// with its previous priority, the plan is changed only once the previous
/// plan is written, explorer is closed only once the snapshot says so.
pub open spec fn undo_written(o: Optimizer, req: SysRequest) -> bool {
    match req {
        SysRequest::StopService(n) => o.last_saved() matches Some(s) && records_service(s, n@),
        SysRequest::SetPriorityClass(pid, _) => is_engaging(o.current_phase()) ==> (o.last_saved() matches Some(s)
            && records_process(s, pid)),
        SysRequest::SetPowerScheme(_) => is_engaging(o.current_phase()) ==> (o.last_saved() matches Some(s)
            && s.power_scheme is Some),
        SysRequest::KillExplorer => o.last_saved() matches Some(s) && s.explorer_killed,
        SysRequest::SetEcoQos(pid, _) => is_engaging(o.current_phase()) ==> (o.last_saved() matches Some(s)
            && records_process(s, pid)),
        SysRequest::TrimWorkingSet(pid) => is_engaging(o.current_phase()) ==> (o.last_saved() matches Some(s)
            && records_process(s, pid)),
        _ => true,
    }
}

/// What a finished restore promises: explorer was asked to start again
/// exactly when game mode had closed it; every recorded process still
/// running under the same id and name was asked to take back its previous
/// priority, in order, and no other process was; every service that was
/// running before game mode was asked to start again, in order, and no
/// other; the plan that was active before, and only it, was asked for
/// again; the snapshot file was asked to be deleted; all of it in that
/// order (explorer, processes, services, plan, file); game mode is off.
pub open spec fn restore_kept(o: Optimizer) -> bool {
    &&& explorer_starts(o.asked()) == (if o.restored().explorer_killed {
        1nat
    } else {
        0nat
    })
    &&& priorities_set(o.asked()) == priorities_back(o.restored().processes@, o.alive())
    &&& in_restore_order(o.asked())
    &&& started(o.asked()) == running_names(o.restored().services@)
    &&& schemes_set(o.asked()) == (match o.restored().power_scheme {
        Some(g) => seq![g],
        None => Seq::<SchemeGuid>::empty(),
    })
    &&& o.asked().contains(SysRequest::ClearSnapshot)
    &&& o.engaged_snapshot() is None
}

pub open spec fn skipped_entry(area: Seq<char>, message: Seq<char>) -> EntryView {
    EntryView { outcome: Outcome::Skipped, area, message }
}

/// What a restore reports of one thing it undoes, before the system has
/// answered: an undo that is attempted comes out applied or failed in its
/// area; one that is not needed gives the skipped entry that says why.
pub enum Undo {
    Attempted(Seq<char>),
    NotNeeded(EntryView),
}

/// The entry tells the undo.
pub open spec fn reports(e: EntryView, u: Undo) -> bool {
    match u {
        Undo::Attempted(area) => e.area == area && (e.outcome == Outcome::Applied || e.outcome
            == Outcome::Failed),
        Undo::NotNeeded(v) => e == v,
    }
}

/// One entry per undo, in the same order.
pub open spec fn reports_all(es: Seq<EntryView>, us: Seq<Undo>) -> bool {
    es.len() == us.len() && forall|i: int| 0 <= i < es.len() ==> reports(#[trigger] es[i], us[i])
}

pub open spec fn explorer_undo(s: Snapshot) -> Seq<Undo> {
    if s.explorer_killed {
        seq![Undo::Attempted("escritorio"@)]
    } else {
        Seq::empty()
    }
}

/// A recorded process still running gets its priority back; one that is
/// gone is skipped.
pub open spec fn process_undo(p: ProcessState, live: Seq<ProcInfo>) -> Undo {
    if still_alive(live, p) {
        Undo::Attempted("procesos"@)
    } else {
        Undo::NotNeeded(skipped_entry("procesos"@, p.name@ + " ya no esta en ejecucion"@))
    }
}

pub open spec fn process_undos(ps: Seq<ProcessState>, live: Seq<ProcInfo>) -> Seq<Undo>
    decreases ps.len(),
{
    if ps.len() == 0 {
        Seq::empty()
    } else {
        process_undos(ps.drop_last(), live).push(process_undo(ps.last(), live))
    }
}

/// A service that was running is started again; one that was already
/// stopped is skipped.
pub open spec fn service_undo(s: ServiceState) -> Undo {
    if s.was_running {
        Undo::Attempted("servicios"@)
    } else {
        Undo::NotNeeded(skipped_entry("servicios"@, s.name@ + " ya estaba parado antes"@))
    }
}

pub open spec fn service_undos(ss: Seq<ServiceState>) -> Seq<Undo>
    decreases ss.len(),
{
    if ss.len() == 0 {
        Seq::empty()
    } else {
        service_undos(ss.drop_last()).push(service_undo(ss.last()))
    }
}

pub open spec fn plan_undo(s: Snapshot) -> Seq<Undo> {
    if s.power_scheme is Some {
        seq![Undo::Attempted("energia"@)]
    } else {
        Seq::empty()
    }
}

/// Everything a restore of `s` undoes, in its order: explorer, each
/// recorded process, each recorded service, the power plan.
pub open spec fn restore_undos(s: Snapshot, live: Seq<ProcInfo>) -> Seq<Undo> {
    explorer_undo(s) + process_undos(s.processes@, live) + service_undos(s.services@) + plan_undo(s)
}

/// The report of a restore of `s`: one entry per undo, in order, then a
/// failed `snapshot` entry when the file could not be deleted. A snapshot
/// that recorded nothing gives a report with nothing but that failure.
pub open spec fn restore_reported(es: Seq<EntryView>, s: Snapshot, live: Seq<ProcInfo>) -> bool {
    let us = restore_undos(s, live);
    &&& reports_all(es.take(us.len() as int), us)
    &&& es.len() == us.len() || (es.len() == us.len() + 1 && es[us.len() as int].outcome == Outcome::Failed
        && es[us.len() as int].area == "snapshot"@)
}

proof fn lemma_reports_push(es: Seq<EntryView>, us: Seq<Undo>, e: EntryView, u: Undo)
    requires
        reports_all(es, us),
        reports(e, u),
    ensures
        reports_all(es.push(e), us.push(u)),
{
    assert forall|i: int| 0 <= i < es.push(e).len() implies reports(#[trigger] es.push(e)[i], us.push(u)[i]) by {
        if i < es.len() {
            assert(es.push(e)[i] == es[i]);
            assert(us.push(u)[i] == us[i]);
        }
    }
}

proof fn lemma_process_undos_step(ps: Seq<ProcessState>, live: Seq<ProcInfo>, i: int)
    requires
        0 <= i < ps.len(),
    ensures
        process_undos(ps.take(i + 1), live) == process_undos(ps.take(i), live).push(process_undo(ps[i], live)),
{
    assert(ps.take(i + 1).drop_last() == ps.take(i));
    assert(ps.take(i + 1).last() == ps[i]);
}

proof fn lemma_service_undos_step(ss: Seq<ServiceState>, i: int)
    requires
        0 <= i < ss.len(),
    ensures
        service_undos(ss.take(i + 1)) == service_undos(ss.take(i)).push(service_undo(ss[i])),
{
    assert(ss.take(i + 1).drop_last() == ss.take(i));
    assert(ss.take(i + 1).last() == ss[i]);
}

pub struct Optimizer {
    config: Power,
    snapshot_path: String,
    /// `Some` while game mode is on.
    engaged: Option<Snapshot>,
    /// The game launched from the shell, protected with its children.
    game_pid: Option<u32>,
    phase: Phase,
    report: Report,
    /// The snapshot being built while engaging, or being undone.
    work: Snapshot,
    plan_target: Option<SchemeGuid>,
    names: Vec<String>,
    sampled: Vec<ProcessUsage>,
    targets: Vec<Target>,
    demoted: Vec<ProcessState>,
    live: Vec<ProcInfo>,
    eco: bool,
    idx: usize,
    recovering: bool,
    saved: Ghost<Option<Snapshot>>,
    trace: Ghost<Seq<SysRequest>>,
    restoring: Ghost<Snapshot>,
}

impl Optimizer {
    pub closed spec fn settings(&self) -> Power {
        self.config
    }

    pub closed spec fn engaged_snapshot(&self) -> Option<Snapshot> {
        self.engaged
    }

    pub closed spec fn current_phase(&self) -> Phase {
        self.phase
    }

    /// The last snapshot asked to be written during this engage.
    pub closed spec fn last_saved(&self) -> Option<Snapshot> {
        self.saved@
    }

    /// The requests of the current (or last) operation, in order.
    pub closed spec fn asked(&self) -> Seq<SysRequest> {
        self.trace@
    }

    /// The snapshot undone by the current (or last) restore.
    pub closed spec fn restored(&self) -> Snapshot {
        self.restoring@
    }

    /// The operation under way undoes a session found on disk at start-up.
    pub closed spec fn recovering_now(&self) -> bool {
        self.recovering
    }

    /// The report of the operation under way, so far.
    pub closed spec fn report_so_far(&self) -> Report {
        self.report
    }

    /// The processes found running by the current (or last) restore.
    pub closed spec fn alive(&self) -> Seq<ProcInfo> {
        self.live@
    }

    pub closed spec fn game(&self) -> Option<u32> {
        self.game_pid
    }

    pub closed spec fn path(&self) -> Seq<char> {
        self.snapshot_path@
    }

    /// Well-formed: the settings can be acted on, and the bookkeeping of the
    /// operation in progress fits its phase.
    pub closed spec fn inv(&self) -> bool {
        &&& threshold_of(self.config) <= u64::MAX
        &&& self.saved@ matches Some(s) ==> self.trace@.contains(SysRequest::SaveSnapshot(s))
        &&& self.phase == Phase::EngServiceState ==> self.idx < self.names.len()
        &&& self.phase == Phase::EngPriority ==> self.idx < self.targets.len()
        &&& (self.phase == Phase::EngElevated || self.phase == Phase::EngMemoryBefore || self.phase
            == Phase::EngPlanRead || self.phase == Phase::EngServiceState || self.phase
            == Phase::EngSample || self.phase == Phase::EngPid || self.phase == Phase::EngPriority)
            ==> self.saved@ is None
        &&& self.phase == Phase::EngPlanRead ==> self.plan_target is Some
        &&& (self.phase == Phase::EngServiceState || self.phase == Phase::EngSample || self.phase
            == Phase::EngPid || self.phase == Phase::EngPriority || self.phase == Phase::EngSave)
            ==> (self.plan_target is Some ==> self.work.power_scheme is Some)
        &&& (self.phase == Phase::EngElevated || self.phase == Phase::EngMemoryBefore || self.phase
            == Phase::ResElevated || self.phase == Phase::ResMemoryBefore) ==> self.report.entries@.len()
            == 0
        &&& (self.phase == Phase::EngEnsure || self.phase == Phase::EngSetPlan || self.phase
            == Phase::EngSetFallback) ==> self.plan_target is Some && self.work.power_scheme is Some
        &&& (self.phase == Phase::EngSave || self.phase == Phase::EngEnsure || self.phase
            == Phase::EngSetPlan || self.phase == Phase::EngSetFallback || self.phase
            == Phase::EngStop || self.phase == Phase::EngDemote || self.phase == Phase::EngEco
            || self.phase == Phase::EngTrim || self.phase == Phase::EngKill) ==> (self.saved@ matches Some(s)
            && same_services(s.services@, self.work.services@) && crate::snapshot::same_processes(
            s.processes@,
            self.work.processes@,
        ) && s.explorer_killed == self.work.explorer_killed && (self.work.power_scheme is Some
            ==> s.power_scheme is Some))
        &&& self.phase == Phase::EngStop ==> self.idx < self.work.services.len()
            && self.work.services@[self.idx as int].was_running
        &&& (self.phase == Phase::EngDemote || self.phase == Phase::EngEco || self.phase
            == Phase::EngTrim) ==> self.idx < self.work.processes.len()
        &&& self.phase == Phase::EngKill ==> self.work.explorer_killed
        &&& (self.phase == Phase::ResEcoOff || self.phase == Phase::ResPriority) ==> self.idx
            < self.work.processes.len()
        &&& self.phase == Phase::ResStart ==> self.idx < self.work.services.len()
            && self.work.services@[self.idx as int].was_running
        &&& self.phase == Phase::ResPlan ==> self.work.power_scheme is Some
        &&& is_restoring(self.phase) && self.phase != Phase::ResElevated && self.phase
            != Phase::ResMemoryBefore ==> self.restoring@ == self.work && self.engaged is None
        &&& (self.phase == Phase::ResElevated || self.phase == Phase::ResMemoryBefore
            || self.phase == Phase::ResStartExplorer || self.phase == Phase::ResList || self.phase
            == Phase::ResEcoOff || self.phase == Phase::ResPriority) ==> started(self.trace@)
            == Seq::<Seq<char>>::empty() && schemes_set(self.trace@) == Seq::<SchemeGuid>::empty()
        &&& self.phase == Phase::ResStart ==> started(self.trace@) == running_names(
            self.work.services@.take(self.idx + 1),
        ) && schemes_set(self.trace@) == Seq::<SchemeGuid>::empty()
        &&& self.phase == Phase::ResPlan ==> started(self.trace@) == running_names(
            self.work.services@,
        ) && schemes_set(self.trace@) == seq![self.work.power_scheme->0]
        &&& (self.phase == Phase::ResClear || self.phase == Phase::ResMemoryAfter) ==> started(
            self.trace@,
        ) == running_names(self.work.services@) && schemes_set(self.trace@) == (match self.work.power_scheme {
            Some(g) => seq![g],
            None => Seq::<SchemeGuid>::empty(),
        })
        &&& (self.phase == Phase::ResClear || self.phase == Phase::ResMemoryAfter) ==> self.trace@.contains(
            SysRequest::ClearSnapshot,
        )
        &&& self.phase == Phase::EngMemoryAfter ==> self.engaged is Some
        &&& is_restoring(self.phase) ==> in_restore_order(self.trace@) && ranks_at_most(
            self.trace@,
            phase_rank(self.phase),
        )
        &&& (self.phase == Phase::ResElevated || self.phase == Phase::ResMemoryBefore) ==> explorer_starts(
            self.trace@,
        ) == 0 && priorities_set(self.trace@) == Seq::<(u32, u32)>::empty()
        &&& is_restoring(self.phase) && self.phase != Phase::ResElevated && self.phase
            != Phase::ResMemoryBefore ==> explorer_starts(self.trace@) == (if self.work.explorer_killed {
            1nat
        } else {
            0nat
        })
        &&& (self.phase == Phase::ResStartExplorer || self.phase == Phase::ResList) ==> priorities_set(
            self.trace@,
        ) == Seq::<(u32, u32)>::empty()
        &&& self.phase == Phase::ResEcoOff ==> priorities_set(self.trace@) == priorities_back(
            self.work.processes@.take(self.idx as int),
            self.live@,
        ) && still_alive(self.live@, self.work.processes@[self.idx as int])
        &&& self.phase == Phase::ResStartExplorer ==> self.work.explorer_killed && self.report.entries@.len() == 0
        &&& self.phase == Phase::ResList ==> reports_all(entry_views(self.report.entries@), explorer_undo(self.work))
        &&& (self.phase == Phase::ResEcoOff || self.phase == Phase::ResPriority) ==> reports_all(
            entry_views(self.report.entries@),
            explorer_undo(self.work) + process_undos(self.work.processes@.take(self.idx as int), self.live@),
        ) && still_alive(self.live@, self.work.processes@[self.idx as int])
        &&& self.phase == Phase::ResStart ==> reports_all(
            entry_views(self.report.entries@),
            explorer_undo(self.work) + process_undos(self.work.processes@, self.live@) + service_undos(
                self.work.services@.take(self.idx as int),
            ),
        )
        &&& self.phase == Phase::ResPlan ==> reports_all(
            entry_views(self.report.entries@),
            explorer_undo(self.work) + process_undos(self.work.processes@, self.live@) + service_undos(
                self.work.services@,
            ),
        )
        &&& self.phase == Phase::ResClear ==> reports_all(
            entry_views(self.report.entries@),
            restore_undos(self.work, self.live@),
        )
        &&& self.phase == Phase::ResMemoryAfter ==> restore_reported(
            entry_views(self.report.entries@),
            self.work,
            self.live@,
        )
        &&& self.phase == Phase::ResPriority ==> priorities_set(self.trace@) == priorities_back(
            self.work.processes@.take(self.idx + 1),
            self.live@,
        )
        &&& (self.phase == Phase::ResStart || self.phase == Phase::ResPlan || self.phase == Phase::ResClear
            || self.phase == Phase::ResMemoryAfter) ==> priorities_set(self.trace@) == priorities_back(
            self.work.processes@,
            self.live@,
        )
    }

    /// Accepts the answer that the pending request waits for.
    pub open spec fn accepts_reply(&self, reply: SysReply) -> bool {
        reply_kind(reply) == expected_kind(self.current_phase())
    }

    pub fn new(config: Power, data_dir: &str) -> (o: Optimizer)
        requires
            threshold_of(config) <= u64::MAX,
        ensures
            o.inv(),
            o.settings() == config,
            o.engaged_snapshot() is None,
            o.current_phase() == Phase::Idle,
            o.path() == crate::paths::joined_path(data_dir@, "power-snapshot.json"@),
    {
        Self::with_snapshot_path(config, power_snapshot_file(data_dir))
    }

    pub fn with_snapshot_path(config: Power, snapshot_path: String) -> (o: Optimizer)
        requires
            threshold_of(config) <= u64::MAX,
        ensures
            o.inv(),
            o.settings() == config,
            o.engaged_snapshot() is None,
            o.current_phase() == Phase::Idle,
            o.path() == snapshot_path@,
            o.game() is None,
    {
        Optimizer {
            config,
            snapshot_path,
            engaged: None,
            game_pid: None,
            phase: Phase::Idle,
            report: Report::default(),
            work: Snapshot::default(),
            plan_target: None,
            names: Vec::new(),
            sampled: Vec::new(),
            targets: Vec::new(),
            demoted: Vec::new(),
            live: Vec::new(),
            eco: false,
            idx: 0,
            recovering: false,
            saved: Ghost(None),
            trace: Ghost(Seq::empty()),
            restoring: Ghost(vstd::pervasive::arbitrary()),
        }
    }

    pub fn set_config(&mut self, config: Power)
        requires
            old(self).inv(),
            threshold_of(config) <= u64::MAX,
        ensures
            final(self).inv(),
            final(self).settings() == config,
            final(self).engaged_snapshot() == old(self).engaged_snapshot(),
            final(self).current_phase() == old(self).current_phase(),
            final(self).game() == old(self).game(),
    {
        self.config = config;
    }

    pub fn config(&self) -> (c: &Power)
        ensures
            *c == self.settings(),
    {
        &self.config
    }

    /// Where the snapshot file lives.
    pub fn snapshot_path(&self) -> (p: &str)
        ensures
            p@ == self.path(),
    {
        self.snapshot_path.as_str()
    }

    pub fn is_engaged(&self) -> (r: bool)
        ensures
            r == self.engaged_snapshot() is Some,
    {
        self.engaged.is_some()
    }

    /// No operation is in progress.
    pub fn is_idle(&self) -> (r: bool)
        ensures
            r == (self.current_phase() == Phase::Idle),
    {
        self.phase == Phase::Idle
    }

    /// The game now running (protected together with its children), if any.
    pub fn set_game_pid(&mut self, pid: Option<u32>)
        requires
            old(self).inv(),
        ensures
            final(self).inv(),
            final(self).game() == pid,
            final(self).settings() == old(self).settings(),
            final(self).engaged_snapshot() == old(self).engaged_snapshot(),
            final(self).current_phase() == old(self).current_phase(),
    {
        self.game_pid = pid;
    }

    /// Whether `reply` is the kind of answer the pending request waits for.
    pub fn accepts(&self, reply: &SysReply) -> (r: bool)
        ensures
            r == self.accepts_reply(*reply),
    {
        let kind = match reply {
            SysReply::Elevated(_) => ReplyKind::Elevated,
            SysReply::Memory(_) => ReplyKind::Memory,
            SysReply::Scheme(_) => ReplyKind::Scheme,
            SysReply::RunState(_) => ReplyKind::RunState,
            SysReply::Usage(_) => ReplyKind::Usage,
            SysReply::Processes(_) => ReplyKind::Processes,
            SysReply::Pid(_) => ReplyKind::Pid,
            SysReply::Priority(_) => ReplyKind::Priority,
            SysReply::Done(_) => ReplyKind::Done,
            SysReply::Loaded(_) => ReplyKind::Loaded,
        };
        let expected = match self.phase {
            Phase::Idle => ReplyKind::Nothing,
            Phase::EngElevated | Phase::ResElevated => ReplyKind::Elevated,
            Phase::EngMemoryBefore | Phase::EngMemoryAfter | Phase::ResMemoryBefore
            | Phase::ResMemoryAfter => ReplyKind::Memory,
            Phase::EngPlanRead => ReplyKind::Scheme,
            Phase::EngServiceState => ReplyKind::RunState,
            Phase::EngSample => ReplyKind::Usage,
            Phase::EngPid => ReplyKind::Pid,
            Phase::EngPriority => ReplyKind::Priority,
            Phase::ResList => ReplyKind::Processes,
            Phase::RecLoad => ReplyKind::Loaded,
            _ => ReplyKind::Done,
        };
        kind == expected
    }

    fn ask(&mut self, phase: Phase, req: SysRequest) -> (step: Step)
        ensures
            step == Step::Ask(req),
            final(self).phase == phase,
            final(self).trace@ == old(self).trace@.push(req),
            forall|x: SysRequest| #[trigger] old(self).trace@.contains(x) ==> final(self).trace@.contains(x),
            final(self).trace@.contains(req),
            started(final(self).trace@) == (match req {
                SysRequest::StartService(n) => started(old(self).trace@).push(n@),
                _ => started(old(self).trace@),
            }),
            schemes_set(final(self).trace@) == (match req {
                SysRequest::SetPowerScheme(g) => schemes_set(old(self).trace@).push(g),
                _ => schemes_set(old(self).trace@),
            }),
            priorities_set(final(self).trace@) == (match req {
                SysRequest::SetPriorityClass(pid, c) => priorities_set(old(self).trace@).push((pid, c)),
                _ => priorities_set(old(self).trace@),
            }),
            explorer_starts(final(self).trace@) == explorer_starts(old(self).trace@) + (match req {
                SysRequest::StartExplorer => 1nat,
                _ => 0nat,
            }),
            in_restore_order(old(self).trace@) && (restore_rank(req) == 0 || ranks_at_most(
                old(self).trace@,
                restore_rank(req),
            )) ==> in_restore_order(final(self).trace@),
            forall|k: nat|
                ranks_at_most(old(self).trace@, k) && restore_rank(req) <= k ==> #[trigger] ranks_at_most(
                    final(self).trace@,
                    k,
                ),
            final(self).config == old(self).config,
            final(self).engaged == old(self).engaged,
            final(self).game_pid == old(self).game_pid,
            final(self).recovering == old(self).recovering,
            final(self).report == old(self).report,
            final(self).work == old(self).work,
            final(self).plan_target == old(self).plan_target,
            final(self).names == old(self).names,
            final(self).sampled == old(self).sampled,
            final(self).targets == old(self).targets,
            final(self).demoted == old(self).demoted,
            final(self).live == old(self).live,
            final(self).eco == old(self).eco,
            final(self).idx == old(self).idx,
            final(self).recovering == old(self).recovering,
            final(self).saved == old(self).saved,
            final(self).restoring == old(self).restoring,
            final(self).snapshot_path == old(self).snapshot_path,
    {
        self.phase = phase;
        proof {
            let before = self.trace@;
            self.trace@ = self.trace@.push(req);
            assert(self.trace@.drop_last() =~= before);
            let t = self.trace@;
            assert(t[t.len() - 1] == req);
            assert forall|x: SysRequest| #[trigger] before.contains(x) implies t.contains(x) by {
                let i = choose|i: int| 0 <= i < before.len() && before[i] == x;
                assert(t[i] == x);
            }
            if in_restore_order(before) && (restore_rank(req) == 0 || ranks_at_most(before, restore_rank(req))) {
                assert forall|i: int, j: int|
                    0 <= i < j < t.len() && restore_rank(#[trigger] t[j]) > 0 implies restore_rank(
                        #[trigger] t[i],
                    ) <= restore_rank(t[j]) by {
                    if j == before.len() {
                        assert(t[i] == before[i]);
                    } else {
                        assert(t[i] == before[i] && t[j] == before[j]);
                    }
                }
            }
            assert forall|k: nat| ranks_at_most(before, k) && restore_rank(req) <= k implies #[trigger] ranks_at_most(
                t,
                k,
            ) by {
                assert forall|i: int| 0 <= i < t.len() implies restore_rank(#[trigger] t[i]) <= k by {
                    if i < before.len() {
                        assert(t[i] == before[i]);
                    }
                }
            }
        }
        Step::Ask(req)
    }
}

/// One step of an operation went as the engine promises: it is still
/// well-formed; a request is one that a phase waits for, and any change it
/// makes can be undone from what was written before; a finished operation
/// leaves the engine idle.
pub open spec fn step_ok(o: Optimizer, step: Step) -> bool {
    &&& o.inv()
    &&& step matches Step::Ask(req) ==> undo_written(o, req) && o.current_phase() != Phase::Idle
        && answer_kind(req) == expected_kind(o.current_phase()) && (req matches SysRequest::SaveSnapshot(
        s,
    ) ==> o.last_saved() == Some(s))
    &&& step is Finished ==> o.current_phase() == Phase::Idle
}

fn message(prefix: &str, e: &Error) -> (s: String)
    ensures
        s@ == prefix@ + error_text(*e),
{
    let mut s = owned(prefix);
    let m = e.message();
    push_str(&mut s, m.as_str());
    s
}

fn named_message(name: &str, middle: &str, e: &Error) -> (s: String)
    ensures
        s@ == name@ + middle@ + error_text(*e),
{
    let mut s = owned(name);
    push_str(&mut s, middle);
    let m = e.message();
    push_str(&mut s, m.as_str());
    s
}

fn text_with(prefix: &str, name: &str, suffix: &str) -> (s: String)
    ensures
        s@ == prefix@ + name@ + suffix@,
{
    let mut s = owned(prefix);
    push_str(&mut s, name);
    push_str(&mut s, suffix);
    s
}

/// The name of a power plan setting, as the report shows it.
pub open spec fn plan_text(p: PowerPlan) -> Seq<char> {
    match p {
        PowerPlan::Leave => "Leave"@,
        PowerPlan::Balanced => "Balanced"@,
        PowerPlan::HighPerformance => "HighPerformance"@,
        PowerPlan::Ultimate => "Ultimate"@,
    }
}

fn plan_name(p: PowerPlan) -> (s: &'static str)
    ensures
        s@ == plan_text(p),
{
    match p {
        PowerPlan::Leave => "Leave",
        PowerPlan::Balanced => "Balanced",
        PowerPlan::HighPerformance => "HighPerformance",
        PowerPlan::Ultimate => "Ultimate",
    }
}

fn memory_used(r: Result<MemoryStatus, Error>) -> (u: u64)
    ensures
        u == (match r {
            Ok(m) => if m.total >= m.available {
                (m.total - m.available) as u64
            } else {
                0
            },
            Err(_) => 0,
        }),
{
    match r {
        Ok(m) => m.used(),
        Err(_) => 0,
    }
}

impl Optimizer {
    /// The snapshot last written during this engage was asked to be written.
    pub closed spec fn saved_asked(&self) -> bool {
        self.saved@ matches Some(s) ==> self.trace@.contains(SysRequest::SaveSnapshot(s))
    }

    pub closed spec fn saved_matches(&self) -> bool {
        self.saved@ matches Some(s) && same_services(s.services@, self.work.services@)
            && crate::snapshot::same_processes(s.processes@, self.work.processes@)
            && s.explorer_killed == self.work.explorer_killed && (self.work.power_scheme is Some
            ==> s.power_scheme is Some)
    }

    /// Enters game mode: the first request of it.
    pub fn engage(&mut self) -> (step: Step)
        requires
            old(self).inv(),
            old(self).current_phase() == Phase::Idle,
        ensures
            step_ok(*final(self), step),
            step == Step::Ask(SysRequest::IsElevated),
            final(self).asked() == seq![SysRequest::IsElevated],
            final(self).engaged_snapshot() == old(self).engaged_snapshot(),
            final(self).settings() == old(self).settings(),
            final(self).game() == old(self).game(),
    {
        self.report = Report::default();
        self.recovering = false;
        proof {
            self.trace@ = Seq::empty();
            self.saved@ = None;
        }
        assert(started(self.trace@) == Seq::<Seq<char>>::empty());
        self.ask(Phase::EngElevated, SysRequest::IsElevated)
    }

    /// Gives the system back as it was: the first request of it.
    pub fn restore(&mut self) -> (step: Step)
        requires
            old(self).inv(),
            old(self).current_phase() == Phase::Idle,
        ensures
            step_ok(*final(self), step),
            step == Step::Ask(SysRequest::IsElevated),
            final(self).asked() == seq![SysRequest::IsElevated],
            final(self).engaged_snapshot() == old(self).engaged_snapshot(),
            final(self).settings() == old(self).settings(),
            final(self).game() == old(self).game(),
    {
        self.report = Report::default();
        self.recovering = false;
        proof {
            self.trace@ = Seq::empty();
            self.saved@ = None;
        }
        self.ask(Phase::ResElevated, SysRequest::IsElevated)
    }

    /// At start-up: if a snapshot of an earlier session that did not end
    /// well is on disk, it is undone before anything else.
    pub fn recover_stale(&mut self) -> (step: Step)
        requires
            old(self).inv(),
            old(self).current_phase() == Phase::Idle,
        ensures
            step_ok(*final(self), step),
            step == Step::Ask(SysRequest::LoadSnapshot),
            final(self).engaged_snapshot() == old(self).engaged_snapshot(),
            final(self).settings() == old(self).settings(),
            final(self).game() == old(self).game(),
    {
        proof {
            self.trace@ = Seq::empty();
            self.saved@ = None;
        }
        self.ask(Phase::RecLoad, SysRequest::LoadSnapshot)
    }

    fn take_report(&mut self) -> (r: Report)
        ensures
            r == old(self).report,
            final(self).report.entries@.len() == 0,
            final(self).phase == old(self).phase,
            final(self).config == old(self).config,
            final(self).engaged == old(self).engaged,
            final(self).game_pid == old(self).game_pid,
            final(self).recovering == old(self).recovering,
            final(self).trace == old(self).trace,
            final(self).restoring == old(self).restoring,
            final(self).work == old(self).work,
            final(self).saved == old(self).saved,
            final(self).snapshot_path == old(self).snapshot_path,
            final(self).live == old(self).live,
            final(self).recovering == old(self).recovering,
    {
        let mut r = Report::default();
        std::mem::swap(&mut r, &mut self.report);
        r
    }

    fn finish(&mut self, result: Option<Report>) -> (step: Step)
        requires
            old(self).saved_asked(),
            threshold_of(old(self).config) <= u64::MAX,
        ensures
            step == Step::Finished(result),
            final(self).phase == Phase::Idle,
            final(self).inv(),
            final(self).config == old(self).config,
            final(self).engaged == old(self).engaged,
            final(self).game_pid == old(self).game_pid,
            final(self).recovering == old(self).recovering,
            final(self).trace == old(self).trace,
            final(self).restoring == old(self).restoring,
            final(self).work == old(self).work,
            final(self).snapshot_path == old(self).snapshot_path,
            final(self).live == old(self).live,
            final(self).recovering == old(self).recovering,
    {
        self.phase = Phase::Idle;
        Step::Finished(result)
    }

    // -- engaging ------------------------------------------------------

    fn eng_start(&mut self) -> (step: Step)
        requires
            old(self).saved_asked(),
            threshold_of(old(self).config) <= u64::MAX,
            old(self).saved@ is None,
        ensures
            step_ok(*final(self), step),
            old(self).engaged is Some ==> (step matches Step::Finished(Some(r)) && entry_views(
                r.entries@,
            ) == entry_views(old(self).report.entries@).push(
                skipped_entry("estado"@, "el modo juego ya estaba activo"@),
            )) && final(self).trace == old(self).trace,
            final(self).engaged == old(self).engaged,
            final(self).config == old(self).config,
            final(self).game_pid == old(self).game_pid,
            final(self).recovering == old(self).recovering,
    {
        if self.engaged.is_some() {
            self.report.push(Outcome::Skipped, "estado", owned("el modo juego ya estaba activo"));
            let r = self.take_report();
            return self.finish(Some(r));
        }
        self.work = Snapshot::new();
        let target = match self.config.power_plan {
            PowerPlan::Leave => {
                self.report.push(
                    Outcome::Skipped,
                    "energia",
                    owned("se respeta el plan de energia del usuario"),
                );
                self.plan_target = None;
                return self.eng_services();
            },
            PowerPlan::Balanced => crate::guid::balanced(),
            PowerPlan::HighPerformance => high_performance(),
            PowerPlan::Ultimate => ultimate(),
        };
        self.plan_target = Some(target);
        self.ask(Phase::EngPlanRead, SysRequest::ActivePowerScheme)
    }
}

impl Optimizer {
    fn eng_services(&mut self) -> (step: Step)
        requires
            old(self).saved_asked(),
            old(self).plan_target is Some ==> old(self).work.power_scheme is Some,
            threshold_of(old(self).config) <= u64::MAX,
            old(self).saved@ is None,
        ensures
            step_ok(*final(self), step),
            final(self).engaged == old(self).engaged,
            final(self).config == old(self).config,
            final(self).game_pid == old(self).game_pid,
            final(self).recovering == old(self).recovering,
    {
        self.names = enabled_services(&self.config);
        if self.names.len() == 0 {
            return self.eng_processes();
        }
        if !self.report.elevated {
            self.report.push(
                Outcome::Skipped,
                "servicios",
                owned("hace falta ejecutar el modo juego como administrador para parar servicios"),
            );
            return self.eng_processes();
        }
        self.idx = 0;
        let name = owned(self.names[0].as_str());
        self.ask(Phase::EngServiceState, SysRequest::ServiceState(name))
    }

    fn eng_processes(&mut self) -> (step: Step)
        requires
            old(self).saved_asked(),
            old(self).plan_target is Some ==> old(self).work.power_scheme is Some,
            threshold_of(old(self).config) <= u64::MAX,
            old(self).saved@ is None,
        ensures
            step_ok(*final(self), step),
            final(self).engaged == old(self).engaged,
            final(self).config == old(self).config,
            final(self).game_pid == old(self).game_pid,
            final(self).recovering == old(self).recovering,
    {
        self.ask(Phase::EngSample, SysRequest::SampleProcesses)
    }

    fn eng_priority_next(&mut self) -> (step: Step)
        requires
            old(self).saved_asked(),
            old(self).plan_target is Some ==> old(self).work.power_scheme is Some,
            threshold_of(old(self).config) <= u64::MAX,
            old(self).idx <= old(self).targets.len(),
            old(self).saved@ is None,
        ensures
            step_ok(*final(self), step),
            final(self).engaged == old(self).engaged,
            final(self).config == old(self).config,
            final(self).game_pid == old(self).game_pid,
            final(self).recovering == old(self).recovering,
    {
        if self.idx < self.targets.len() {
            let pid = self.targets[self.idx].pid;
            return self.ask(Phase::EngPriority, SysRequest::PriorityClass(pid));
        }
        self.eng_save()
    }

    fn eng_save(&mut self) -> (step: Step)
        requires
            old(self).saved_asked(),
            old(self).plan_target is Some ==> old(self).work.power_scheme is Some,
            threshold_of(old(self).config) <= u64::MAX,
        ensures
            step_ok(*final(self), step),
            final(self).engaged == old(self).engaged,
            final(self).config == old(self).config,
            final(self).game_pid == old(self).game_pid,
            final(self).recovering == old(self).recovering,
    {
        if self.config.kill_explorer {
            self.work.explorer_killed = true;
        }
        let copy = self.work.duplicate();
        let ghost sent = copy;
        proof {
            self.saved@ = Some(sent);
        }
        self.ask(Phase::EngSave, SysRequest::SaveSnapshot(copy))
    }

    fn eng_plan(&mut self) -> (step: Step)
        requires
            old(self).saved_asked(),
            threshold_of(old(self).config) <= u64::MAX,
            old(self).saved_matches(),
            old(self).plan_target is Some ==> old(self).work.power_scheme is Some,
        ensures
            step_ok(*final(self), step),
            final(self).engaged == old(self).engaged,
            final(self).config == old(self).config,
            final(self).game_pid == old(self).game_pid,
            final(self).recovering == old(self).recovering,
    {
        match self.plan_target {
            Some(t) => {
                let u = ultimate();
                if t.equals(&u) {
                    self.ask(Phase::EngEnsure, SysRequest::EnsureSchemeAvailable(t))
                } else {
                    self.ask(Phase::EngSetPlan, SysRequest::SetPowerScheme(t))
                }
            },
            None => {
                self.idx = 0;
                self.eng_stop_next()
            },
        }
    }

    fn eng_stop_next(&mut self) -> (step: Step)
        requires
            old(self).saved_asked(),
            threshold_of(old(self).config) <= u64::MAX,
            old(self).saved_matches(),
            old(self).idx <= old(self).work.services.len(),
        ensures
            step_ok(*final(self), step),
            final(self).engaged == old(self).engaged,
            final(self).config == old(self).config,
            final(self).game_pid == old(self).game_pid,
            final(self).recovering == old(self).recovering,
    {
        while self.idx < self.work.services.len() && !self.work.services[self.idx].was_running
            invariant
                threshold_of(self.config) <= u64::MAX,
                self.saved_asked(),
                self.saved_matches(),
                self.idx <= self.work.services@.len(),
                self.engaged == old(self).engaged,
                self.config == old(self).config,
                self.game_pid == old(self).game_pid,
                self.recovering == old(self).recovering,
            decreases self.work.services@.len() - self.idx,
        {
            let m = text_with("", self.work.services[self.idx].name.as_str(), " ya estaba parado");
            self.report.push(Outcome::Skipped, "servicios", m);
            self.idx = self.idx + 1;
        }
        if self.idx < self.work.services.len() {
            let name = owned(self.work.services[self.idx].name.as_str());
            proof {
                let s = self.saved@->0;
                assert(s.services@[self.idx as int].name@ == self.work.services@[self.idx as int].name@);
            }
            return self.ask(Phase::EngStop, SysRequest::StopService(name));
        }
        self.idx = 0;
        self.demoted = Vec::new();
        self.eng_demote_next()
    }

    fn eng_demote_next(&mut self) -> (step: Step)
        requires
            old(self).saved_asked(),
            threshold_of(old(self).config) <= u64::MAX,
            old(self).saved_matches(),
            old(self).idx <= old(self).work.processes.len(),
        ensures
            step_ok(*final(self), step),
            final(self).engaged == old(self).engaged,
            final(self).config == old(self).config,
            final(self).game_pid == old(self).game_pid,
            final(self).recovering == old(self).recovering,
    {
        if self.idx < self.work.processes.len() {
            let pid = self.work.processes[self.idx].pid;
            proof {
                let s = self.saved@->0;
                assert(s.processes@[self.idx as int].pid == pid);
            }
            return self.ask(Phase::EngDemote, SysRequest::SetPriorityClass(pid, IDLE_PRIORITY));
        }
        self.eng_kill()
    }

    fn eng_after_eco(&mut self) -> (step: Step)
        requires
            old(self).saved_asked(),
            threshold_of(old(self).config) <= u64::MAX,
            old(self).saved_matches(),
            old(self).idx < old(self).work.processes.len(),
        ensures
            step_ok(*final(self), step),
            final(self).engaged == old(self).engaged,
            final(self).config == old(self).config,
            final(self).game_pid == old(self).game_pid,
            final(self).recovering == old(self).recovering,
    {
        if self.config.trim_working_sets {
            let pid = self.work.processes[self.idx].pid;
            proof {
                let s = self.saved@->0;
                assert(s.processes@[self.idx as int].pid == pid);
            }
            return self.ask(Phase::EngTrim, SysRequest::TrimWorkingSet(pid));
        }
        self.eng_demoted()
    }

    fn eng_demoted(&mut self) -> (step: Step)
        requires
            old(self).saved_asked(),
            threshold_of(old(self).config) <= u64::MAX,
            old(self).saved_matches(),
            old(self).idx < old(self).work.processes.len(),
        ensures
            step_ok(*final(self), step),
            final(self).engaged == old(self).engaged,
            final(self).config == old(self).config,
            final(self).game_pid == old(self).game_pid,
            final(self).recovering == old(self).recovering,
    {
        let p = &self.work.processes[self.idx];
        let record = ProcessState {
            pid: p.pid,
            name: owned(p.name.as_str()),
            previous_priority: p.previous_priority,
            eco_qos_applied: self.eco,
        };
        let m = text_with(
            "",
            p.name.as_str(),
            if self.eco {
                " en segundo plano (EcoQoS)"
            } else {
                " en segundo plano"
            },
        );
        self.demoted.push(record);
        self.report.push(Outcome::Applied, "procesos", m);
        self.idx = self.idx + 1;
        self.eng_demote_next()
    }

    fn eng_kill(&mut self) -> (step: Step)
        requires
            old(self).saved_asked(),
            threshold_of(old(self).config) <= u64::MAX,
            old(self).saved_matches(),
        ensures
            step_ok(*final(self), step),
            final(self).engaged == old(self).engaged,
            final(self).config == old(self).config,
            final(self).game_pid == old(self).game_pid,
            final(self).recovering == old(self).recovering,
    {
        if self.work.explorer_killed {
            return self.ask(Phase::EngKill, SysRequest::KillExplorer);
        }
        self.eng_save_final()
    }

    fn eng_save_final(&mut self) -> (step: Step)
        requires
            old(self).saved_asked(),
            threshold_of(old(self).config) <= u64::MAX,
        ensures
            step_ok(*final(self), step),
            final(self).engaged == old(self).engaged,
            final(self).config == old(self).config,
            final(self).game_pid == old(self).game_pid,
            final(self).recovering == old(self).recovering,
    {
        let mut demoted: Vec<ProcessState> = Vec::new();
        std::mem::swap(&mut demoted, &mut self.demoted);
        self.work.processes = demoted;
        let copy = self.work.duplicate();
        let ghost sent = copy;
        proof {
            self.saved@ = Some(sent);
        }
        self.ask(Phase::EngSaveFinal, SysRequest::SaveSnapshot(copy))
    }

    // -- restoring -----------------------------------------------------

    fn res_start(&mut self) -> (step: Step)
        requires
            old(self).saved_asked(),
            old(self).report.entries@.len() == 0,
            threshold_of(old(self).config) <= u64::MAX,
            started(old(self).trace@) == Seq::<Seq<char>>::empty(),
            schemes_set(old(self).trace@) == Seq::<SchemeGuid>::empty(),
            explorer_starts(old(self).trace@) == 0,
            priorities_set(old(self).trace@) == Seq::<(u32, u32)>::empty(),
            in_restore_order(old(self).trace@),
            ranks_at_most(old(self).trace@, 0),
        ensures
            step_ok(*final(self), step),
            old(self).engaged is None ==> (step matches Step::Finished(Some(r)) && entry_views(
                r.entries@,
            ) == entry_views(old(self).report.entries@).push(
                skipped_entry("estado"@, "el modo juego no estaba activo"@),
            )) && final(self).trace == old(self).trace,
            final(self).engaged is None,
            final(self).config == old(self).config,
            final(self).game_pid == old(self).game_pid,
            final(self).recovering == old(self).recovering,
    {
        let mut taken: Option<Snapshot> = None;
        std::mem::swap(&mut taken, &mut self.engaged);
        match taken {
            None => {
                self.report.push(Outcome::Skipped, "estado", owned("el modo juego no estaba activo"));
                let r = self.take_report();
                self.finish(Some(r))
            },
            Some(snapshot) => {
                self.work = snapshot;
                proof {
                    self.restoring@ = self.work;
                }
                if self.work.explorer_killed {
                    self.ask(Phase::ResStartExplorer, SysRequest::StartExplorer)
                } else {
                    self.ask(Phase::ResList, SysRequest::ListProcesses)
                }
            },
        }
    }

    fn still_running(&self, k: usize) -> (r: bool)
        requires
            k < self.work.processes@.len(),
        ensures
            r == exists|i: int|
                0 <= i < self.live@.len() && (#[trigger] self.live@[i]).pid
                    == self.work.processes@[k as int].pid && self.live@[i].name@
                    == self.work.processes@[k as int].name@,
    {
        let p = &self.work.processes[k];
        let mut i: usize = 0;
        while i < self.live.len()
            invariant
                i <= self.live.len(),
                p == &self.work.processes@[k as int],
                forall|j: int|
                    0 <= j < i ==> !((#[trigger] self.live@[j]).pid == p.pid && self.live@[j].name@
                        == p.name@),
            decreases self.live.len() - i,
        {
            if self.live[i].pid == p.pid && same_text(self.live[i].name.as_str(), p.name.as_str()) {
                return true;
            }
            i += 1;
        }
        false
    }

    fn res_proc_next(&mut self) -> (step: Step)
        requires
            old(self).saved_asked(),
            reports_all(
                entry_views(old(self).report.entries@),
                explorer_undo(old(self).work) + process_undos(
                    old(self).work.processes@.take(old(self).idx as int),
                    old(self).live@,
                ),
            ),
            threshold_of(old(self).config) <= u64::MAX,
            old(self).idx <= old(self).work.processes.len(),
            old(self).restoring@ == old(self).work,
            old(self).engaged is None,
            started(old(self).trace@) == Seq::<Seq<char>>::empty(),
            schemes_set(old(self).trace@) == Seq::<SchemeGuid>::empty(),
            priorities_set(old(self).trace@) == priorities_back(
                old(self).work.processes@.take(old(self).idx as int),
                old(self).live@,
            ),
            explorer_starts(old(self).trace@) == (if old(self).work.explorer_killed {
                1nat
            } else {
                0nat
            }),
            in_restore_order(old(self).trace@),
            ranks_at_most(old(self).trace@, 3),
        ensures
            extends(entry_views(old(self).report.entries@), entry_views(final(self).report.entries@)),
            step_ok(*final(self), step),
            final(self).engaged is None,
            final(self).config == old(self).config,
            final(self).game_pid == old(self).game_pid,
            final(self).recovering == old(self).recovering,
    {
        while self.idx < self.work.processes.len() && !self.still_running(self.idx)
            invariant
                extends(entry_views(old(self).report.entries@), entry_views(self.report.entries@)),
                threshold_of(self.config) <= u64::MAX,
                self.saved_asked(),
                self.idx <= self.work.processes@.len(),
                self.restoring@ == self.work,
                self.engaged is None,
                started(self.trace@) == Seq::<Seq<char>>::empty(),
                schemes_set(self.trace@) == Seq::<SchemeGuid>::empty(),
                self.config == old(self).config,
                self.game_pid == old(self).game_pid,
                self.recovering == old(self).recovering,
                priorities_set(self.trace@) == priorities_back(
                    self.work.processes@.take(self.idx as int),
                    self.live@,
                ),
                explorer_starts(self.trace@) == (if self.work.explorer_killed {
                    1nat
                } else {
                    0nat
                }),
                in_restore_order(self.trace@),
                ranks_at_most(self.trace@, 3),
                reports_all(
                    entry_views(self.report.entries@),
                    explorer_undo(self.work) + process_undos(self.work.processes@.take(self.idx as int), self.live@),
                ),
            decreases self.work.processes@.len() - self.idx,
        {
            proof {
                let ps = self.work.processes@;
                assert(ps.take(self.idx + 1).drop_last() == ps.take(self.idx as int));
                assert(ps.take(self.idx + 1).last() == ps[self.idx as int]);
            }
            let ghost es = entry_views(self.report.entries@);
            let ghost i = self.idx as int;
            let m = text_with("", self.work.processes[self.idx].name.as_str(), " ya no esta en ejecucion");
            self.report.push(Outcome::Skipped, "procesos", m);
            proof {
                reveal_strlit("");
                let ps = self.work.processes@;
                let ex = explorer_undo(self.work);
                assert(m@ == ps[i].name@ + " ya no esta en ejecucion"@);
                lemma_process_undos_step(ps, self.live@, i);
                lemma_reports_push(
                    es,
                    ex + process_undos(ps.take(i), self.live@),
                    skipped_entry("procesos"@, m@),
                    process_undo(ps[i], self.live@),
                );
                assert(ex + process_undos(ps.take(i + 1), self.live@) =~= (ex + process_undos(ps.take(i), self.live@)).push(
                    process_undo(ps[i], self.live@),
                ));
            }
            self.idx = self.idx + 1;
        }
        if self.idx < self.work.processes.len() {
            proof {
                let ps = self.work.processes@;
                assert(ps.take(self.idx + 1).drop_last() == ps.take(self.idx as int));
                assert(ps.take(self.idx + 1).last() == ps[self.idx as int]);
            }
            let p = &self.work.processes[self.idx];
            let pid = p.pid;
            if p.eco_qos_applied {
                return self.ask(Phase::ResEcoOff, SysRequest::SetEcoQos(pid, false));
            }
            let previous = p.previous_priority;
            return self.ask(Phase::ResPriority, SysRequest::SetPriorityClass(pid, previous));
        }
        proof {
            assert(self.work.processes@.take(self.idx as int) == self.work.processes@);
        }
        self.idx = 0;
        proof {
            assert(self.work.services@.take(0) =~= Seq::<ServiceState>::empty());
            let ex = explorer_undo(self.work);
            let pu = process_undos(self.work.processes@, self.live@);
            assert(service_undos(self.work.services@.take(0)) =~= Seq::<Undo>::empty());
            assert(ex + pu + service_undos(self.work.services@.take(0)) =~= ex + pu);
        }
        self.res_service_next()
    }

    fn res_service_next(&mut self) -> (step: Step)
        requires
            old(self).saved_asked(),
            reports_all(
                entry_views(old(self).report.entries@),
                explorer_undo(old(self).work) + process_undos(old(self).work.processes@, old(self).live@)
                    + service_undos(old(self).work.services@.take(old(self).idx as int)),
            ),
            threshold_of(old(self).config) <= u64::MAX,
            old(self).idx <= old(self).work.services.len(),
            old(self).restoring@ == old(self).work,
            old(self).engaged is None,
            started(old(self).trace@) == running_names(old(self).work.services@.take(old(self).idx as int)),
            schemes_set(old(self).trace@) == Seq::<SchemeGuid>::empty(),
            priorities_set(old(self).trace@) == priorities_back(old(self).work.processes@, old(self).live@),
            explorer_starts(old(self).trace@) == (if old(self).work.explorer_killed {
                1nat
            } else {
                0nat
            }),
            in_restore_order(old(self).trace@),
            ranks_at_most(old(self).trace@, 4),
        ensures
            extends(entry_views(old(self).report.entries@), entry_views(final(self).report.entries@)),
            step_ok(*final(self), step),
            final(self).engaged is None,
            final(self).config == old(self).config,
            final(self).game_pid == old(self).game_pid,
            final(self).recovering == old(self).recovering,
    {
        while self.idx < self.work.services.len() && !self.work.services[self.idx].was_running
            invariant
                extends(entry_views(old(self).report.entries@), entry_views(self.report.entries@)),
                threshold_of(self.config) <= u64::MAX,
                self.saved_asked(),
                self.idx <= self.work.services@.len(),
                self.restoring@ == self.work,
                self.engaged is None,
                started(self.trace@) == running_names(self.work.services@.take(self.idx as int)),
                schemes_set(self.trace@) == Seq::<SchemeGuid>::empty(),
                priorities_set(self.trace@) == priorities_back(self.work.processes@, self.live@),
                explorer_starts(self.trace@) == (if self.work.explorer_killed {
                    1nat
                } else {
                    0nat
                }),
                in_restore_order(self.trace@),
                ranks_at_most(self.trace@, 4),
                self.config == old(self).config,
                self.game_pid == old(self).game_pid,
                self.recovering == old(self).recovering,
                reports_all(
                    entry_views(self.report.entries@),
                    explorer_undo(self.work) + process_undos(self.work.processes@, self.live@) + service_undos(
                        self.work.services@.take(self.idx as int),
                    ),
                ),
            decreases self.work.services@.len() - self.idx,
        {
            let ghost es = entry_views(self.report.entries@);
            let ghost i = self.idx as int;
            let m = text_with("", self.work.services[self.idx].name.as_str(), " ya estaba parado antes");
            self.report.push(Outcome::Skipped, "servicios", m);
            proof {
                reveal_strlit("");
                let sv = self.work.services@;
                assert(sv.take(self.idx + 1).drop_last() == sv.take(self.idx as int));
                assert(m@ == sv[i].name@ + " ya estaba parado antes"@);
                let pre = explorer_undo(self.work) + process_undos(self.work.processes@, self.live@);
                lemma_service_undos_step(sv, i);
                lemma_reports_push(
                    es,
                    pre + service_undos(sv.take(i)),
                    skipped_entry("servicios"@, m@),
                    service_undo(sv[i]),
                );
                assert(pre + service_undos(sv.take(i + 1)) =~= (pre + service_undos(sv.take(i))).push(
                    service_undo(sv[i]),
                ));
            }
            self.idx = self.idx + 1;
        }
        if self.idx < self.work.services.len() {
            let name = owned(self.work.services[self.idx].name.as_str());
            let ghost before = self.trace@;
            let step = self.ask(Phase::ResStart, SysRequest::StartService(name));
            proof {
                let sv = self.work.services@;
                assert(sv.take(self.idx + 1).drop_last() == sv.take(self.idx as int));
                assert(self.trace@.drop_last() == before);
            }
            return step;
        }
        proof {
            assert(self.work.services@.take(self.idx as int) == self.work.services@);
        }
        self.res_plan()
    }

    fn res_plan(&mut self) -> (step: Step)
        requires
            old(self).saved_asked(),
            reports_all(
                entry_views(old(self).report.entries@),
                explorer_undo(old(self).work) + process_undos(old(self).work.processes@, old(self).live@)
                    + service_undos(old(self).work.services@),
            ),
            threshold_of(old(self).config) <= u64::MAX,
            old(self).restoring@ == old(self).work,
            old(self).engaged is None,
            started(old(self).trace@) == running_names(old(self).work.services@),
            schemes_set(old(self).trace@) == Seq::<SchemeGuid>::empty(),
            priorities_set(old(self).trace@) == priorities_back(old(self).work.processes@, old(self).live@),
            explorer_starts(old(self).trace@) == (if old(self).work.explorer_killed {
                1nat
            } else {
                0nat
            }),
            in_restore_order(old(self).trace@),
            ranks_at_most(old(self).trace@, 5),
        ensures
            extends(entry_views(old(self).report.entries@), entry_views(final(self).report.entries@)),
            step_ok(*final(self), step),
            final(self).engaged is None,
            final(self).config == old(self).config,
            final(self).game_pid == old(self).game_pid,
            final(self).recovering == old(self).recovering,
    {
        match self.work.power_scheme {
            Some(g) => {
                let ghost before = self.trace@;
                let step = self.ask(Phase::ResPlan, SysRequest::SetPowerScheme(g));
                proof {
                    assert(self.trace@.drop_last() == before);
                }
                step
            },
            None => {
                proof {
                    let w = self.work;
                    assert(plan_undo(w) =~= Seq::<Undo>::empty());
                    assert(restore_undos(w, self.live@) =~= explorer_undo(w) + process_undos(w.processes@, self.live@)
                        + service_undos(w.services@));
                }
                self.res_clear()
            },
        }
    }

    fn res_clear(&mut self) -> (step: Step)
        requires
            old(self).saved_asked(),
            reports_all(entry_views(old(self).report.entries@), restore_undos(old(self).work, old(self).live@)),
            threshold_of(old(self).config) <= u64::MAX,
            old(self).restoring@ == old(self).work,
            old(self).engaged is None,
            started(old(self).trace@) == running_names(old(self).work.services@),
            schemes_set(old(self).trace@) == (match old(self).work.power_scheme {
                Some(g) => seq![g],
                None => Seq::<SchemeGuid>::empty(),
            }),
            priorities_set(old(self).trace@) == priorities_back(old(self).work.processes@, old(self).live@),
            explorer_starts(old(self).trace@) == (if old(self).work.explorer_killed {
                1nat
            } else {
                0nat
            }),
            in_restore_order(old(self).trace@),
            ranks_at_most(old(self).trace@, 6),
        ensures
            extends(entry_views(old(self).report.entries@), entry_views(final(self).report.entries@)),
            step_ok(*final(self), step),
            final(self).engaged is None,
            final(self).config == old(self).config,
            final(self).game_pid == old(self).game_pid,
            final(self).recovering == old(self).recovering,
    {
        let ghost before = self.trace@;
        let step = self.ask(Phase::ResClear, SysRequest::ClearSnapshot);
        proof {
            assert(self.trace@.drop_last() == before);
            assert(self.trace@[self.trace@.len() - 1] == SysRequest::ClearSnapshot);
        }
        step
    }
}

fn detail(prefix: &str, name: &str, e: &Error) -> (s: String)
    ensures
        s@ == prefix@ + name@ + ": "@ + error_text(*e),
{
    let mut s = owned(prefix);
    push_str(&mut s, name);
    push_str(&mut s, ": ");
    let m = e.message();
    push_str(&mut s, m.as_str());
    s
}

fn pid_detail(name: &str, pid: u32, e: &Error) -> (s: String)
    ensures
        s@ == name@ + " (pid "@ + decimal(pid as nat) + "): "@ + error_text(*e),
{
    let mut s = owned(name);
    push_str(&mut s, " (pid ");
    push_decimal(&mut s, pid as u64);
    push_str(&mut s, "): ");
    let m = e.message();
    push_str(&mut s, m.as_str());
    s
}

impl Optimizer {
    /// Hands over the answer to the pending request; gives what the engine
    /// wants next.
    #[verifier::rlimit(60)]
    #[verifier::spinoff_prover]
    pub fn resume(&mut self, reply: SysReply) -> (step: Step)
        requires
            old(self).inv(),
            old(self).current_phase() != Phase::Idle,
            old(self).accepts_reply(reply),
        ensures
            step_ok(*final(self), step),
            final(self).settings() == old(self).settings(),
            final(self).game() == old(self).game(),
            old(self).current_phase() == Phase::EngMemoryBefore && old(self).engaged_snapshot() is Some
                ==> (step matches Step::Finished(Some(r)) && entry_views(r.entries@) == seq![
                skipped_entry("estado"@, "el modo juego ya estaba activo"@),
            ]) && final(self).engaged_snapshot() == old(self).engaged_snapshot() && final(self).asked()
                == old(self).asked(),
            old(self).current_phase() == Phase::ResMemoryBefore && old(self).engaged_snapshot() is None
                ==> (step matches Step::Finished(Some(r)) && entry_views(r.entries@) == seq![
                skipped_entry("estado"@, "el modo juego no estaba activo"@),
            ]) && final(self).asked() == old(self).asked(),
            old(self).current_phase() == Phase::EngMemoryAfter ==> step is Finished
                && final(self).engaged_snapshot() is Some,
            old(self).current_phase() == Phase::ResMemoryAfter ==> step is Finished && restore_kept(
                *final(self),
            ),
            old(self).current_phase() == Phase::RecLoad && !(reply matches SysReply::Loaded(Ok(Some(_))))
                ==> step == Step::Finished(None) && final(self).engaged_snapshot()
                == old(self).engaged_snapshot() && final(self).asked() == old(self).asked(),
            old(self).current_phase() == Phase::RecLoad ==> (reply matches SysReply::Loaded(Ok(Some(s)))
                ==> if snapshot_is_empty(s) {
                step == Step::Ask(SysRequest::ClearSnapshot) && final(self).current_phase()
                    == Phase::RecClearEmpty && final(self).engaged_snapshot() == old(self).engaged_snapshot()
            } else {
                step == Step::Ask(SysRequest::IsElevated) && final(self).engaged_snapshot() == Some(s)
                    && final(self).recovering_now() && final(self).asked() == seq![SysRequest::IsElevated]
            }),
            old(self).current_phase() == Phase::RecClearEmpty ==> step == Step::Finished(None),
            final(self).current_phase() == Phase::ResClear ==> reports_all(
                entry_views(final(self).report_so_far().entries@),
                restore_undos(final(self).restored(), final(self).alive()),
            ),
            old(self).current_phase() == Phase::ResClear ==> (reply matches SysReply::Done(r) && entry_views(
                final(self).report_so_far().entries@,
            ) == entry_views(old(self).report_so_far().entries@) + clear_entries(r)),
            (old(self).current_phase() == Phase::ResStartExplorer || old(self).current_phase() == Phase::ResPriority
                || old(self).current_phase() == Phase::ResStart || old(self).current_phase() == Phase::ResPlan) ==> (
            reply matches SysReply::Done(r) && undo_answered(
                entry_views(old(self).report_so_far().entries@),
                entry_views(final(self).report_so_far().entries@),
                r,
            )),
            old(self).current_phase() == Phase::ResMemoryAfter ==> restore_reported(
                entry_views(old(self).report_so_far().entries@),
                final(self).restored(),
                final(self).alive(),
            ),
            old(self).current_phase() != Phase::RecLoad ==> final(self).recovering_now() == old(
                self,
            ).recovering_now(),
            old(self).current_phase() == Phase::ResMemoryAfter ==> (step matches Step::Finished(Some(r))
                && entry_views(r.entries@) == entry_views(old(self).report_so_far().entries@) + (if old(
                self,
            ).recovering_now() {
                seq![
                    EntryView {
                        outcome: Outcome::Applied,
                        area: "recuperacion"@,
                        message: "se revirtio una sesion anterior que no cerro bien"@,
                    },
                ]
            } else {
                Seq::<EntryView>::empty()
            })),
    {
        match reply {
            SysReply::Elevated(b) => {
                self.report.elevated = b;
                if self.phase == Phase::EngElevated {
                    self.ask(Phase::EngMemoryBefore, SysRequest::MemoryStatus)
                } else {
                    self.ask(Phase::ResMemoryBefore, SysRequest::MemoryStatus)
                }
            },
            SysReply::Memory(r) => {
                let used = memory_used(r);
                if self.phase == Phase::EngMemoryBefore {
                    self.report.memory_before = used;
                    self.eng_start()
                } else if self.phase == Phase::ResMemoryBefore {
                    self.report.memory_before = used;
                    self.res_start()
                } else if self.phase == Phase::EngMemoryAfter {
                    self.report.memory_after = used;
                    let r = self.take_report();
                    self.finish(Some(r))
                } else {
                    self.report.memory_after = used;
                    if self.recovering {
                        self.report.push(
                            Outcome::Applied,
                            "recuperacion",
                            owned("se revirtio una sesion anterior que no cerro bien"),
                        );
                    }
                    let r = self.take_report();
                    self.finish(Some(r))
                }
            },
            SysReply::Scheme(r) => {
                let target = match self.plan_target {
                    Some(t) => t,
                    None => {
                        return self.eng_services();
                    },
                };
                match r {
                    Err(e) => {
                        let m = message("no se pudo leer el plan actual: ", &e);
                        self.report.push(Outcome::Failed, "energia", m);
                        self.plan_target = None;
                    },
                    Ok(current) => {
                        if current.equals(&target) {
                            self.report.push(
                                Outcome::Skipped,
                                "energia",
                                owned("el plan de energia pedido ya estaba activo"),
                            );
                            self.plan_target = None;
                        } else {
                            self.work.power_scheme = Some(current);
                        }
                    },
                }
                self.eng_services()
            },
            SysReply::RunState(r) => {
                let name = owned(self.names[self.idx].as_str());
                match r {
                    Ok(state) => {
                        let was_running = match state {
                            ServiceRunState::Running => true,
                            _ => false,
                        };
                        self.work.services.push(ServiceState { name, was_running });
                    },
                    Err(e) => {
                        let m = detail("", name.as_str(), &e);
                        self.report.push(Outcome::Skipped, "servicios", m);
                    },
                }
                self.idx = self.idx + 1;
                if self.idx < self.names.len() {
                    let next = owned(self.names[self.idx].as_str());
                    self.ask(Phase::EngServiceState, SysRequest::ServiceState(next))
                } else {
                    self.eng_processes()
                }
            },
            SysReply::Usage(r) => match r {
                Err(e) => {
                    let m = message("no se pudo enumerar procesos: ", &e);
                    self.report.push(Outcome::Failed, "procesos", m);
                    self.targets = Vec::new();
                    self.idx = 0;
                    self.eng_save()
                },
                Ok(ps) => {
                    self.sampled = ps;
                    self.ask(Phase::EngPid, SysRequest::CurrentPid)
                },
            },
            SysReply::Pid(me) => {
                let selection = select_throttle_targets(
                    self.sampled.as_slice(),
                    &self.config,
                    me,
                    self.game_pid,
                );
                self.targets = selection.targets;
                self.idx = 0;
                self.eng_priority_next()
            },
            SysReply::Priority(r) => {
                let previous = match r {
                    Ok(c) => c,
                    Err(_) => NORMAL_PRIORITY,
                };
                if previous != IDLE_PRIORITY {
                    let t = &self.targets[self.idx];
                    let record = ProcessState {
                        pid: t.pid,
                        name: owned(t.name.as_str()),
                        previous_priority: previous,
                        eco_qos_applied: false,
                    };
                    self.work.processes.push(record);
                }
                self.idx = self.idx + 1;
                self.eng_priority_next()
            },
            SysReply::Processes(r) => {
                self.live = match r {
                    Ok(v) => v,
                    Err(_) => Vec::new(),
                };
                self.idx = 0;
                proof {
                    assert(self.work.processes@.take(0) =~= Seq::<ProcessState>::empty());
                }
                self.res_proc_next()
            },
            SysReply::Loaded(r) => match r {
                Ok(Some(s)) => {
                    if s.is_empty() {
                        self.ask(Phase::RecClearEmpty, SysRequest::ClearSnapshot)
                    } else {
                        self.engaged = Some(s);
                        self.report = Report::default();
                        self.recovering = true;
                        proof {
                            self.trace@ = Seq::empty();
                            self.saved@ = None;
                        }
                        self.ask(Phase::ResElevated, SysRequest::IsElevated)
                    }
                },
                _ => self.finish(None),
            },
            SysReply::Done(r) => self.resume_done(r),
        }
    }

    #[verifier::rlimit(60)]
    #[verifier::spinoff_prover]
    fn resume_done(&mut self, r: Result<(), Error>) -> (step: Step)
        requires
            old(self).inv(),
            expected_kind(old(self).phase) == ReplyKind::Done,
        ensures
            step_ok(*final(self), step),
            final(self).config == old(self).config,
            final(self).game_pid == old(self).game_pid,
            final(self).recovering == old(self).recovering,
            old(self).phase == Phase::ResClear ==> final(self).phase == Phase::ResMemoryAfter && entry_views(
                final(self).report.entries@,
            ) == entry_views(old(self).report.entries@) + clear_entries(r),
            old(self).phase == Phase::RecClearEmpty ==> step == Step::Finished(None),
            (old(self).phase == Phase::ResStartExplorer || old(self).phase == Phase::ResPriority || old(self).phase
                == Phase::ResStart || old(self).phase == Phase::ResPlan) ==> undo_answered(
                entry_views(old(self).report.entries@),
                entry_views(final(self).report.entries@),
                r,
            ),
    {
        match self.phase {
            Phase::EngSave => {
                if let Err(e) = r {
                    let m = message("no se pudo guardar el estado previo: ", &e);
                    self.report.push(Outcome::Failed, "snapshot", m);
                }
                self.eng_plan()
            },
            Phase::EngEnsure => {
                let target = match self.plan_target {
                    Some(t) => t,
                    None => high_performance(),
                };
                self.ask(Phase::EngSetPlan, SysRequest::SetPowerScheme(target))
            },
            Phase::EngSetPlan => {
                let target = match self.plan_target {
                    Some(t) => t,
                    None => high_performance(),
                };
                match r {
                    Ok(()) => {
                        let m = text_with("plan de energia -> ", plan_name(self.config.power_plan), "");
                        self.report.push(Outcome::Applied, "energia", m);
                    },
                    Err(e) => {
                        let u = ultimate();
                        if target.equals(&u) {
                            let high = high_performance();
                            return self.ask(Phase::EngSetFallback, SysRequest::SetPowerScheme(high));
                        }
                        self.work.power_scheme = None;
                        let m = message("no se pudo cambiar el plan: ", &e);
                        self.report.push(Outcome::Failed, "energia", m);
                    },
                }
                self.idx = 0;
                self.eng_stop_next()
            },
            Phase::EngSetFallback => {
                match r {
                    Ok(()) => {
                        self.report.push(
                            Outcome::Applied,
                            "energia",
                            owned("plan de energia -> alto rendimiento (maximo no disponible)"),
                        );
                    },
                    Err(e) => {
                        self.work.power_scheme = None;
                        let m = message("no se pudo cambiar el plan: ", &e);
                        self.report.push(Outcome::Failed, "energia", m);
                    },
                }
                self.idx = 0;
                self.eng_stop_next()
            },
            Phase::EngStop => {
                let name = owned(self.work.services[self.idx].name.as_str());
                match r {
                    Ok(()) => {
                        let m = text_with("", name.as_str(), " detenido");
                        self.report.push(Outcome::Applied, "servicios", m);
                    },
                    Err(e) => {
                        let m = detail("no se pudo detener ", name.as_str(), &e);
                        self.report.push(Outcome::Failed, "servicios", m);
                    },
                }
                self.idx = self.idx + 1;
                self.eng_stop_next()
            },
            Phase::EngDemote => {
                let pid = self.work.processes[self.idx].pid;
                match r {
                    Err(e) => {
                        let m = pid_detail(self.work.processes[self.idx].name.as_str(), pid, &e);
                        self.report.push(Outcome::Skipped, "procesos", m);
                        self.idx = self.idx + 1;
                        self.eng_demote_next()
                    },
                    Ok(()) => {
                        if self.config.eco_qos_background {
                            proof {
                                let s = self.saved@->0;
                                assert(s.processes@[self.idx as int].pid == pid);
                            }
                            self.ask(Phase::EngEco, SysRequest::SetEcoQos(pid, true))
                        } else {
                            self.eco = false;
                            self.eng_after_eco()
                        }
                    },
                }
            },
            Phase::EngEco => {
                self.eco = r.is_ok();
                self.eng_after_eco()
            },
            Phase::EngTrim => self.eng_demoted(),
            Phase::EngKill => {
                match r {
                    Ok(()) => {
                        self.report.push(
                            Outcome::Applied,
                            "escritorio",
                            owned("explorer.exe cerrado (se relanzara al salir)"),
                        );
                    },
                    Err(e) => {
                        self.work.explorer_killed = false;
                        let m = message("no se pudo cerrar explorer.exe: ", &e);
                        self.report.push(Outcome::Failed, "escritorio", m);
                    },
                }
                self.eng_save_final()
            },
            Phase::EngSaveFinal => {
                if let Err(e) = r {
                    let m = message("no se pudo guardar el estado previo: ", &e);
                    self.report.push(Outcome::Failed, "snapshot", m);
                }
                let mut done = Snapshot::default();
                std::mem::swap(&mut done, &mut self.work);
                self.engaged = Some(done);
                self.ask(Phase::EngMemoryAfter, SysRequest::MemoryStatus)
            },
            Phase::ResStartExplorer => self.res_done_explorer(r),
            Phase::ResEcoOff => {
                proof {
                    let ps = self.work.processes@;
                    assert(ps.take(self.idx + 1).drop_last() == ps.take(self.idx as int));
                    assert(ps.take(self.idx + 1).last() == ps[self.idx as int]);
                }
                let pid = self.work.processes[self.idx].pid;
                let previous = self.work.processes[self.idx].previous_priority;
                self.ask(Phase::ResPriority, SysRequest::SetPriorityClass(pid, previous))
            },
            Phase::ResPriority => self.res_done_priority(r),
            Phase::ResStart => self.res_done_start(r),
            Phase::ResPlan => self.res_done_plan(r),
            Phase::ResClear => self.res_done_clear(r),
            _ => self.finish(None),
        }
    }

    fn res_done_explorer(&mut self, r: Result<(), Error>) -> (step: Step)
        requires
            old(self).inv(),
            old(self).phase == Phase::ResStartExplorer,
        ensures
            entry_views(final(self).report.entries@).len() > entry_views(old(self).report.entries@).len(),
            entry_views(final(self).report.entries@)[entry_views(old(self).report.entries@).len() as int].outcome == answered(r),
            extends(entry_views(old(self).report.entries@), entry_views(final(self).report.entries@)),
            step_ok(*final(self), step),
            final(self).config == old(self).config,
            final(self).game_pid == old(self).game_pid,
            final(self).recovering == old(self).recovering,
    {
        match r {
            Ok(()) => {
                self.report.push(Outcome::Applied, "escritorio", owned("explorer.exe relanzado"));
            },
            Err(e) => {
                let m = message("no se pudo relanzar explorer.exe: ", &e);
                self.report.push(Outcome::Failed, "escritorio", m);
            },
        }
        proof {
            let es = entry_views(self.report.entries@);
            assert(es.len() == 1);
            assert(reports(es[0], explorer_undo(self.work)[0]));
        }
        self.ask(Phase::ResList, SysRequest::ListProcesses)
    }

    fn res_done_priority(&mut self, r: Result<(), Error>) -> (step: Step)
        requires
            old(self).inv(),
            old(self).phase == Phase::ResPriority,
        ensures
            entry_views(final(self).report.entries@).len() > entry_views(old(self).report.entries@).len(),
            entry_views(final(self).report.entries@)[entry_views(old(self).report.entries@).len() as int].outcome == answered(r),
            extends(entry_views(old(self).report.entries@), entry_views(final(self).report.entries@)),
            step_ok(*final(self), step),
            final(self).config == old(self).config,
            final(self).game_pid == old(self).game_pid,
            final(self).recovering == old(self).recovering,
    {
        let previous = self.work.processes[self.idx].previous_priority;
        let ghost es = entry_views(self.report.entries@);
        match r {
            Ok(()) => {
                let m = text_with(
                    "",
                    self.work.processes[self.idx].name.as_str(),
                    " vuelve a prioridad ",
                );
                let mut m = m;
                push_str(&mut m, priority_name(previous));
                self.report.push(Outcome::Applied, "procesos", m);
            },
            Err(e) => {
                let m = detail("", self.work.processes[self.idx].name.as_str(), &e);
                self.report.push(Outcome::Failed, "procesos", m);
            },
        }
        proof {
            let i = self.idx as int;
            let ps = self.work.processes@;
            let ex = explorer_undo(self.work);
            let e = entry_views(self.report.entries@).last();
            assert(entry_views(self.report.entries@) == es.push(e));
            lemma_process_undos_step(ps, self.live@, i);
            lemma_reports_push(es, ex + process_undos(ps.take(i), self.live@), e, process_undo(ps[i], self.live@));
            assert(ex + process_undos(ps.take(i + 1), self.live@) =~= (ex + process_undos(ps.take(i), self.live@)).push(
                process_undo(ps[i], self.live@),
            ));
        }
        self.idx = self.idx + 1;
        self.res_proc_next()
    }

    fn res_done_start(&mut self, r: Result<(), Error>) -> (step: Step)
        requires
            old(self).inv(),
            old(self).phase == Phase::ResStart,
        ensures
            entry_views(final(self).report.entries@).len() > entry_views(old(self).report.entries@).len(),
            entry_views(final(self).report.entries@)[entry_views(old(self).report.entries@).len() as int].outcome == answered(r),
            extends(entry_views(old(self).report.entries@), entry_views(final(self).report.entries@)),
            step_ok(*final(self), step),
            final(self).config == old(self).config,
            final(self).game_pid == old(self).game_pid,
            final(self).recovering == old(self).recovering,
    {
        let name = owned(self.work.services[self.idx].name.as_str());
        let ghost es = entry_views(self.report.entries@);
        match r {
            Ok(()) => {
                let m = text_with("", name.as_str(), " rearrancado");
                self.report.push(Outcome::Applied, "servicios", m);
            },
            Err(e) => {
                let m = detail("no se pudo rearrancar ", name.as_str(), &e);
                self.report.push(Outcome::Failed, "servicios", m);
            },
        }
        proof {
            let i = self.idx as int;
            let sv = self.work.services@;
            let pre = explorer_undo(self.work) + process_undos(self.work.processes@, self.live@);
            let e = entry_views(self.report.entries@).last();
            assert(entry_views(self.report.entries@) == es.push(e));
            lemma_service_undos_step(sv, i);
            lemma_reports_push(es, pre + service_undos(sv.take(i)), e, service_undo(sv[i]));
            assert(pre + service_undos(sv.take(i + 1)) =~= (pre + service_undos(sv.take(i))).push(
                service_undo(sv[i]),
            ));
        }
        self.idx = self.idx + 1;
        self.res_service_next()
    }

    fn res_done_plan(&mut self, r: Result<(), Error>) -> (step: Step)
        requires
            old(self).inv(),
            old(self).phase == Phase::ResPlan,
        ensures
            entry_views(final(self).report.entries@).len() > entry_views(old(self).report.entries@).len(),
            entry_views(final(self).report.entries@)[entry_views(old(self).report.entries@).len() as int].outcome == answered(r),
            extends(entry_views(old(self).report.entries@), entry_views(final(self).report.entries@)),
            step_ok(*final(self), step),
            final(self).config == old(self).config,
            final(self).game_pid == old(self).game_pid,
            final(self).recovering == old(self).recovering,
    {
        match r {
            Ok(()) => {
                let g = match self.work.power_scheme {
                    Some(g) => g,
                    None => ultimate(),
                };
                let text = g.to_string();
                let m = text_with("plan de energia restaurado (", text.as_str(), ")");
                self.report.push(Outcome::Applied, "energia", m);
            },
            Err(e) => {
                let m = message("no se pudo restaurar el plan de energia: ", &e);
                self.report.push(Outcome::Failed, "energia", m);
            },
        }
        self.res_clear()
    }

    fn res_done_clear(&mut self, r: Result<(), Error>) -> (step: Step)
        requires
            old(self).inv(),
            old(self).phase == Phase::ResClear,
        ensures
            step_ok(*final(self), step),
            final(self).config == old(self).config,
            final(self).game_pid == old(self).game_pid,
            final(self).recovering == old(self).recovering,
            final(self).phase == Phase::ResMemoryAfter,
            entry_views(final(self).report.entries@) == entry_views(old(self).report.entries@) + clear_entries(r),
            final(self).restoring == old(self).restoring,
            final(self).live == old(self).live,
    {
        if let Err(e) = r {
            let m = message("no se pudo borrar el snapshot: ", &e);
            self.report.push(Outcome::Failed, "snapshot", m);
        }
        let ghost before = self.trace@;
        let step = self.ask(Phase::ResMemoryAfter, SysRequest::MemoryStatus);
        proof {
            let k = choose|k: int| 0 <= k < before.len() && before[k] == SysRequest::ClearSnapshot;
            assert(self.trace@[k] == SysRequest::ClearSnapshot);
            assert(entry_views(self.report.entries@) =~= entry_views(old(self).report.entries@) + clear_entries(r));
        }
        step
    }
}

/// `b` keeps every entry of `a`, in place, and may add more after them.
pub open spec fn extends(a: Seq<EntryView>, b: Seq<EntryView>) -> bool {
    a.len() <= b.len() && forall|k: int| 0 <= k < a.len() ==> #[trigger] b[k] == a[k]
}

/// How an undo is reported once the system has answered it.
pub open spec fn answered(r: Result<(), Error>) -> Outcome {
    match r {
        Ok(()) => Outcome::Applied,
        Err(_) => Outcome::Failed,
    }
}

/// The system answered an undo: its entry, the first one added, is applied
/// when the answer is `Ok` and failed otherwise; the entries before it stay.
pub open spec fn undo_answered(before: Seq<EntryView>, after: Seq<EntryView>, r: Result<(), Error>) -> bool {
    &&& after.len() > before.len()
    &&& after[before.len() as int].outcome == answered(r)
    &&& extends(before, after)
}

/// What deleting the snapshot file adds to a restore's report: nothing when
/// it was deleted, the failure otherwise.
pub open spec fn clear_entries(r: Result<(), Error>) -> Seq<EntryView> {
    match r {
        Ok(()) => Seq::empty(),
        Err(e) => seq![
            EntryView { outcome: Outcome::Failed, area: "snapshot"@, message: "no se pudo borrar el snapshot: "@ + error_text(e) },
        ],
    }
}

/// A snapshot asked to be written during the operation that `o` is in.
pub open spec fn written(o: Optimizer, s: Snapshot) -> bool {
    o.asked().contains(SysRequest::SaveSnapshot(s))
}

/// Writing before touching: whenever engaging game mode asks for a change
/// of the system, a snapshot from which that change can be undone has
/// already been asked to be written in the same operation. It records the
/// service as running before the service is stopped; the process, with its
/// previous priority, before the process is lowered, given EcoQoS or
/// trimmed; the previous power plan before the plan is changed; the closing
/// of explorer before explorer is closed.
pub proof fn lemma_engage_writes_before_touching(o: Optimizer, req: SysRequest)
    requires
        step_ok(o, Step::Ask(req)),
        is_engaging(o.current_phase()),
    ensures
        req matches SysRequest::StopService(n) ==> exists|s: Snapshot| written(o, s) && records_service(s, n@),
        req matches SysRequest::SetPriorityClass(pid, _) ==> exists|s: Snapshot| written(o, s) && records_process(s, pid),
        req matches SysRequest::SetEcoQos(pid, _) ==> exists|s: Snapshot| written(o, s) && records_process(s, pid),
        req matches SysRequest::TrimWorkingSet(pid) ==> exists|s: Snapshot| written(o, s) && records_process(s, pid),
        req matches SysRequest::SetPowerScheme(_) ==> exists|s: Snapshot| written(o, s) && s.power_scheme is Some,
        req matches SysRequest::KillExplorer ==> exists|s: Snapshot| written(o, s) && s.explorer_killed,
{
    if o.last_saved() is Some {
        let s = o.last_saved()->0;
        assert(written(o, s));
    }
}

} // verus!
