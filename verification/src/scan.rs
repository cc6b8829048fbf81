//! A picture of what is using resources right now.
//!
//! It is what the Resources view shows and what feeds the automatic choice:
//! before anything is touched, the user can see what would be demoted,
//! what would be stopped and what would be respected.

use vstd::prelude::*;

use crate::config::Power;
use crate::protect::{detect_helpers, Helper};
use crate::select::{ranks_before, select_throttle_targets, threshold_of, Selection, Target, Untouched};
use crate::shell::Tone;
use crate::services::{catalog, service_table, ServiceEntry, ServiceEntryView};
use crate::sys::{MemoryStatus, ProcessUsage, ServiceStatus};
use crate::text::{
    eq_ignore_ascii_case, lemma_seq_lt_total, lemma_seq_lt_transitive, owned, same_ignoring_ascii_case,
    same_text, seq_lt, text_lt, texts,
};

verus! {

/// A service of the safe catalog, with what it really uses.
#[derive(Debug, Clone, Copy)]
pub struct ServiceReport {
    pub entry: ServiceEntry,
    pub running: bool,
    /// Memory of the hosting process. Approximate: several services share
    /// one `svchost`, and then the figure is that of the whole group.
    pub ram: Option<u64>,
    pub shared_process: bool,
    /// Marked to be stopped under the current settings.
    pub enabled: bool,
}

pub struct ServiceReportView {
    pub entry: ServiceEntryView,
    pub running: bool,
    pub ram: Option<u64>,
    pub shared_process: bool,
    pub enabled: bool,
}

impl View for ServiceReport {
    type V = ServiceReportView;

    open spec fn view(&self) -> ServiceReportView {
        ServiceReportView {
            entry: self.entry@,
            running: self.running,
            ram: self.ram,
            shared_process: self.shared_process,
            enabled: self.enabled,
        }
    }
}

pub open spec fn report_views(v: Seq<ServiceReport>) -> Seq<ServiceReportView> {
    v.map_values(|r: ServiceReport| r@)
}

/// The status of the service called `name` (ASCII case aside), the first
/// one listed.
pub open spec fn status_named(sts: Seq<ServiceStatus>, name: Seq<char>) -> Option<ServiceStatus>
    decreases sts.len(),
{
    if sts.len() == 0 {
        None
    } else if same_ignoring_ascii_case(sts[0].name@, name) {
        Some(sts[0])
    } else {
        status_named(sts.drop_first(), name)
    }
}

/// The first process with that pid.
pub open spec fn process_with_pid(ps: Seq<ProcessUsage>, pid: u32) -> Option<ProcessUsage>
    decreases ps.len(),
{
    if ps.len() == 0 {
        None
    } else if ps[0].pid == pid {
        Some(ps[0])
    } else {
        process_with_pid(ps.drop_first(), pid)
    }
}

/// How many running services live in the process `pid`.
pub open spec fn running_in(sts: Seq<ServiceStatus>, pid: u32) -> nat
    decreases sts.len(),
{
    if sts.len() == 0 {
        0
    } else {
        running_in(sts.drop_last(), pid) + if sts.last().running && sts.last().pid == pid {
            1nat
        } else {
            0nat
        }
    }
}

/// The report of one catalog entry.
pub open spec fn report_for(
    e: ServiceEntryView,
    sts: Seq<ServiceStatus>,
    ps: Seq<ProcessUsage>,
    enabled: Seq<Seq<char>>,
) -> ServiceReportView {
    let st = status_named(sts, e.name);
    let running = st matches Some(x) && x.running;
    let pid: u32 = match st {
        Some(x) => x.pid,
        None => 0,
    };
    let ram = if running && pid != 0 {
        match process_with_pid(ps, pid) {
            Some(p) => Some(p.working_set),
            None => None,
        }
    } else {
        None
    };
    ServiceReportView {
        entry: e,
        running,
        ram,
        // Another running service in the same process: stopping this one
        // does not give the whole figure back.
        shared_process: pid != 0 && running_in(sts, pid) > 1,
        enabled: exists|i: int| 0 <= i < enabled.len() && same_ignoring_ascii_case(#[trigger] enabled[i], e.name),
    }
}

/// A name is in a list, ASCII case aside.
pub open spec fn named_in(names: Seq<Seq<char>>, name: Seq<char>) -> bool {
    exists|i: int| 0 <= i < names.len() && same_ignoring_ascii_case(#[trigger] names[i], name)
}

/// Marks again which services would be stopped, after the selection
/// changed, without measuring the machine again.
pub fn refresh_marks(reports: &mut Vec<ServiceReport>, enabled: &[String])
    ensures
        final(reports)@.len() == old(reports)@.len(),
        forall|k: int|
            0 <= k < old(reports)@.len() ==> (#[trigger] final(reports)@[k])@ == (ServiceReportView {
                enabled: named_in(texts(enabled@), old(reports)@[k].entry@.name),
                ..old(reports)@[k]@
            }),
{
    let mut out: Vec<ServiceReport> = Vec::new();
    let mut k: usize = 0;
    while k < reports.len()
        invariant
            k <= reports@.len(),
            reports@ == old(reports)@,
            out@.len() == k,
            forall|q: int|
                0 <= q < k ==> (#[trigger] out@[q])@ == (ServiceReportView {
                    enabled: named_in(texts(enabled@), reports@[q].entry@.name),
                    ..reports@[q]@
                }),
        decreases reports.len() - k,
    {
        let mut r = reports[k];
        let mut on = false;
        let mut i: usize = 0;
        while i < enabled.len()
            invariant
                i <= enabled@.len(),
                on == exists|j: int|
                    0 <= j < i && same_ignoring_ascii_case(#[trigger] texts(enabled@)[j], r.entry@.name),
            decreases enabled.len() - i,
        {
            if eq_ignore_ascii_case(enabled[i].as_str(), r.entry.name) {
                on = true;
                assert(texts(enabled@)[i as int] == enabled@[i as int]@);
            }
            proof {
                assert forall|j: int|
                    0 <= j < i + 1 && same_ignoring_ascii_case(#[trigger] texts(enabled@)[j], r.entry@.name)
                        implies on by {
                    if j < i {
                    } else {
                        assert(texts(enabled@)[j] == enabled@[j]@);
                    }
                }
            }
            i += 1;
        }
        r.enabled = on;
        out.push(r);
        k += 1;
    }
    *reports = out;
}

pub open spec fn ram_or_zero(r: ServiceReportView) -> u64 {
    match r.ram {
        Some(x) => x,
        None => 0,
    }
}

/// Report `a` is listed before report `b`: running first, then by memory,
/// then by readable name, then (the sort is stable) by catalog order.
pub open spec fn report_before(rs: Seq<ServiceReportView>, a: int, b: int) -> bool {
    let (x, y) = (rs[a], rs[b]);
    ||| x.running && !y.running
    ||| x.running == y.running && ram_or_zero(x) > ram_or_zero(y)
    ||| x.running == y.running && ram_or_zero(x) == ram_or_zero(y) && seq_lt(
        x.entry.display,
        y.entry.display,
    )
    ||| x.running == y.running && ram_or_zero(x) == ram_or_zero(y) && x.entry.display
        == y.entry.display && a < b
}

proof fn lemma_report_before_total(rs: Seq<ServiceReportView>, a: int, b: int)
    requires
        a != b,
    ensures
        report_before(rs, a, b) || report_before(rs, b, a),
{
    lemma_seq_lt_total(rs[a].entry.display, rs[b].entry.display);
}

proof fn lemma_report_before_transitive(rs: Seq<ServiceReportView>, a: int, b: int, c: int)
    requires
        report_before(rs, a, b),
        report_before(rs, b, c),
    ensures
        report_before(rs, a, c),
{
    let (da, db, dc) = (rs[a].entry.display, rs[b].entry.display, rs[c].entry.display);
    if seq_lt(da, db) && seq_lt(db, dc) {
        lemma_seq_lt_transitive(da, db, dc);
    }
}

/// The report of every catalog entry, in catalog order.
pub open spec fn catalog_reports(
    sts: Seq<ServiceStatus>,
    ps: Seq<ProcessUsage>,
    enabled: Seq<Seq<char>>,
) -> Seq<ServiceReportView> {
    service_table().map_values(|e: ServiceEntryView| report_for(e, sts, ps, enabled))
}

pub open spec fn reports_in_order(rs: Seq<ServiceReportView>, order: Seq<int>) -> Seq<ServiceReportView> {
    order.map_values(|i: int| rs[i])
}

/// `order` lists every position of `items` once, sorted by `before`.
pub open spec fn is_report_order(rs: Seq<ServiceReportView>, order: Seq<int>) -> bool {
    &&& order.len() == rs.len()
    &&& forall|i: int| 0 <= i < order.len() ==> 0 <= #[trigger] order[i] < rs.len()
    &&& forall|j: int| 0 <= j < rs.len() ==> order.contains(j)
    &&& forall|i: int, k: int|
        0 <= i < k < order.len() ==> report_before(rs, #[trigger] order[i], #[trigger] order[k])
}

fn status_named_exec(sts: &[ServiceStatus], name: &str) -> (r: Option<usize>)
    ensures
        match r {
            Some(i) => i < sts.len() && status_named(sts@, name@) == Some(sts@[i as int]),
            None => status_named(sts@, name@) is None,
        },
{
    let ghost t = sts@;
    let mut i: usize = 0;
    assert(t.subrange(0, t.len() as int) == t);
    while i < sts.len()
        invariant
            i <= sts.len(),
            t == sts@,
            status_named(t, name@) == status_named(t.subrange(i as int, t.len() as int), name@),
        decreases sts.len() - i,
    {
        assert(t.subrange(i as int, t.len() as int)[0] == t[i as int]);
        if eq_ignore_ascii_case(sts[i].name.as_str(), name) {
            return Some(i);
        }
        assert(t.subrange(i as int, t.len() as int).drop_first() == t.subrange(i + 1, t.len() as int));
        i += 1;
    }
    None
}

fn process_with_pid_exec(ps: &[ProcessUsage], pid: u32) -> (r: Option<u64>)
    ensures
        r == (match process_with_pid(ps@, pid) {
            Some(p) => Some(p.working_set),
            None => None,
        }),
{
    let ghost t = ps@;
    let mut i: usize = 0;
    assert(t.subrange(0, t.len() as int) == t);
    while i < ps.len()
        invariant
            i <= ps.len(),
            t == ps@,
            process_with_pid(t, pid) == process_with_pid(t.subrange(i as int, t.len() as int), pid),
        decreases ps.len() - i,
    {
        assert(t.subrange(i as int, t.len() as int)[0] == t[i as int]);
        if ps[i].pid == pid {
            return Some(ps[i].working_set);
        }
        assert(t.subrange(i as int, t.len() as int).drop_first() == t.subrange(i + 1, t.len() as int));
        i += 1;
    }
    None
}

fn running_in_exec(sts: &[ServiceStatus], pid: u32) -> (r: usize)
    ensures
        r == running_in(sts@, pid),
{
    let ghost t = sts@;
    let mut n: usize = 0;
    let mut i: usize = 0;
    while i < sts.len()
        invariant
            i <= sts.len(),
            t == sts@,
            n == running_in(t.take(i as int), pid),
            n <= i,
        decreases sts.len() - i,
    {
        assert(t.take(i + 1).drop_last() == t.take(i as int));
        if sts[i].running && sts[i].pid == pid {
            n += 1;
        }
        i += 1;
    }
    assert(t.take(sts.len() as int) == t);
    n
}

fn any_named(names: &[String], name: &str) -> (r: bool)
    ensures
        r == exists|i: int| 0 <= i < names@.len() && same_ignoring_ascii_case(#[trigger] texts(names@)[i], name@),
{
    let mut i: usize = 0;
    while i < names.len()
        invariant
            i <= names.len(),
            forall|j: int| 0 <= j < i ==> !same_ignoring_ascii_case(#[trigger] texts(names@)[j], name@),
        decreases names.len() - i,
    {
        assert(texts(names@)[i as int] == names@[i as int]@);
        if eq_ignore_ascii_case(names[i].as_str(), name) {
            return true;
        }
        i += 1;
    }
    false
}

fn report_of(
    entry: ServiceEntry,
    statuses: &[ServiceStatus],
    processes: &[ProcessUsage],
    enabled: &[String],
) -> (r: ServiceReport)
    ensures
        r@ == report_for(entry@, statuses@, processes@, texts(enabled@)),
{
    let (running, pid) = match status_named_exec(statuses, entry.name) {
        Some(i) => (statuses[i].running, statuses[i].pid),
        None => (false, 0),
    };
    let ram = if running && pid != 0 {
        process_with_pid_exec(processes, pid)
    } else {
        None
    };
    let shared_process = pid != 0 && running_in_exec(statuses, pid) > 1;
    ServiceReport { entry, running, ram, shared_process, enabled: any_named(enabled, entry.name) }
}

fn report_before_at(rs: &Vec<ServiceReport>, a: usize, b: usize) -> (r: bool)
    requires
        a < rs.len(),
        b < rs.len(),
    ensures
        r == report_before(report_views(rs@), a as int, b as int),
{
    let x = rs[a];
    let y = rs[b];
    let rx = match x.ram {
        Some(v) => v,
        None => 0,
    };
    let ry = match y.ram {
        Some(v) => v,
        None => 0,
    };
    assert(report_views(rs@)[a as int] == x@ && report_views(rs@)[b as int] == y@);
    if x.running && !y.running {
        return true;
    }
    if x.running != y.running {
        return false;
    }
    if rx > ry {
        return true;
    }
    if rx != ry {
        return false;
    }
    if text_lt(x.entry.display, y.entry.display) {
        return true;
    }
    same_text(x.entry.display, y.entry.display) && a < b
}

/// Puts the positions of `rs` in listing order.
fn report_order(rs: &Vec<ServiceReport>) -> (order: Vec<usize>)
    ensures
        is_report_order(report_views(rs@), order@.map_values(|x: usize| x as int)),
{
    let ghost v = report_views(rs@);
    let mut r: Vec<usize> = Vec::new();
    let mut j: usize = 0;
    while j < rs.len()
        invariant
            j <= rs.len(),
            v == report_views(rs@),
            r@.len() == j,
            forall|i: int| 0 <= i < r@.len() ==> r@[i] < j,
            forall|x: usize| r@.contains(x) <==> x < j,
            forall|i: int, k: int| 0 <= i < k < r@.len() ==> report_before(v, r@[i] as int, r@[k] as int),
        decreases rs.len() - j,
    {
        let ghost old_r = r@;
        let mut p: usize = 0;
        while p < r.len() && !report_before_at(rs, j, r[p])
            invariant
                p <= r.len(),
                r@ == old_r,
                j < rs.len(),
                v == report_views(rs@),
                forall|i: int| 0 <= i < r@.len() ==> r@[i] < j,
                forall|i: int| 0 <= i < p ==> !report_before(v, j as int, r@[i] as int),
            decreases r.len() - p,
        {
            p += 1;
        }
        proof {
            assert forall|i: int| 0 <= i < p implies report_before(v, r@[i] as int, j as int) by {
                lemma_report_before_total(v, r@[i] as int, j as int);
            }
            assert forall|k: int| p <= k < r@.len() implies report_before(v, j as int, r@[k] as int) by {
                if k > p {
                    lemma_report_before_transitive(v, j as int, r@[p as int] as int, r@[k] as int);
                }
            }
        }
        r.insert(p, j);
        proof {
            assert forall|i: int, k: int| 0 <= i < k < r@.len() implies report_before(
                v,
                r@[i] as int,
                r@[k] as int,
            ) by {
                if k < p {
                    assert(r@[i] == old_r[i] && r@[k] == old_r[k]);
                } else if k == p {
                    assert(r@[i] == old_r[i]);
                } else if i < p {
                    assert(r@[i] == old_r[i] && r@[k] == old_r[k - 1]);
                    lemma_report_before_transitive(v, r@[i] as int, j as int, r@[k] as int);
                } else if i == p {
                    assert(r@[k] == old_r[k - 1]);
                } else {
                    assert(r@[i] == old_r[i - 1] && r@[k] == old_r[k - 1]);
                }
            }
            assert forall|x: usize| r@.contains(x) <==> x < j + 1 by {
                if x < j {
                    assert(old_r.contains(x));
                    let i0 = choose|i: int| 0 <= i < old_r.len() && old_r[i] == x;
                    if i0 < p {
                        assert(r@[i0] == x);
                    } else {
                        assert(r@[i0 + 1] == x);
                    }
                }
                if x == j {
                    assert(r@[p as int] == j);
                }
                if r@.contains(x) {
                    let i0 = choose|i: int| 0 <= i < r@.len() && r@[i] == x;
                    if i0 < p {
                        assert(old_r[i0] == x);
                    } else if i0 > p {
                        assert(old_r[i0 - 1] == x);
                    }
                }
            }
            assert forall|i: int| 0 <= i < r@.len() implies r@[i] < j + 1 by {
                if i < p {
                    assert(r@[i] == old_r[i]);
                } else if i > p {
                    assert(r@[i] == old_r[i - 1]);
                }
            }
        }
        j += 1;
    }
    let ghost order = r@.map_values(|x: usize| x as int);
    assert forall|q: int| 0 <= q < v.len() implies order.contains(q) by {
        assert(r@.contains(q as usize));
        let i0 = choose|i: int| 0 <= i < r@.len() && r@[i] == q as usize;
        assert(order[i0] == q);
    }
    r
}

/// `r` lists the report of every catalog entry once, in listing order.
pub open spec fn is_service_listing(
    r: Seq<ServiceReport>,
    sts: Seq<ServiceStatus>,
    ps: Seq<ProcessUsage>,
    enabled: Seq<Seq<char>>,
) -> bool {
    exists|order: Seq<int>|
        #[trigger] is_report_order(catalog_reports(sts, ps, enabled), order) && report_views(r)
            == reports_in_order(catalog_reports(sts, ps, enabled), order)
}

/// Crosses the catalog of services with what is running: each entry with
/// its state, the memory of its process and whether it is marked, listed
/// running first, then by memory, then by name.
pub fn build_service_reports(
    statuses: &[ServiceStatus],
    processes: &[ProcessUsage],
    enabled: &[String],
) -> (r: Vec<ServiceReport>)
    ensures
        is_service_listing(r@, statuses@, processes@, texts(enabled@)),
{
    let cat = catalog();
    let ghost t = service_table();
    let ghost base = t.map_values(|e: ServiceEntryView| report_for(e, statuses@, processes@, texts(enabled@)));
    let mut reports: Vec<ServiceReport> = Vec::new();
    let mut i: usize = 0;
    while i < cat.len()
        invariant
            i <= cat.len(),
            cat@.map_values(|e: ServiceEntry| e@) == t,
            t == service_table(),
            base == t.map_values(|e: ServiceEntryView| report_for(e, statuses@, processes@, texts(enabled@))),
            report_views(reports@) == base.take(i as int),
        decreases cat.len() - i,
    {
        let e = cat[i];
        assert(t[i as int] == e@);
        let rep = report_of(e, statuses, processes, enabled);
        let ghost old_v = report_views(reports@);
        reports.push(rep);
        assert(report_views(reports@) =~= old_v.push(rep@));
        assert(base[i as int] == rep@);
        assert(report_views(reports@) =~= base.take(i + 1));
        i += 1;
    }
    assert(base.take(cat.len() as int) == base);
    let order = report_order(&reports);
    let ghost ord = order@.map_values(|x: usize| x as int);
    let mut out: Vec<ServiceReport> = Vec::new();
    let mut k: usize = 0;
    while k < order.len()
        invariant
            k <= order.len(),
            report_views(reports@) == base,
            base.len() == t.len(),
            t == service_table(),
            base == t.map_values(|e: ServiceEntryView| report_for(e, statuses@, processes@, texts(enabled@))),
            is_report_order(base, ord),
            ord == order@.map_values(|x: usize| x as int),
            report_views(out@) == ord.take(k as int).map_values(|i: int| base[i]),
        decreases order.len() - k,
    {
        let j = order[k];
        assert(ord[k as int] == j as int);
        assert(report_views(reports@)[j as int] == reports@[j as int]@);
        let ghost old_v = report_views(out@);
        out.push(reports[j]);
        assert(report_views(out@) =~= old_v.push(reports@[j as int]@));
        assert(base[j as int] == reports@[j as int]@);
        assert(report_views(out@) =~= ord.take(k + 1).map_values(|i: int| base[i]));
        k += 1;
    }
    assert(ord.take(order.len() as int) == ord);
    assert(base == catalog_reports(statuses@, processes@, texts(enabled@)));
    assert(report_views(out@) == reports_in_order(base, ord));
    out
}

#[derive(Debug, Clone)]
pub struct SystemScan {
    /// Processes, from most to least memory.
    pub processes: Vec<ProcessUsage>,
    pub services: Vec<ServiceReport>,
    /// Handheld helpers found and respected.
    pub helpers: Vec<Helper>,
    /// What would be demoted if game mode engaged now.
    pub selection: Selection,
    pub memory: MemoryStatus,
    pub elevated: bool,
}

impl Default for SystemScan {
    fn default() -> (s: SystemScan)
        ensures
            s.processes@.len() == 0,
            s.services@.len() == 0,
            s.helpers@.len() == 0,
            s.selection.targets@.len() == 0,
            s.selection.untouched@.len() == 0,
            s.memory.total == 0,
            s.memory.available == 0,
            !s.elevated,
    {
        SystemScan {
            processes: Vec::new(),
            services: Vec::new(),
            helpers: Vec::new(),
            selection: Selection::default(),
            memory: MemoryStatus::default(),
            elevated: false,
        }
    }
}

/// Memory that stopping the marked services would give back: running ones
/// that do not share their process.
pub open spec fn recoverable_ram(rs: Seq<ServiceReportView>) -> nat
    decreases rs.len(),
{
    if rs.len() == 0 {
        0
    } else {
        let r = rs.last();
        recoverable_ram(rs.drop_last()) + if r.enabled && r.running && !r.shared_process {
            ram_or_zero(r) as nat
        } else {
            0nat
        }
    }
}

proof fn lemma_recoverable_prefix(rs: Seq<ServiceReportView>, i: int)
    requires
        0 <= i <= rs.len(),
    ensures
        recoverable_ram(rs.take(i)) <= recoverable_ram(rs),
    decreases rs.len(),
{
    if i == rs.len() {
        assert(rs.take(i) == rs);
    } else {
        lemma_recoverable_prefix(rs.drop_last(), i);
        assert(rs.drop_last().take(i) == rs.take(i));
    }
}

impl SystemScan {
    /// Memory held by the services that would be stopped.
    pub fn recoverable_service_ram(&self) -> (r: u64)
        requires
            recoverable_ram(report_views(self.services@)) <= u64::MAX,
        ensures
            r == recoverable_ram(report_views(self.services@)),
    {
        let ghost v = report_views(self.services@);
        let mut total: u64 = 0;
        let mut i: usize = 0;
        while i < self.services.len()
            invariant
                i <= self.services.len(),
                v == report_views(self.services@),
                recoverable_ram(v) <= u64::MAX,
                total == recoverable_ram(v.take(i as int)),
            decreases self.services.len() - i,
        {
            let rep = self.services[i];
            assert(v.take(i + 1).drop_last() == v.take(i as int));
            assert(v.take(i + 1).last() == rep@);
            proof {
                lemma_recoverable_prefix(v, i + 1);
            }
            if rep.enabled && rep.running && !rep.shared_process {
                match rep.ram {
                    Some(x) => {
                        total = total + x;
                    },
                    None => {},
                }
            }
            i += 1;
        }
        assert(v.take(self.services.len() as int) == v);
        total
    }
}

/// Two process readings carry the same values.
pub open spec fn same_usage(a: ProcessUsage, b: ProcessUsage) -> bool {
    &&& a.pid == b.pid
    &&& a.name@ == b.name@
    &&& a.parent_pid == b.parent_pid
    &&& a.working_set == b.working_set
    &&& a.private_bytes == b.private_bytes
}

/// `out` holds the processes of `ps` from most to least memory (by name on
/// a tie, then as they came).
pub open spec fn is_memory_order(ps: Seq<ProcessUsage>, out: Seq<ProcessUsage>) -> bool {
    exists|order: Seq<int>|
        #[trigger] is_process_order(ps, order) && out.len() == order.len() && forall|i: int|
            0 <= i < out.len() ==> same_usage(#[trigger] out[i], ps[order[i]])
}

pub open spec fn is_process_order(ps: Seq<ProcessUsage>, order: Seq<int>) -> bool {
    &&& order.len() == ps.len()
    &&& forall|i: int| 0 <= i < order.len() ==> 0 <= #[trigger] order[i] < ps.len()
    &&& forall|j: int| 0 <= j < ps.len() ==> order.contains(j)
    &&& forall|i: int, k: int|
        0 <= i < k < order.len() ==> ranks_before(ps, #[trigger] order[i], #[trigger] order[k])
}

fn copy_usage(p: &ProcessUsage) -> (r: ProcessUsage)
    ensures
        same_usage(r, *p),
{
    ProcessUsage {
        pid: p.pid,
        name: owned(p.name.as_str()),
        parent_pid: p.parent_pid,
        working_set: p.working_set,
        private_bytes: p.private_bytes,
    }
}

/// The processes from most to least memory.
pub fn sort_by_memory(ps: &[ProcessUsage]) -> (out: Vec<ProcessUsage>)
    ensures
        is_memory_order(ps@, out@),
{
    let mut r: Vec<usize> = Vec::new();
    let mut j: usize = 0;
    while j < ps.len()
        invariant
            j <= ps.len(),
            r@.len() == j,
            forall|i: int| 0 <= i < r@.len() ==> r@[i] < j,
            forall|x: usize| r@.contains(x) <==> x < j,
            forall|i: int, k: int| 0 <= i < k < r@.len() ==> ranks_before(ps@, r@[i] as int, r@[k] as int),
        decreases ps.len() - j,
    {
        let ghost old_r = r@;
        crate::select::insert_ranked(ps, &mut r, j);
        assert forall|x: usize| r@.contains(x) <==> x < j + 1 by {
            if x < j {
                assert(old_r.contains(x));
            }
        }
        assert forall|i: int| 0 <= i < r@.len() implies r@[i] < j + 1 by {
            assert(r@[i] <= j);
        }
        j += 1;
    }
    let ghost order = r@.map_values(|x: usize| x as int);
    assert forall|q: int| 0 <= q < ps@.len() implies order.contains(q) by {
        assert(r@.contains(q as usize));
        let i0 = choose|i: int| 0 <= i < r@.len() && r@[i] == q as usize;
        assert(order[i0] == q);
    }
    let mut out: Vec<ProcessUsage> = Vec::new();
    let mut k: usize = 0;
    while k < r.len()
        invariant
            k <= r.len(),
            r@.len() == ps@.len(),
            order == r@.map_values(|x: usize| x as int),
            forall|i: int| 0 <= i < r@.len() ==> r@[i] < ps@.len(),
            out@.len() == k,
            forall|i: int| 0 <= i < k ==> same_usage(#[trigger] out@[i], ps@[order[i]]),
        decreases r.len() - k,
    {
        out.push(copy_usage(&ps[r[k]]));
        k += 1;
    }
    assert(is_process_order(ps@, order));
    out
}

pub open spec fn usage_names(ps: Seq<ProcessUsage>) -> Seq<Seq<char>> {
    ps.map_values(|p: ProcessUsage| p.name@)
}

/// Puts together a picture of the machine from what was read from it: the
/// processes from most to least memory, the catalog of services crossed with
/// their state, the handheld helpers found, and the choice that engaging
/// game mode now would make.
pub fn scan(
    processes: &[ProcessUsage],
    statuses: &[ServiceStatus],
    memory: MemoryStatus,
    elevated: bool,
    config: &Power,
    enabled_services: &[String],
    self_pid: u32,
    game_pid: Option<u32>,
) -> (s: SystemScan)
    requires
        threshold_of(*config) <= u64::MAX,
    ensures
        is_memory_order(processes@, s.processes@),
        is_service_listing(s.services@, statuses@, s.processes@, texts(enabled_services@)),
        s.helpers@.map_values(|h: Helper| h@) == crate::protect::detected(usage_names(s.processes@)),
        crate::select::is_selection_for(s.selection, s.processes@, *config, self_pid, game_pid),
        s.memory == memory,
        s.elevated == elevated,
{
    let sorted = sort_by_memory(processes);
    let mut names: Vec<&str> = Vec::new();
    let mut i: usize = 0;
    while i < sorted.len()
        invariant
            i <= sorted.len(),
            crate::protect::str_texts(names@) == usage_names(sorted@).take(i as int),
        decreases sorted.len() - i,
    {
        let nm = sorted[i].name.as_str();
        let ghost old_names = crate::protect::str_texts(names@);
        names.push(nm);
        assert(crate::protect::str_texts(names@) =~= old_names.push(nm@));
        assert(usage_names(sorted@)[i as int] == nm@);
        assert(crate::protect::str_texts(names@) =~= usage_names(sorted@).take(i + 1));
        i += 1;
    }
    assert(usage_names(sorted@).take(sorted.len() as int) == usage_names(sorted@));
    let helpers = detect_helpers(names.as_slice());
    let selection = select_throttle_targets(sorted.as_slice(), config, self_pid, game_pid);
    let services = build_service_reports(statuses, sorted.as_slice(), enabled_services);
    SystemScan { processes: sorted, services, helpers, selection, memory, elevated }
}

/// The first demoted process with this id, -1 if none.
pub open spec fn first_target_with_pid(ts: Seq<Target>, pid: u32) -> int
    decreases ts.len(),
{
    if ts.len() == 0 {
        -1
    } else {
        let p = first_target_with_pid(ts.drop_last(), pid);
        if p >= 0 {
            p
        } else if ts.last().pid == pid {
            ts.len() - 1
        } else {
            -1
        }
    }
}

/// The first respected name equal to this one (ASCII case aside), -1 if
/// none.
pub open spec fn first_untouched_named(us: Seq<Untouched>, name: Seq<char>) -> int
    decreases us.len(),
{
    if us.len() == 0 {
        -1
    } else {
        let p = first_untouched_named(us.drop_last(), name);
        if p >= 0 {
            p
        } else if same_ignoring_ascii_case(us.last().name@, name) {
            us.len() - 1
        } else {
            -1
        }
    }
}

/// What the list of heavy processes says of one of them: demoted (always,
/// when the user named it), respected and why, or left alone.
pub open spec fn process_fate_text(sel: Selection, pid: u32, name: Seq<char>) -> (Seq<char>, Tone) {
    let t = first_target_with_pid(sel.targets@, pid);
    let u = first_untouched_named(sel.untouched@, name);
    if t >= 0 {
        if sel.targets@[t].forced {
            ("siempre a segundo plano"@, Tone::Accent)
        } else {
            ("a segundo plano"@, Tone::Accent)
        }
    } else if u >= 0 {
        (sel.untouched@[u].reason@, Tone::Good)
    } else {
        ("sin tocar"@, Tone::Dim)
    }
}

proof fn lemma_first_target(ts: Seq<Target>, pid: u32)
    ensures
        -1 <= first_target_with_pid(ts, pid) < ts.len(),
        first_target_with_pid(ts, pid) >= 0 ==> ts[first_target_with_pid(ts, pid)].pid == pid,
        forall|k: int|
            0 <= k < ts.len() && (first_target_with_pid(ts, pid) < 0 || k < first_target_with_pid(ts, pid))
                ==> ts[k].pid != pid,
    decreases ts.len(),
{
    if ts.len() > 0 {
        let rest = ts.drop_last();
        lemma_first_target(rest, pid);
        assert forall|k: int| 0 <= k < rest.len() implies ts[k] == rest[k] by {}
    }
}

proof fn lemma_first_untouched(us: Seq<Untouched>, name: Seq<char>)
    ensures
        -1 <= first_untouched_named(us, name) < us.len(),
        first_untouched_named(us, name) >= 0 ==> same_ignoring_ascii_case(
            us[first_untouched_named(us, name)].name@,
            name,
        ),
        forall|k: int|
            0 <= k < us.len() && (first_untouched_named(us, name) < 0 || k < first_untouched_named(us, name))
                ==> !same_ignoring_ascii_case(us[k].name@, name),
    decreases us.len(),
{
    if us.len() > 0 {
        let rest = us.drop_last();
        lemma_first_untouched(rest, name);
        assert forall|k: int| 0 <= k < rest.len() implies us[k] == rest[k] by {}
    }
}

/// What is said of a process in the list of heavy ones, and in which tone.
pub fn process_fate(selection: &Selection, process: &ProcessUsage) -> (r: (String, Tone))
    ensures
        (r.0@, r.1) == process_fate_text(*selection, process.pid, process.name@),
{
    proof {
        lemma_first_target(selection.targets@, process.pid);
        lemma_first_untouched(selection.untouched@, process.name@);
    }
    let mut k: usize = 0;
    while k < selection.targets.len()
        invariant
            k <= selection.targets@.len(),
            forall|j: int| 0 <= j < k ==> selection.targets@[j].pid != process.pid,
        decreases selection.targets.len() - k,
    {
        if selection.targets[k].pid == process.pid {
            proof {
                lemma_first_target(selection.targets@, process.pid);
            }
            let text = if selection.targets[k].forced {
                owned("siempre a segundo plano")
            } else {
                owned("a segundo plano")
            };
            return (text, Tone::Accent);
        }
        k += 1;
    }
    let mut m: usize = 0;
    while m < selection.untouched.len()
        invariant
            m <= selection.untouched@.len(),
            forall|j: int| 0 <= j < selection.targets@.len() ==> selection.targets@[j].pid != process.pid,
            forall|j: int| 0 <= j < m ==> !same_ignoring_ascii_case(selection.untouched@[j].name@, process.name@),
        decreases selection.untouched.len() - m,
    {
        if eq_ignore_ascii_case(selection.untouched[m].name.as_str(), process.name.as_str()) {
            proof {
                lemma_first_target(selection.targets@, process.pid);
                lemma_first_untouched(selection.untouched@, process.name@);
            }
            return (selection.untouched[m].reason.clone(), Tone::Good);
        }
        m += 1;
    }
    (owned("sin tocar"), Tone::Dim)
}

/// How many services of a report would be stopped: chosen and running.
pub open spec fn stoppable(reports: Seq<ServiceReport>) -> nat
    decreases reports.len(),
{
    if reports.len() == 0 {
        0
    } else {
        stoppable(reports.drop_last()) + if reports.last().enabled && reports.last().running {
            1nat
        } else {
            0nat
        }
    }
}

pub fn stoppable_services(reports: &Vec<ServiceReport>) -> (n: usize)
    ensures
        n == stoppable(reports@),
{
    let mut n: usize = 0;
    let mut k: usize = 0;
    while k < reports.len()
        invariant
            k <= reports@.len(),
            n == stoppable(reports@.take(k as int)),
            n <= k,
        decreases reports.len() - k,
    {
        assert(reports@.take(k + 1).drop_last() == reports@.take(k as int));
        if reports[k].enabled && reports[k].running {
            n += 1;
        }
        k += 1;
    }
    assert(reports@.take(reports@.len() as int) == reports@);
    n
}

/// How old a measurement of the machine may get while the resources
/// screen is open, in milliseconds.
pub const RESCAN_MS: u64 = 10000;

/// How often the memory figure of the top bar is read, in milliseconds.
pub const MEMORY_READ_MS: u64 = 1500;

/// A periodic task is due: it never ran, or more than `period_ms` have
/// passed since it last did.
pub fn due(now_ms: u64, last_ms: Option<u64>, period_ms: u64) -> (d: bool)
    ensures
        d == match last_ms {
            None => true,
            Some(last) => now_ms - last > period_ms,
        },
{
    match last_ms {
        None => true,
        Some(last) => now_ms >= last && now_ms - last > period_ms,
    }
}

/// The machine is measured again: only on the resources screen, not while a
/// measurement runs, and when there is none yet or it is older than
/// `RESCAN_MS`.
pub fn rescan_due(on_resources: bool, scanning: bool, last_scan_ms: Option<u64>, now_ms: u64) -> (d: bool)
    ensures
        d == (on_resources && !scanning && match last_scan_ms {
            None => true,
            Some(last) => now_ms - last > RESCAN_MS,
        }),
{
    on_resources && !scanning && due(now_ms, last_scan_ms, RESCAN_MS)
}

/// The memory figure is read again once `MEMORY_READ_MS` have passed.
pub fn memory_read_due(last_read_ms: u64, now_ms: u64) -> (d: bool)
    ensures
        d == (now_ms - last_read_ms > MEMORY_READ_MS),
{
    due(now_ms, Some(last_read_ms), MEMORY_READ_MS)
}

} // verus!
