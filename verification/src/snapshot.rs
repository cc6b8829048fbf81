//! What the system looked like before game mode engaged.
//!
//! It is written to disk *before* anything is touched. If the shell dies (or
//! the machine powers off), the next start finds it and undoes everything.

use vstd::prelude::*;

use crate::guid::SchemeGuid;
use crate::library::now_secs;
use crate::text::owned;

verus! {

#[derive(Debug, Clone)]
pub struct ServiceState {
    pub name: String,
    /// Was it running before game mode engaged?
    pub was_running: bool,
}

#[derive(Debug, Clone)]
pub struct ProcessState {
    pub pid: u32,
    /// Kept so that a process that merely inherited the pid of a dead one
    /// does not get its priority "restored".
    pub name: String,
    pub previous_priority: u32,
    pub eco_qos_applied: bool,
}

#[derive(Debug, Clone)]
pub struct Snapshot {
    pub taken_at: u64,
    /// Version of the format, in case the file outlives an update.
    pub version: u32,
    pub power_scheme: Option<SchemeGuid>,
    pub services: Vec<ServiceState>,
    pub processes: Vec<ProcessState>,
    pub explorer_killed: bool,
}

/// The format version written today.
pub const SNAPSHOT_VERSION: u32 = 1;

impl ServiceState {
    pub fn duplicate(&self) -> (r: ServiceState)
        ensures
            r.name@ == self.name@,
            r.was_running == self.was_running,
    {
        ServiceState { name: owned(self.name.as_str()), was_running: self.was_running }
    }
}

impl ProcessState {
    pub fn duplicate(&self) -> (r: ProcessState)
        ensures
            r.pid == self.pid,
            r.name@ == self.name@,
            r.previous_priority == self.previous_priority,
            r.eco_qos_applied == self.eco_qos_applied,
    {
        ProcessState {
            pid: self.pid,
            name: owned(self.name.as_str()),
            previous_priority: self.previous_priority,
            eco_qos_applied: self.eco_qos_applied,
        }
    }
}

pub open spec fn same_services(a: Seq<ServiceState>, b: Seq<ServiceState>) -> bool {
    &&& a.len() == b.len()
    &&& forall|i: int|
        0 <= i < a.len() ==> (#[trigger] a[i]).name@ == b[i].name@ && a[i].was_running
            == b[i].was_running
}

pub open spec fn same_processes(a: Seq<ProcessState>, b: Seq<ProcessState>) -> bool {
    &&& a.len() == b.len()
    &&& forall|i: int|
        0 <= i < a.len() ==> (#[trigger] a[i]).pid == b[i].pid && a[i].name@ == b[i].name@
            && a[i].previous_priority == b[i].previous_priority && a[i].eco_qos_applied
            == b[i].eco_qos_applied
}

/// Two snapshots record the same state.
pub open spec fn same_snapshot(a: Snapshot, b: Snapshot) -> bool {
    &&& a.taken_at == b.taken_at
    &&& a.version == b.version
    &&& a.power_scheme == b.power_scheme
    &&& same_services(a.services@, b.services@)
    &&& same_processes(a.processes@, b.processes@)
    &&& a.explorer_killed == b.explorer_killed
}

/// Nothing recorded: no plan, no service, no process, explorer untouched.
pub open spec fn snapshot_is_empty(s: Snapshot) -> bool {
    &&& s.power_scheme is None
    &&& s.services@.len() == 0
    &&& s.processes@.len() == 0
    &&& !s.explorer_killed
}

impl Default for Snapshot {
    fn default() -> (s: Snapshot)
        ensures
            s.taken_at == 0,
            s.version == 0,
            snapshot_is_empty(s),
    {
        Snapshot {
            taken_at: 0,
            version: 0,
            power_scheme: None,
            services: Vec::new(),
            processes: Vec::new(),
            explorer_killed: false,
        }
    }
}

impl Snapshot {
    /// An empty snapshot taken now.
    pub fn new() -> (s: Snapshot)
        ensures
            s.version == SNAPSHOT_VERSION,
            snapshot_is_empty(s),
    {
        Snapshot {
            taken_at: now_secs(),
            version: SNAPSHOT_VERSION,
            power_scheme: None,
            services: Vec::new(),
            processes: Vec::new(),
            explorer_killed: false,
        }
    }

    /// Is there anything to undo?
    pub fn is_empty(&self) -> (r: bool)
        ensures
            r == snapshot_is_empty(*self),
    {
        self.power_scheme.is_none() && self.services.len() == 0 && self.processes.len() == 0
            && !self.explorer_killed
    }

    /// A copy, to be written to disk.
    pub fn duplicate(&self) -> (r: Snapshot)
        ensures
            same_snapshot(r, *self),
    {
        let mut services: Vec<ServiceState> = Vec::new();
        let mut i: usize = 0;
        while i < self.services.len()
            invariant
                i <= self.services.len(),
                same_services(services@, self.services@.take(i as int)),
            decreases self.services.len() - i,
        {
            services.push(self.services[i].duplicate());
            i += 1;
        }
        assert(self.services@.take(self.services.len() as int) == self.services@);
        let mut processes: Vec<ProcessState> = Vec::new();
        let mut k: usize = 0;
        while k < self.processes.len()
            invariant
                k <= self.processes.len(),
                same_processes(processes@, self.processes@.take(k as int)),
            decreases self.processes.len() - k,
        {
            processes.push(self.processes[k].duplicate());
            k += 1;
        }
        assert(self.processes@.take(self.processes.len() as int) == self.processes@);
        Snapshot {
            taken_at: self.taken_at,
            version: self.version,
            power_scheme: self.power_scheme,
            services,
            processes,
            explorer_killed: self.explorer_killed,
        }
    }
}

} // verus!
