//! The thin layer over the operating system: the values it hands over, and
//! the implementation used away from Windows, where nothing is changed and
//! every system operation reports that it is not available.

use vstd::prelude::*;

use crate::error::Error;
use crate::guid::{ultimate, ultimate_view, SchemeGuid};
use crate::text::owned;

verus! {

#[derive(Debug, Clone, PartialEq, Eq)]
pub struct ProcInfo {
    pub pid: u32,
    /// Executable name without extension.
    pub name: String,
    /// The process that started it; 0 when unknown.
    pub parent_pid: u32,
}

/// What a process uses at a given moment.
#[derive(Debug, Clone, PartialEq, Eq)]
pub struct ProcessUsage {
    pub pid: u32,
    pub name: String,
    /// The process that started it; 0 when unknown. Used to recognise the
    /// children of the game (a launcher that starts the real executable is
    /// common) and not demote them by mistake.
    pub parent_pid: u32,
    /// Physical memory in use right now.
    pub working_set: u64,
    /// Committed memory (including what is paged out).
    pub private_bytes: u64,
}

/// The state of a service, with the process that hosts it.
#[derive(Debug, Clone, PartialEq, Eq)]
pub struct ServiceStatus {
    pub name: String,
    pub display: String,
    pub running: bool,
    /// 0 when not running. Several services share one `svchost`, so the
    /// memory of a pid may belong to several at once.
    pub pid: u32,
}

#[derive(Debug, Clone, Copy, PartialEq, Eq, Structural)]
pub enum ServiceRunState {
    Running,
    Stopped,
    /// Starting, stopping, paused...
    Transitioning,
}

#[derive(Debug, Clone, Copy)]
pub struct MemoryStatus {
    pub total: u64,
    pub available: u64,
}

impl Default for MemoryStatus {
    fn default() -> (m: MemoryStatus)
        ensures
            m.total == 0,
            m.available == 0,
    {
        MemoryStatus { total: 0, available: 0 }
    }
}

impl MemoryStatus {
    /// Memory in use: the total less what is available, never below zero.
    pub fn used(&self) -> (r: u64)
        ensures
            r == (if self.total >= self.available {
                self.total - self.available
            } else {
                0
            }),
    {
        self.total.saturating_sub(self.available)
    }
}

/// Windows priority classes.
pub const IDLE_PRIORITY: u32 = 0x40;

pub const BELOW_NORMAL_PRIORITY: u32 = 0x4000;

pub const NORMAL_PRIORITY: u32 = 0x20;

pub const ABOVE_NORMAL_PRIORITY: u32 = 0x8000;

pub const HIGH_PRIORITY: u32 = 0x80;

pub const REALTIME_PRIORITY: u32 = 0x100;

pub open spec fn priority_text(class: u32) -> Seq<char> {
    if class == IDLE_PRIORITY {
        "baja"@
    } else if class == BELOW_NORMAL_PRIORITY {
        "por debajo de lo normal"@
    } else if class == NORMAL_PRIORITY {
        "normal"@
    } else if class == ABOVE_NORMAL_PRIORITY {
        "por encima de lo normal"@
    } else if class == HIGH_PRIORITY {
        "alta"@
    } else if class == REALTIME_PRIORITY {
        "tiempo real"@
    } else {
        "desconocida"@
    }
}

/// The name of a priority class, for the report.
pub fn priority_name(class: u32) -> (s: &'static str)
    ensures
        s@ == priority_text(class),
{
    if class == IDLE_PRIORITY {
        "baja"
    } else if class == BELOW_NORMAL_PRIORITY {
        "por debajo de lo normal"
    } else if class == NORMAL_PRIORITY {
        "normal"
    } else if class == ABOVE_NORMAL_PRIORITY {
        "por encima de lo normal"
    } else if class == HIGH_PRIORITY {
        "alta"
    } else if class == REALTIME_PRIORITY {
        "tiempo real"
    } else {
        "desconocida"
    }
}

pub open spec fn is_off_windows(e: Error) -> bool {
    e is Unsupported && e->Unsupported_0@ == "el modo juego solo modifica el sistema en Windows"@
}

fn unsupported() -> (e: Error)
    ensures
        is_off_windows(e),
{
    Error::Unsupported(owned("el modo juego solo modifica el sistema en Windows"))
}

pub fn is_elevated() -> (r: bool)
    ensures
        !r,
{
    false
}

pub fn active_power_scheme() -> (r: Result<SchemeGuid, Error>)
    ensures
        r matches Err(e) && is_off_windows(e),
{
    Err(unsupported())
}

pub fn set_power_scheme(scheme: SchemeGuid) -> (r: Result<(), Error>)
    ensures
        r matches Err(e) && is_off_windows(e),
{
    Err(unsupported())
}

pub fn duplicate_ultimate_scheme() -> (r: Result<(), Error>)
    ensures
        r matches Err(e) && is_off_windows(e),
{
    Err(unsupported())
}

pub fn service_state(name: &str) -> (r: Result<ServiceRunState, Error>)
    ensures
        r matches Err(e) && is_off_windows(e),
{
    Err(unsupported())
}

pub fn stop_service(name: &str) -> (r: Result<(), Error>)
    ensures
        r matches Err(e) && is_off_windows(e),
{
    Err(unsupported())
}

pub fn start_service(name: &str) -> (r: Result<(), Error>)
    ensures
        r matches Err(e) && is_off_windows(e),
{
    Err(unsupported())
}

pub fn list_processes() -> (r: Result<Vec<ProcInfo>, Error>)
    ensures
        r matches Ok(v) && v@.len() == 0,
{
    Ok(Vec::new())
}

pub fn sample_processes() -> (r: Result<Vec<ProcessUsage>, Error>)
    ensures
        r matches Ok(v) && v@.len() == 0,
{
    Ok(Vec::new())
}

pub fn list_service_status() -> (r: Result<Vec<ServiceStatus>, Error>)
    ensures
        r matches Ok(v) && v@.len() == 0,
{
    Ok(Vec::new())
}

pub fn priority_class(pid: u32) -> (r: Result<u32, Error>)
    ensures
        r matches Err(e) && is_off_windows(e),
{
    Err(unsupported())
}

pub fn set_priority_class(pid: u32, class: u32) -> (r: Result<(), Error>)
    ensures
        r matches Err(e) && is_off_windows(e),
{
    Err(unsupported())
}

pub fn set_eco_qos(pid: u32, enabled: bool) -> (r: Result<(), Error>)
    ensures
        r matches Err(e) && is_off_windows(e),
{
    Err(unsupported())
}

pub fn trim_working_set(pid: u32) -> (r: Result<(), Error>)
    ensures
        r matches Err(e) && is_off_windows(e),
{
    Err(unsupported())
}

pub fn memory_status() -> (r: Result<MemoryStatus, Error>)
    ensures
        r matches Ok(m) && m.total == 0 && m.available == 0,
{
    Ok(MemoryStatus::default())
}

pub fn kill_explorer() -> (r: Result<(), Error>)
    ensures
        r matches Err(e) && is_off_windows(e),
{
    Err(unsupported())
}

pub fn start_explorer() -> (r: Result<(), Error>)
    ensures
        r matches Err(e) && is_off_windows(e),
{
    Err(unsupported())
}

/// Checks that a power plan can be chosen: the hidden "ultimate" plan is
/// duplicated first; any other plan needs nothing.
pub fn ensure_scheme_available(scheme: SchemeGuid) -> (r: Result<(), Error>)
    ensures
        scheme@ != ultimate_view() ==> r is Ok,
        scheme@ == ultimate_view() ==> (r matches Err(e) && is_off_windows(e)),
{
    let u = ultimate();
    if !scheme.equals(&u) {
        return Ok(());
    }
    duplicate_ultimate_scheme()
}

} // verus!
