//! The trusted boundary to the operating system's process table, and the
//! verified reap step built on it. Which processes exist — and whether a
//! signal is delivered — depends on the machine, so the trusted items here
//! promise nothing of their results; every decision about *which* process to
//! signal is made by the verified selection rule.

use vstd::prelude::*;

use crate::reaper::{reap_targets, select_reap_targets, ProcessRecord, ProcessRecordView};

verus! {

#[verifier::external_type_specification]
#[verifier::external_body]
pub struct ExSystem(sysinfo::System);

/// Relies on `sysinfo::System::new_all`: a refreshed snapshot of the running
/// system.
#[verifier::external_body]
fn new_system() -> sysinfo::System {
    sysinfo::System::new_all()
}

/// Relies on `sysinfo::System::processes`, and on `Process::pid`,
/// `Process::name` and `Process::cmd` for each entry: one record per running
/// process, converted to plain bytes. The process table is machine state, so
/// nothing is promised of the result.
#[verifier::external_body]
fn snapshot_processes(system: &sysinfo::System) -> Vec<ProcessRecord> {
    system
        .processes()
        .values()
        .map(
            |p| ProcessRecord {
                pid: p.pid().as_u32(),
                name: p.name().as_encoded_bytes().to_vec(),
                cmd: p.cmd().iter().map(|a| a.as_encoded_bytes().to_vec()).collect(),
            },
        )
        .collect()
}

/// Relies on `sysinfo::System::process` and `sysinfo::Process::kill_with`:
/// sends the termination signal to `pid`. `Some(true)` when the signal was
/// delivered; anything else is a delivery failure, which is logged and
/// non-fatal to the run's reported result.
#[verifier::external_body]
fn terminate_process(system: &sysinfo::System, pid: u32) -> Option<bool> {
    system
        .process(sysinfo::Pid::from_u32(pid))
        .map(|p| p.kill_with(sysinfo::Signal::Term))
        .flatten()
}

/// Enumerate the running processes and send the termination signal to
/// exactly the instances launched for this run. Returns the identifiers that
/// were selected and signaled, and the subset whose signal was not
/// delivered. The selection is the verified rule applied to some snapshot of
/// the process table; no other process is signaled.
pub fn reap_matching_processes(
    host_name: &Vec<u8>,
    program_suffix: &Vec<u8>,
    fingerprint: &Vec<u8>,
) -> (r: (Vec<u32>, Vec<u32>))
    ensures
        exists|procs: Seq<ProcessRecordView>|
            r.0@ == reap_targets(procs, host_name@, program_suffix@, fingerprint@),
        forall|j: int| 0 <= j < r.1@.len() ==> r.0@.contains(r.1@[j]),
{
    let system = new_system();
    let procs = snapshot_processes(&system);
    let targets = select_reap_targets(&procs, host_name, program_suffix, fingerprint);
    let ghost pvs = procs@.map_values(|p: ProcessRecord| p@);
    let mut failed: Vec<u32> = Vec::new();
    let mut i: usize = 0;
    while i < targets.len()
        invariant
            0 <= i <= targets@.len(),
            forall|j: int| 0 <= j < failed@.len() ==> targets@.contains(failed@[j]),
        decreases targets@.len() - i,
    {
        let delivered = terminate_process(&system, targets[i]);
        match delivered {
            Some(true) => {},
            _ => {
                failed.push(targets[i]);
            },
        }
        i = i + 1;
    }
    proof {
        assert(targets@ == reap_targets(pvs, host_name@, program_suffix@, fingerprint@));
    }
    (targets, failed)
}

} // verus!
