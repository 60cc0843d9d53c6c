//! The process reaper: after a run, find the one application instance that
//! was launched for this run — by executable name and the workspace-path
//! fingerprint embedded in its invocation arguments — and terminate it,
//! leaving unrelated instances of the same application alone.
//!
//! The selection rule is pure logic over process records; only enumerating
//! the system's processes and delivering the termination signal go through
//! the trusted boundary.

use vstd::prelude::*;

use crate::bytes::{contains_bytes, contains_bytes_exec, ends_with_bytes, ends_with_exec};

verus! {

/// What the reaper reads of one running process: its identifier, its
/// executable name, and its invocation arguments.
#[derive(Clone, Debug)]
pub struct ProcessRecord {
    pub pid: u32,
    pub name: Vec<u8>,
    pub cmd: Vec<Vec<u8>>,
}

/// Mathematical model of a [`ProcessRecord`].
pub struct ProcessRecordView {
    pub pid: u32,
    pub name: Seq<u8>,
    pub cmd: Seq<Seq<u8>>,
}

impl View for ProcessRecord {
    type V = ProcessRecordView;

    open spec fn view(&self) -> ProcessRecordView {
        ProcessRecordView {
            pid: self.pid,
            name: self.name@,
            cmd: self.cmd@.map_values(|a: Vec<u8>| a@),
        }
    }
}

/// Whether a process is the instance launched for this run: its name
/// mentions the host executable, its program argument names the target
/// application, and its second argument carries this run's workspace
/// fingerprint.
pub open spec fn is_reap_target(
    p: ProcessRecordView,
    host_name: Seq<u8>,
    program_suffix: Seq<u8>,
    fingerprint: Seq<u8>,
) -> bool {
    &&& contains_bytes(p.name, host_name)
    &&& p.cmd.len() >= 2
    &&& ends_with_bytes(p.cmd[0], program_suffix)
    &&& contains_bytes(p.cmd[1], fingerprint)
}

/// The identifiers of the matching processes, in order.
pub open spec fn reap_targets(
    procs: Seq<ProcessRecordView>,
    host_name: Seq<u8>,
    program_suffix: Seq<u8>,
    fingerprint: Seq<u8>,
) -> Seq<u32>
    decreases procs.len(),
{
    if procs.len() == 0 {
        Seq::empty()
    } else {
        let rest = reap_targets(procs.drop_last(), host_name, program_suffix, fingerprint);
        if is_reap_target(procs.last(), host_name, program_suffix, fingerprint) {
            rest.push(procs.last().pid)
        } else {
            rest
        }
    }
}

/// Exactly the identifiers of matching processes are selected: one matching
/// instance is picked and a non-matching instance of the same executable
/// name — a different fingerprint, say — is not.
pub proof fn lemma_reap_targets_exact(
    procs: Seq<ProcessRecordView>,
    host_name: Seq<u8>,
    program_suffix: Seq<u8>,
    fingerprint: Seq<u8>,
)
    ensures
        forall|i: int|
            0 <= i < procs.len() && is_reap_target(
                #[trigger] procs[i],
                host_name,
                program_suffix,
                fingerprint,
            ) ==> reap_targets(procs, host_name, program_suffix, fingerprint).contains(
                procs[i].pid,
            ),
        forall|pid: u32|
            #[trigger] reap_targets(procs, host_name, program_suffix, fingerprint).contains(pid)
                ==> exists|i: int|
                0 <= i < procs.len() && #[trigger] procs[i].pid == pid && is_reap_target(
                    procs[i],
                    host_name,
                    program_suffix,
                    fingerprint,
                ),
    decreases procs.len(),
{
    if procs.len() > 0 {
        lemma_reap_targets_exact(procs.drop_last(), host_name, program_suffix, fingerprint);
        let rest = reap_targets(procs.drop_last(), host_name, program_suffix, fingerprint);
        let whole = reap_targets(procs, host_name, program_suffix, fingerprint);
        assert(forall|i: int| 0 <= i < procs.len() - 1 ==> procs[i] == procs.drop_last()[i]);
        assert forall|i: int|
            0 <= i < procs.len() && is_reap_target(
                #[trigger] procs[i],
                host_name,
                program_suffix,
                fingerprint,
            ) implies whole.contains(procs[i].pid) by {
            if i < procs.len() - 1 {
                assert(rest.contains(procs[i].pid));
                let j = choose|j: int| 0 <= j < rest.len() && rest[j] == procs[i].pid;
                assert(whole[j] == procs[i].pid);
            } else {
                assert(whole.last() == procs[i].pid);
            }
        }
        assert forall|pid: u32| #[trigger] whole.contains(pid) implies exists|i: int|
            0 <= i < procs.len() && #[trigger] procs[i].pid == pid && is_reap_target(
                procs[i],
                host_name,
                program_suffix,
                fingerprint,
            ) by {
            let j = choose|j: int| 0 <= j < whole.len() && whole[j] == pid;
            if j < rest.len() {
                assert(rest[j] == pid);
                assert(rest.contains(pid));
                let i = choose|i: int|
                    0 <= i < procs.drop_last().len() && #[trigger] procs.drop_last()[i].pid == pid
                        && is_reap_target(
                        procs.drop_last()[i],
                        host_name,
                        program_suffix,
                        fingerprint,
                    );
                assert(procs[i].pid == pid && is_reap_target(
                    procs[i],
                    host_name,
                    program_suffix,
                    fingerprint,
                ));
            } else {
                assert(is_reap_target(procs.last(), host_name, program_suffix, fingerprint));
                assert(procs[procs.len() - 1].pid == pid);
            }
        }
    }
}

fn is_reap_target_exec(
    p: &ProcessRecord,
    host_name: &Vec<u8>,
    program_suffix: &Vec<u8>,
    fingerprint: &Vec<u8>,
) -> (r: bool)
    ensures
        r == is_reap_target(p@, host_name@, program_suffix@, fingerprint@),
{
    if !contains_bytes_exec(&p.name, host_name) {
        return false;
    }
    if p.cmd.len() <= 1 {
        return false;
    }
    let first = &p.cmd[0];
    let second = &p.cmd[1];
    proof {
        assert(p@.cmd[0] == p.cmd@[0]@);
        assert(p@.cmd[1] == p.cmd@[1]@);
    }
    if !ends_with_exec(first, program_suffix) {
        return false;
    }
    contains_bytes_exec(second, fingerprint)
}

/// Select, from a process list, exactly the instances launched for this run:
/// name mentions the host executable, program argument ends with the target
/// application's name, second argument carries the workspace fingerprint.
pub fn select_reap_targets(
    procs: &Vec<ProcessRecord>,
    host_name: &Vec<u8>,
    program_suffix: &Vec<u8>,
    fingerprint: &Vec<u8>,
) -> (r: Vec<u32>)
    ensures
        r@ == reap_targets(
            procs@.map_values(|p: ProcessRecord| p@),
            host_name@,
            program_suffix@,
            fingerprint@,
        ),
{
    let ghost pvs = procs@.map_values(|p: ProcessRecord| p@);
    let mut r: Vec<u32> = Vec::new();
    let mut i: usize = 0;
    while i < procs.len()
        invariant
            0 <= i <= procs@.len(),
            pvs == procs@.map_values(|p: ProcessRecord| p@),
            pvs.len() == procs@.len(),
            r@ == reap_targets(pvs.take(i as int), host_name@, program_suffix@, fingerprint@),
        decreases procs@.len() - i,
    {
        let p = &procs[i];
        proof {
            assert(pvs.take(i + 1).drop_last() =~= pvs.take(i as int));
            assert(pvs.take(i + 1).last() == pvs[i as int]);
            assert(pvs[i as int] == procs@[i as int]@);
        }
        if is_reap_target_exec(p, host_name, program_suffix, fingerprint) {
            r.push(p.pid);
        }
        i = i + 1;
    }
    proof {
        assert(pvs.take(procs@.len() as int) =~= pvs);
    }
    r
}

} // verus!
