//! The process launcher's decision core: the immutable run configuration and
//! the invocation built from it. Spawning the process is an operating-system
//! side effect and stays outside; everything the invocation must carry — and
//! the argument layout the reaper's fingerprinting relies on — is fixed here.

use vstd::prelude::*;

use crate::bytes::contains_bytes;
use crate::reaper::{is_reap_target, ProcessRecordView};

verus! {

/// The immutable per-run configuration, created once before launch and
/// shared read-only by the launcher and the bridge server.
#[derive(Clone, Debug)]
pub struct RunConfig {
    /// The bridge listener's port.
    pub port: u16,
    /// Path of the prepared, disposable workspace copy.
    pub place_path: Vec<u8>,
    /// This run's session token.
    pub server_id: Vec<u8>,
    /// The script source to run inside the application.
    pub lua_script: Vec<u8>,
}

/// Mathematical model of a [`RunConfig`].
pub struct RunConfigView {
    pub port: u16,
    pub place_path: Seq<u8>,
    pub server_id: Seq<u8>,
    pub lua_script: Seq<u8>,
}

impl View for RunConfig {
    type V = RunConfigView;

    open spec fn view(&self) -> RunConfigView {
        RunConfigView {
            port: self.port,
            place_path: self.place_path@,
            server_id: self.server_id@,
            lua_script: self.lua_script@,
        }
    }
}

/// The ASCII decimal digits of `n`, most significant first, no leading
/// zeros.
pub open spec fn dec_bytes(n: u64) -> Seq<u8>
    decreases n,
    via dec_bytes_decreases
{
    if n < 10 {
        seq![(48 + n) as u8]
    } else {
        dec_bytes(n / 10).push((48 + n % 10) as u8)
    }
}

#[via_fn]
proof fn dec_bytes_decreases(n: u64) {
    if n >= 10 {
        vstd::arithmetic::div_mod::lemma_div_decreases(n as int, 10);
    }
}

/// Render `n` in decimal.
pub fn render_decimal(n: u64) -> (r: Vec<u8>)
    ensures
        r@ == dec_bytes(n),
    decreases n,
{
    if n < 10 {
        let mut v: Vec<u8> = Vec::new();
        v.push(48 + (n as u8));
        proof {
            assert(v@ =~= dec_bytes(n));
        }
        v
    } else {
        proof {
            vstd::arithmetic::div_mod::lemma_div_decreases(n as int, 10);
        }
        let mut v = render_decimal(n / 10);
        v.push(48 + ((n % 10) as u8));
        v
    }
}

/// The invocation of the target application for this run: the program, then
/// the workspace path, then the listener port, then the session token, then
/// the script source. Everything the launched application needs travels in
/// its arguments. The workspace path stands second — that position is what
/// the reaper's fingerprinting inspects, so it must stay stable.
pub open spec fn launch_invocation(program: Seq<u8>, cfg: RunConfigView) -> Seq<Seq<u8>> {
    seq![program, cfg.place_path, dec_bytes(cfg.port as u64), cfg.server_id, cfg.lua_script]
}

/// Build the invocation for this run.
pub fn build_launch_invocation(program: &Vec<u8>, cfg: &RunConfig) -> (r: Vec<Vec<u8>>)
    ensures
        r@.map_values(|a: Vec<u8>| a@) == launch_invocation(program@, cfg@),
{
    let mut r: Vec<Vec<u8>> = Vec::new();
    r.push(program.clone());
    r.push(cfg.place_path.clone());
    r.push(render_decimal(cfg.port as u64));
    r.push(cfg.server_id.clone());
    r.push(cfg.lua_script.clone());
    proof {
        assert(r@.map_values(|a: Vec<u8>| a@) =~= launch_invocation(program@, cfg@));
    }
    r
}

/// The launched instance is found again by the reaper: a process whose name
/// mentions the host executable and whose arguments are this invocation is a
/// reap target, provided the program ends with the application's name and
/// the workspace path carries the fingerprint.
pub proof fn lemma_invocation_is_reap_target(
    p: ProcessRecordView,
    program: Seq<u8>,
    cfg: RunConfigView,
    host_name: Seq<u8>,
    program_suffix: Seq<u8>,
    fingerprint: Seq<u8>,
)
    requires
        p.cmd == launch_invocation(program, cfg),
        contains_bytes(p.name, host_name),
        crate::bytes::ends_with_bytes(program, program_suffix),
        contains_bytes(cfg.place_path, fingerprint),
    ensures
        is_reap_target(p, host_name, program_suffix, fingerprint),
{
}

} // verus!
