use run_in_roblox::reaper::{select_reap_targets, ProcessRecord};

fn record(pid: u32, name: &str, cmd: &[&str]) -> ProcessRecord {
    ProcessRecord {
        pid,
        name: name.as_bytes().to_vec(),
        cmd: cmd.iter().map(|a| a.as_bytes().to_vec()).collect(),
    }
}

fn host() -> Vec<u8> {
    b"wine".to_vec()
}

fn program() -> Vec<u8> {
    b"RobloxStudioBeta.exe".to_vec()
}

fn fingerprint() -> Vec<u8> {
    b"run-in-roblox-place".to_vec()
}

#[test]
fn only_the_instance_with_this_runs_fingerprint_is_signaled() {
    let ours = record(
        101,
        "wine64-preloader",
        &["C:\\Roblox\\RobloxStudioBeta.exe", "/tmp/abc/run-in-roblox-place.rbxl"],
    );
    let theirs = record(
        202,
        "wine64-preloader",
        &["C:\\Roblox\\RobloxStudioBeta.exe", "C:\\projects\\my-own-game.rbxl"],
    );
    let procs = vec![theirs, ours];
    let targets = select_reap_targets(&procs, &host(), &program(), &fingerprint());
    assert_eq!(targets, vec![101]);
}

#[test]
fn every_matching_instance_is_selected_in_order() {
    let a = record(7, "wine", &["studio/RobloxStudioBeta.exe", "x/run-in-roblox-place.rbxlx"]);
    let b = record(9, "wine", &["studio/RobloxStudioBeta.exe", "y/run-in-roblox-place.rbxl"]);
    let procs = vec![a, b];
    let targets = select_reap_targets(&procs, &host(), &program(), &fingerprint());
    assert_eq!(targets, vec![7, 9]);
}

#[test]
fn a_process_with_too_few_arguments_is_skipped() {
    let bare = record(11, "wine", &["RobloxStudioBeta.exe"]);
    let procs = vec![bare];
    let targets = select_reap_targets(&procs, &host(), &program(), &fingerprint());
    assert!(targets.is_empty());
}

#[test]
fn an_unrelated_host_process_is_skipped() {
    let other = record(
        12,
        "bash",
        &["things/RobloxStudioBeta.exe", "z/run-in-roblox-place.rbxl"],
    );
    let procs = vec![other];
    let targets = select_reap_targets(&procs, &host(), &program(), &fingerprint());
    assert!(targets.is_empty());
}

#[test]
fn the_program_name_must_end_the_first_argument() {
    let renamed = record(
        13,
        "wine",
        &["studio/RobloxStudioBeta.exe.backup", "z/run-in-roblox-place.rbxl"],
    );
    let procs = vec![renamed];
    let targets = select_reap_targets(&procs, &host(), &program(), &fingerprint());
    assert!(targets.is_empty());
}

#[test]
fn an_empty_process_list_selects_nothing() {
    let procs: Vec<ProcessRecord> = Vec::new();
    let targets = select_reap_targets(&procs, &host(), &program(), &fingerprint());
    assert!(targets.is_empty());
}
