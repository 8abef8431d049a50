use encircled::process::{
    get_cached_hoi4_process_status, is_hoi4_process_name, parse_has_debug_flag,
    scan_hoi4_processes, update_cached_hoi4_process_status, ProcessPoller, ProcessSnapshot,
    ProcessStatusCache,
};

#[test]
fn test_is_hoi4_process_name() {
    assert!(is_hoi4_process_name("hoi4.exe"));
    assert!(is_hoi4_process_name("HOI4.EXE"));
    assert!(is_hoi4_process_name("hoi4"));
    assert!(is_hoi4_process_name("  hoi4.exe  "));

    // Reject partial matches or tool names
    assert!(!is_hoi4_process_name("hoi4_mod_tool.exe"));
    assert!(!is_hoi4_process_name("hoi4-save-monitor.exe"));
    assert!(!is_hoi4_process_name("encircled.exe"));
    assert!(!is_hoi4_process_name("launcher.exe"));
}

#[test]
fn test_parse_has_debug_flag() {
    assert!(parse_has_debug_flag(&["-debug"]));
    assert!(parse_has_debug_flag(&["--debug"]));
    assert!(parse_has_debug_flag(&["--other", "-debug", "--ui"]));
    assert!(parse_has_debug_flag(&["  -debug  "]));

    // Reject non-exact or substring matches
    assert!(!parse_has_debug_flag(&["-debugger"]));
    assert!(!parse_has_debug_flag(&["--crash-debug-reporter"]));
    assert!(!parse_has_debug_flag(&["debug"]));
    assert!(!parse_has_debug_flag(&[] as &[&str]));
}

#[test]
fn process_name_trims_unicode_white_space() {
    assert!(is_hoi4_process_name("\u{3000}Hoi4.Exe\t"));
    assert!(is_hoi4_process_name("\u{a0}HOI4\n"));
    assert!(!is_hoi4_process_name("hoi4 .exe"));
    assert!(!is_hoi4_process_name(""));
}

#[test]
fn debug_flag_case_insensitive() {
    assert!(parse_has_debug_flag(&["-DEBUG"]));
    assert!(parse_has_debug_flag(&["--Debug\r\n"]));
    assert!(!parse_has_debug_flag(&["---debug"]));
}

#[test]
fn cache_reads_last_update() {
    let mut cache = ProcessStatusCache::new();
    assert_eq!(get_cached_hoi4_process_status(&cache), (false, false));
    update_cached_hoi4_process_status(&mut cache, true, false);
    assert_eq!(get_cached_hoi4_process_status(&cache), (true, false));
    update_cached_hoi4_process_status(&mut cache, true, true);
    assert_eq!(get_cached_hoi4_process_status(&cache), (true, true));
}

fn snapshot(name: &str, cmd: &[&str]) -> ProcessSnapshot {
    ProcessSnapshot {
        name: name.to_string(),
        cmd: cmd.iter().map(|s| s.to_string()).collect(),
    }
}

#[test]
fn scan_finds_game_and_debug_flag() {
    let mut cache = ProcessStatusCache::new();
    let procs = vec![
        snapshot("explorer.exe", &["-debug"]),
        snapshot("hoi4.exe", &["hoi4.exe", "-debug"]),
    ];
    assert_eq!(scan_hoi4_processes(&mut cache, &procs), (true, true));
    assert_eq!(get_cached_hoi4_process_status(&cache), (true, true));

    // A debug flag on another process does not count.
    let procs = vec![snapshot("hoi4.exe", &["hoi4.exe"]), snapshot("tool.exe", &["--debug"])];
    assert_eq!(scan_hoi4_processes(&mut cache, &procs), (true, false));
    assert_eq!(get_cached_hoi4_process_status(&cache), (true, false));

    let procs: Vec<ProcessSnapshot> = vec![snapshot("steam.exe", &[])];
    assert_eq!(scan_hoi4_processes(&mut cache, &procs), (false, false));
}

#[test]
fn poller_reports_changes_and_heartbeats() {
    let mut p = ProcessPoller::new();
    // First observation is a change.
    let d = p.observe((false, false));
    assert!(d.emit && d.state_changed);
    // Ticks 2, 3, 4: nothing new.
    for _ in 0..3 {
        let d = p.observe((false, false));
        assert!(!d.emit && !d.state_changed);
    }
    // Tick 5: heartbeat.
    let d = p.observe((false, false));
    assert!(d.emit && !d.state_changed);
    // A change at tick 6 is reported at once.
    let d = p.observe((true, false));
    assert!(d.emit && d.state_changed);
    assert_eq!(p.last_state, Some((true, false)));
}

#[test]
fn poller_counter_wraps() {
    let mut p = ProcessPoller { last_state: Some((false, false)), tick_count: u32::MAX };
    let d = p.observe((false, false));
    assert_eq!(p.tick_count, 0);
    assert!(d.emit); // 0 is a multiple of five
}
