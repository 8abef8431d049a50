use encircled::watch::{
    check_connect_response, check_watch_credentials, check_watcher_status_response,
    choose_watch_path, connect_failure_message, debouncer_failure_event, default_save_folder,
    dialog_start, find_deep_link, heartbeat_due, heartbeat_response_event, is_candidate_save_file,
    is_safe_watch_path, safe_watch_path_verdict, is_valid_api_key_format, is_valid_uuid_format, resolve_api_base_url,
    select_startup_save, should_announce_disconnect, stop_watching_message, watch_failure_event,
    watcher_crash_event, watcher_registration_failure_message, watching_tooltip, DialogStart,
    SaveFolderLocation, WatchPathChoice, WatcherControl, WatcherSession,
};

#[test]
fn test_get_api_base_url_default_in_debug() {
    let url = resolve_api_base_url(None, true);
    assert_eq!(url, "http://localhost:5292");
}

#[test]
fn test_get_api_base_url_env_override() {
    let url = resolve_api_base_url(Some("https://custom.api.encircledmp.com/"), true);
    assert_eq!(url, "https://custom.api.encircledmp.com");
}

#[test]
fn api_base_url_release_and_blank_override() {
    assert_eq!(resolve_api_base_url(None, false), "https://api.encircledmp.com");
    assert_eq!(resolve_api_base_url(Some("  ///  "), false), "https://api.encircledmp.com");
    assert_eq!(resolve_api_base_url(Some(" http://x:1// "), false), "http://x:1");
    // Trimming happens before the slashes are stripped.
    assert_eq!(resolve_api_base_url(Some("http://x/ \n"), true), "http://x");
    assert_eq!(resolve_api_base_url(Some("http://x/ a/ "), true), "http://x/ a");
}

#[test]
fn test_uuid_validation() {
    assert!(is_valid_uuid_format("12345678-1234-1234-1234-123456789abc"));
    assert!(!is_valid_uuid_format("invalid-uuid"));
    assert!(!is_valid_uuid_format("12345678-1234-1234-1234-123456789abg"));
}

#[test]
fn uuid_edge_cases() {
    assert!(is_valid_uuid_format("ABCDEF01-ABCD-ABCD-ABCD-ABCDEF012345"));
    assert!(!is_valid_uuid_format("12345678a1234-1234-1234-123456789abc"));
    assert!(!is_valid_uuid_format("12345678-1234-1234-1234-123456789abcd"));
    // 36 bytes but with a two-byte character in place of two digits.
    assert!(!is_valid_uuid_format("12345678-1234-1234-1234-123456789aé"));
}

#[test]
fn test_api_key_validation() {
    assert!(is_valid_api_key_format("my-valid_key-123"));
    assert!(!is_valid_api_key_format(""));
    assert!(!is_valid_api_key_format("key with spaces"));
}

#[test]
fn api_key_length_limit() {
    let ok = "a".repeat(128);
    let long = "a".repeat(129);
    assert!(is_valid_api_key_format(&ok));
    assert!(!is_valid_api_key_format(&long));
    assert!(!is_valid_api_key_format("ключ"));
}

#[test]
fn test_safe_watch_path() {
    assert!(is_safe_watch_path("C:\\Users\\user\\Documents"));
    assert!(!is_safe_watch_path("C:\\"));
    assert!(!is_safe_watch_path("/"));
    assert!(!is_safe_watch_path("../escape"));
    // UNC paths must be blocked
    assert!(!is_safe_watch_path(r"\\evil-server\share"));
    assert!(!is_safe_watch_path("//evil-server/share"));
}

#[test]
fn safe_watch_path_more_cases() {
    assert!(!is_safe_watch_path(""));
    assert!(!is_safe_watch_path("a\0b"));
    assert!(!is_safe_watch_path(&"a".repeat(513)));
    assert!(is_safe_watch_path(&"a".repeat(512)));
    assert!(!is_safe_watch_path("D:/"));
    assert!(is_safe_watch_path("/home/player/saves"));
}

#[test]
fn credentials_checks() {
    let id = "12345678-1234-1234-1234-123456789abc";
    assert!(check_watch_credentials(id, None).is_ok());
    assert!(check_watch_credentials(id, Some("key_1")).is_ok());
    assert_eq!(
        check_watch_credentials("nope", Some("key_1")).unwrap_err(),
        "Invalid session_id: Must be a valid UUID"
    );
    assert_eq!(
        check_watch_credentials(id, Some("bad key")).unwrap_err(),
        "Invalid api_key: Malformed characters or length exceeded"
    );
}

#[test]
fn watch_path_choice() {
    assert!(matches!(choose_watch_path(None), Ok(WatchPathChoice::DefaultSaveFolder)));
    assert!(matches!(choose_watch_path(Some("")), Ok(WatchPathChoice::DefaultSaveFolder)));
    match choose_watch_path(Some("/home/p/saves")) {
        Ok(WatchPathChoice::Folder(f)) => assert_eq!(f, "/home/p/saves"),
        _ => panic!("expected the given folder"),
    }
    match choose_watch_path(Some("../x")) {
        Err(e) => assert_eq!(e, "Invalid or unsafe directory path specified"),
        _ => panic!("expected a refusal"),
    }
    // A root followed by `.` components is still the root, on every platform.
    for root in ["/", "/.", "/./", "C:/.", "D:/./.", "C:\\", "D:/"] {
        match choose_watch_path(Some(root)) {
            Err(e) => assert_eq!(e, "Invalid or unsafe directory path specified"),
            _ => panic!("expected {} to be refused", root),
        }
    }
    match choose_watch_path(Some("C:\\Users\\user\\Documents")) {
        Ok(WatchPathChoice::Folder(f)) => assert_eq!(f, "C:\\Users\\user\\Documents"),
        _ => panic!("expected the given folder"),
    }
}

#[test]
fn connect_response_errors() {
    assert!(check_connect_response(200, "200 OK", "").is_ok());
    assert!(check_connect_response(204, "204 No Content", "").is_ok());
    assert_eq!(
        check_connect_response(401, "401 Unauthorized", "x").unwrap_err(),
        "Unauthorized: Invalid or missing Companion Key. Please copy the full pairing key from the website."
    );
    assert_eq!(
        check_connect_response(404, "404 Not Found", "x").unwrap_err(),
        "Lobby not found. Please verify the Match ID / UUID."
    );
    assert_eq!(
        check_connect_response(500, "500 Internal Server Error", "boom").unwrap_err(),
        "Server rejected desktop connection (HTTP 500 Internal Server Error): boom"
    );
    assert!(check_watcher_status_response(201, "201 Created", "").is_ok());
    assert_eq!(
        check_watcher_status_response(403, "403 Forbidden", "no").unwrap_err(),
        "Failed to activate watcher on server (HTTP 403 Forbidden): no"
    );
    assert_eq!(
        connect_failure_message("http://localhost:5292", "timed out"),
        "Network connection failed: could not reach Encircled server at http://localhost:5292. (timed out)"
    );
    assert_eq!(
        watcher_registration_failure_message("reset"),
        "Failed to register watcher status with server: reset"
    );
}

#[test]
fn candidate_save_files() {
    assert!(is_candidate_save_file("autosave.hoi4"));
    assert!(is_candidate_save_file("Germany_1939.hoi4"));
    assert!(!is_candidate_save_file("autosave.HOI4"));
    assert!(!is_candidate_save_file(".hoi4"));
    assert!(is_candidate_save_file("a.hoi4"));
    assert!(!is_candidate_save_file("TEMP_save.hoi4"));
    assert!(!is_candidate_save_file("mytemp.hoi4"));
    assert!(!is_candidate_save_file("save.hoi4.tmp"));
    assert!(!is_candidate_save_file("save.txt"));
}

#[test]
fn startup_save_selection() {
    let day: u128 = 86_400_000_000_000;
    let now: u128 = 10 * day;
    assert_eq!(select_startup_save(&vec![], now), None);
    assert_eq!(select_startup_save(&vec![now - 5, now - 1, now - 3], now), Some(1));
    // Ties: the first of the newest.
    assert_eq!(select_startup_save(&vec![now - 2, now - 1, now - 1], now), Some(1));
    // Too old.
    assert_eq!(select_startup_save(&vec![now - day, now - 2 * day], now), None);
    assert_eq!(select_startup_save(&vec![now - day + 1], now), Some(0));
    // Modified in the future.
    assert_eq!(select_startup_save(&vec![now + 1], now), None);
}

#[test]
fn tooltip_texts() {
    assert_eq!(
        watching_tooltip("12345678-1234-1234-1234-123456789abc"),
        "Encircled Desktop · Watching (Lobby: 12345678)"
    );
    assert_eq!(watching_tooltip("abc"), "Encircled Desktop · Watching (Lobby: abc)");
    assert_eq!(stop_watching_message(true), "Watcher stopped");
    assert_eq!(stop_watching_message(false), "No active watcher was running");
}

#[test]
fn deep_link_arguments() {
    let args: Vec<String> = vec![
        "app.exe".into(),
        "encircled-desktop://join/1".into(),
        "encircled://join/2".into(),
    ];
    assert_eq!(find_deep_link(&args), Some(1));
    let args: Vec<String> = vec!["app.exe".into(), "https://encircledmp.com".into()];
    assert_eq!(find_deep_link(&args), None);
}

#[test]
fn watcher_session_and_heartbeat() {
    let mut w = WatcherSession::new();
    assert_eq!(w.next_sequence(), 1);
    assert_eq!(w.next_sequence(), 2);
    assert_eq!(w.try_next_sequence(), Some(3));
    let mut full = WatcherSession { sequence_index: u32::MAX };
    assert_eq!(full.try_next_sequence(), None);
    assert_eq!(full.sequence_index, u32::MAX);
    assert!(!heartbeat_due(4_999_999_999));
    assert!(heartbeat_due(5_000_000_000));
    assert!(should_announce_disconnect(3, 3));
    assert!(!should_announce_disconnect(4, 3));
    assert!(heartbeat_response_event(200).is_none());
    let e = heartbeat_response_event(401).unwrap();
    assert_eq!(e.file_name, "Heartbeat");
    assert_eq!(e.file_hash, "AUTH_LOST");
    assert_eq!(e.status, "ERROR: Heartbeat rejected (Unauthorized companion key)");
    assert!(!e.verified && !e.has_debug_flag && e.timestamp.is_empty());
}

#[test]
fn watcher_error_events() {
    let e = debouncer_failure_event("no inotify");
    assert_eq!(e.file_name, "Watcher");
    assert_eq!(e.status, "ERROR: Debouncer initialization failed (no inotify)");
    let e = watch_failure_event("denied");
    assert_eq!(e.file_hash, "N/A");
    assert_eq!(e.status, "ERROR: Failed to watch path (denied)");
    let e = watcher_crash_event();
    assert_eq!(e.file_name, "Watcher Thread");
    assert_eq!(e.file_hash, "CRASH");
}

#[test]
fn folder_picker_start() {
    assert!(matches!(dialog_start(None), DialogStart::DefaultSaveFolder));
    assert!(matches!(dialog_start(Some("")), DialogStart::SystemDefault));
    match dialog_start(Some("/x")) {
        DialogStart::Given(p) => assert_eq!(p, "/x"),
        _ => panic!("expected the given folder"),
    }
}

#[test]
fn safe_watch_path_given_root_verdict() {
    assert!(safe_watch_path_verdict("/home/p", false));
    assert!(!safe_watch_path_verdict("/home/p", true));
    assert!(!safe_watch_path_verdict("/home/../p", false));
}

#[test]
fn default_save_folder_prefers_documents_then_onedrive() {
    assert!(matches!(default_save_folder(true, true, true), Ok(SaveFolderLocation::Documents)));
    assert!(matches!(default_save_folder(true, true, false), Ok(SaveFolderLocation::Documents)));
    assert!(matches!(
        default_save_folder(true, false, true),
        Ok(SaveFolderLocation::OneDriveDocuments)
    ));
    // Neither exists: the Documents location is still the answer.
    assert!(matches!(default_save_folder(true, false, false), Ok(SaveFolderLocation::Documents)));
    match default_save_folder(false, false, true) {
        Err(e) => assert_eq!(e, "Could not determine Documents directory"),
        Ok(_) => panic!("no Documents folder must be an error"),
    }
}

#[test]
fn watcher_control_generations() {
    let mut c = WatcherControl::new();
    assert_eq!(c.begin_start(), (1, false));
    c.watcher_started();
    assert!(c.announce_disconnect(1));
    // A second start stops the first watcher and silences its disconnect.
    assert_eq!(c.begin_start(), (2, true));
    assert!(!c.announce_disconnect(1));
    assert!(c.announce_disconnect(2));
    c.watcher_started();
    assert!(c.stop());
    assert!(!c.stop());
    assert!(c.announce_disconnect(2));
    let mut w = WatcherControl { generation: u64::MAX, running: false };
    assert_eq!(w.begin_start(), (0, false));
}
