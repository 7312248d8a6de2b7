use amongus_base::state::{
    app_directories, cache_entry_dir, cache_needs_copy, cache_root_dir, combine_messages,
    complete_base_game_setup, get_among_us_path_from_store, initialize_store_if_needed,
    needs_discovery, setup_base_game_source, sync_base_game_cache, sync_skip, synced_outcome,
    update_among_us_path, CacheOutcome, RegistryRecord,
};
use amongus_base::text::{contains_text, field_before_comma, is_space, join_path, same_text, trim_matching};

fn record(initialized: bool, path: Option<&str>, setup: bool) -> RegistryRecord {
    RegistryRecord {
        initialized,
        amongus_path: path.map(|p| p.to_string()),
        base_game_setup: setup,
    }
}

fn fields(r: &RegistryRecord) -> (bool, Option<String>, bool) {
    (r.initialized, r.amongus_path.clone(), r.base_game_setup)
}

#[test]
fn fresh_start_initializes_with_no_path() {
    let mut rec = RegistryRecord::new();
    assert!(needs_discovery(&rec));
    let (dirty, msg) = initialize_store_if_needed(&mut rec, None);
    assert!(dirty);
    assert!(msg.contains("Initialized"));
    assert_eq!(msg, "Initialized. Among Us: None");
    assert_eq!(fields(&rec), (true, None, false));
    let (sync_dirty, sync_msg) = sync_base_game_cache(&mut rec, CacheOutcome::NoPath);
    assert!(!sync_dirty);
    assert_eq!(sync_msg, None);
    assert_eq!(combine_messages(msg, sync_msg), "Initialized. Among Us: None");
}

#[test]
fn bootstrap_records_discovered_path() {
    let mut rec = RegistryRecord::new();
    let (dirty, msg) = initialize_store_if_needed(&mut rec, Some("C:\\Games\\Among Us".to_string()));
    assert!(dirty);
    assert_eq!(msg, "Initialized. Among Us: Some(\"C:\\\\Games\\\\Among Us\")");
    assert_eq!(fields(&rec), (true, Some("C:\\Games\\Among Us".to_string()), false));
}

#[test]
fn bootstrap_keeps_known_path() {
    let mut rec = record(false, Some("/known"), true);
    assert!(!needs_discovery(&rec));
    let (dirty, _) = initialize_store_if_needed(&mut rec, Some("/other".to_string()));
    assert!(dirty);
    assert_eq!(fields(&rec), (true, Some("/known".to_string()), false));
}

#[test]
fn initialized_record_is_left_alone() {
    let mut rec = record(true, Some("/games/AmongUs"), true);
    assert!(!needs_discovery(&rec));
    let (dirty, msg) = initialize_store_if_needed(&mut rec, None);
    assert!(!dirty);
    assert_eq!(msg, "");
    assert_eq!(fields(&rec), (true, Some("/games/AmongUs".to_string()), true));
}

#[test]
fn first_sync_caches_version() {
    let mut rec = record(true, Some("/games/AmongUs"), false);
    assert!(cache_needs_copy(&vec![], "2023.6.13"));
    assert_eq!(cache_entry_dir("/data", "2023.6.13"), "/data/global/amongus_base/2023.6.13");
    let outcome = CacheOutcome::Synced { version: "2023.6.13".to_string(), copied: true };
    let (dirty, msg) = sync_base_game_cache(&mut rec, outcome);
    assert!(dirty);
    assert_eq!(msg, Some("Cached base game v2023.6.13".to_string()));
    assert!(rec.base_game_setup);
    assert_eq!(combine_messages(String::new(), msg), "Cached base game v2023.6.13");
}

#[test]
fn second_sync_copies_nothing() {
    let entries = vec!["2023.6.13".to_string()];
    assert!(!cache_needs_copy(&entries, "2023.6.13"));
    let mut rec = record(true, Some("/games/AmongUs"), true);
    let outcome = CacheOutcome::Synced { version: "2023.6.13".to_string(), copied: false };
    let (dirty, msg) = sync_base_game_cache(&mut rec, outcome);
    assert!(!dirty);
    assert_eq!(msg, None);
    assert_eq!(fields(&rec), (true, Some("/games/AmongUs".to_string()), true));
}

#[test]
fn uncached_flag_is_set_without_copy() {
    let mut rec = record(true, Some("/games/AmongUs"), false);
    let outcome = CacheOutcome::Synced { version: "2024.1.1".to_string(), copied: false };
    let (dirty, msg) = sync_base_game_cache(&mut rec, outcome);
    assert!(dirty);
    assert_eq!(msg, None);
    assert!(rec.base_game_setup);
}

#[test]
fn missing_source_changes_nothing() {
    let mut rec = record(true, Some("/gone"), false);
    let (dirty, msg) = sync_base_game_cache(&mut rec, CacheOutcome::SourceMissing);
    assert!(!dirty);
    assert_eq!(msg, None);
    assert_eq!(fields(&rec), (true, Some("/gone".to_string()), false));
}

#[test]
fn different_versions_get_different_entries() {
    let a = cache_entry_dir("/data", "2023.6.13");
    let b = cache_entry_dir("/data", "2024.3.5");
    assert_ne!(a, b);
    assert_eq!(b, "/data/global/amongus_base/2024.3.5");
    let entries = vec!["2023.6.13".to_string()];
    assert!(cache_needs_copy(&entries, "2024.3.5"));
    assert_eq!(cache_root_dir("/data/"), "/data/global/amongus_base");
}

#[test]
fn unchanged_record_is_not_saved() {
    let mut rec = record(true, Some("/games/AmongUs"), true);
    let (d1, _) = initialize_store_if_needed(&mut rec, None);
    let outcome = CacheOutcome::Synced { version: "2023.6.13".to_string(), copied: true };
    let (d2, msg) = sync_base_game_cache(&mut rec, outcome);
    assert!(!(d1 || d2));
    assert!(msg.is_some());
}

#[test]
fn update_with_missing_path_fails() {
    let mut rec = record(true, Some("/games/AmongUs"), true);
    let r = update_among_us_path(&mut rec, "/nope".to_string(), false);
    assert_eq!(r, Err("Path does not exist: /nope".to_string()));
    assert!(r.unwrap_err().contains("Path does not exist"));
    assert_eq!(fields(&rec), (true, Some("/games/AmongUs".to_string()), true));
}

#[test]
fn update_with_existing_path_resets_cache_flag() {
    let mut rec = record(true, Some("/games/AmongUs"), true);
    assert_eq!(update_among_us_path(&mut rec, "/new".to_string(), true), Ok(()));
    assert_eq!(fields(&rec), (true, Some("/new".to_string()), false));
    assert_eq!(get_among_us_path_from_store(&rec), Some("/new".to_string()));
}

#[test]
fn forced_setup_refused_when_done() {
    let rec = record(true, Some("/games/AmongUs"), true);
    assert_eq!(setup_base_game_source(&rec, true), Err("Base game already set up".to_string()));
}

#[test]
fn forced_setup_errors() {
    let rec = record(true, None, false);
    assert_eq!(
        setup_base_game_source(&rec, false),
        Err("Among Us path not found in registry".to_string())
    );
    let rec = record(true, Some("/gone"), false);
    assert_eq!(setup_base_game_source(&rec, false), Err("Among Us not found at: /gone".to_string()));
}

#[test]
fn forced_setup_runs() {
    let mut rec = record(true, Some("/games/AmongUs"), false);
    assert_eq!(setup_base_game_source(&rec, true), Ok("/games/AmongUs".to_string()));
    let msg = complete_base_game_setup(&mut rec, "2023.6.13");
    assert_eq!(msg, "Base game v2023.6.13 setup complete");
    assert!(rec.base_game_setup);
}

#[test]
fn messages_join() {
    assert_eq!(combine_messages(String::new(), Some("b".to_string())), "b");
    assert_eq!(combine_messages("a".to_string(), None), "a");
    assert_eq!(combine_messages(String::new(), None), "");
}

#[test]
fn app_directories_listed() {
    assert_eq!(app_directories(), vec!["profiles", "global/amongus_base", "global/userdata_base"]);
}

#[test]
fn text_helpers() {
    assert_eq!(trim_matching(" \u{3000}\tab c\n", false), "ab c");
    assert_eq!(trim_matching("\"'x'\"", true), "x");
    assert_eq!(field_before_comma("a,b,c"), "a");
    assert_eq!(field_before_comma("abc"), "abc");
    assert!(contains_text("xx among us yy", "among us"));
    assert!(!contains_text("among", "among us"));
    assert!(same_text("a", "a"));
    assert!(is_space('\u{85}'));
    assert!(!is_space('x'));
    assert_eq!(join_path("", "x"), "x");
    assert_eq!(join_path("C:\\d\\", "x"), "C:\\d\\x");
}

#[test]
fn quiet_startup_has_empty_message() {
    let mut rec = record(true, Some("/games/AmongUs"), true);
    let (d1, msg) = initialize_store_if_needed(&mut rec, None);
    let (d2, sync_msg) = sync_base_game_cache(
        &mut rec,
        CacheOutcome::Synced { version: "2023.6.13".to_string(), copied: false },
    );
    assert!(!(d1 || d2));
    assert_eq!(combine_messages(msg, sync_msg), "");
}

#[test]
fn bootstrap_and_copy_messages_join() {
    let mut rec = RegistryRecord::new();
    let (_, msg) = initialize_store_if_needed(&mut rec, Some("/g".to_string()));
    let outcome = CacheOutcome::Synced { version: "1.0".to_string(), copied: true };
    let (_, sync_msg) = sync_base_game_cache(&mut rec, outcome);
    assert_eq!(
        combine_messages(msg, sync_msg),
        "Initialized. Among Us: Some(\"/g\") | Cached base game v1.0"
    );
}

#[test]
fn sync_skips_without_source() {
    assert!(matches!(sync_skip(&record(true, None, false), true), Some(CacheOutcome::NoPath)));
    assert!(matches!(
        sync_skip(&record(true, Some("/gone"), false), false),
        Some(CacheOutcome::SourceMissing)
    ));
    assert!(sync_skip(&record(true, Some("/here"), false), true).is_none());
}

#[test]
fn synced_outcome_copies_only_new_versions() {
    let entries = vec!["2023.6.13".to_string(), "other".to_string()];
    match synced_outcome(&entries, "2023.6.13".to_string()) {
        CacheOutcome::Synced { version, copied } => {
            assert_eq!(version, "2023.6.13");
            assert!(!copied);
        }
        _ => panic!("expected a synced outcome"),
    }
    match synced_outcome(&entries, "2024.1.1".to_string()) {
        CacheOutcome::Synced { copied, .. } => assert!(copied),
        _ => panic!("expected a synced outcome"),
    }
}
