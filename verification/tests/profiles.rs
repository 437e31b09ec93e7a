use okena::extensions::claude::AssistantNames;
use okena::json::parse_json;
use okena::profiles::{
    all_profiles, bootstrap_default_profile, config_root, create_profile, current, delete_profile,
    first_settings, get_config_dir, init_profile, legacy_lock_pid, legacy_name_list,
    list_profiles, make_profile_paths, migrate_legacy_layout_if_needed, pick_profile_id,
    profile_pid, remote_pid, resolve_active_profile, try_current, try_init_profile, unique_id,
    validate_profile_id, ActiveProfile, LegacyLock, Migration, ProfileEntry, ProfileIndex,
    ProfilePaths,
};

fn entry(id: &str, name: &str) -> ProfileEntry {
    ProfileEntry {
        id: id.to_string(),
        display_name: name.to_string(),
        created_at: String::new(),
        claude_config_dir: None,
        icon: None,
        color: None,
    }
}

fn index(entries: Vec<ProfileEntry>, last_used: Option<&str>) -> ProfileIndex {
    ProfileIndex {
        version: 1,
        profiles: entries,
        last_used: last_used.map(String::from),
        default_profile: "default".to_string(),
    }
}

fn index_with_two() -> ProfileIndex {
    index(vec![entry("default", "Default"), entry("work", "Work")], Some("work"))
}

fn names() -> AssistantNames {
    AssistantNames {
        dir_name: ".helper".to_string(),
        service: "Helper-credentials".to_string(),
        extension: "helper-code".to_string(),
        label: "helper.usage".to_string(),
        heading: "HELPER".to_string(),
        site: "helper.example".to_string(),
    }
}

fn default_paths() -> ProfilePaths {
    make_profile_paths("default", "/c").unwrap()
}

#[test]
fn test_unique_id_collision() {
    let mut index = ProfileIndex::empty();
    let id1 = unique_id("work", &index);
    assert_eq!(id1, "work");
    index.profiles.push(entry("work", "Work"));
    let id2 = unique_id("work", &index);
    assert_eq!(id2, "work-2");
    index.profiles.push(entry("work-2", "Work"));
    assert_eq!(unique_id("Work", &index), "work-3");
}

#[test]
fn ids_are_made_of_letters_and_numbers() {
    let index = ProfileIndex::empty();
    assert_eq!(unique_id("  My Work / Stuff!", &index), "my-work---stuff");
    assert_eq!(unique_id("\u{c9}t\u{e9} 2024", &index), "\u{e9}t\u{e9}-2024");
    assert_eq!(unique_id("../..", &index), "profile");
    assert_eq!(unique_id("", &index), "profile");
}

#[test]
fn test_profile_paths() {
    let paths = ProfilePaths {
        id: "work".to_string(),
        root: "/tmp/test-okena/profiles/work".to_string(),
        config_root: "/tmp/test-okena".to_string(),
    };
    assert_eq!(paths.workspace_json(), "/tmp/test-okena/profiles/work/workspace.json");
    assert_eq!(paths.sessions_dir(), "/tmp/test-okena/profiles/work/sessions");
}

#[test]
fn profiles_keep_their_files_apart() {
    let paths = make_profile_paths("work", "/c").unwrap();
    assert_eq!(paths.root, "/c/profiles/work");
    assert_eq!(paths.settings_json(), "/c/profiles/work/settings.json");
    assert_eq!(paths.keybindings_json(), "/c/profiles/work/keybindings.json");
    assert_eq!(paths.themes_dir(), "/c/profiles/work/themes");
    assert_eq!(paths.updates_dir(), "/c/profiles/work/updates");
    assert_eq!(paths.lock_path(), "/c/profiles/work/okena.lock");
    assert_eq!(paths.log_path(), "/c/profiles/work/okena.log");
    assert_eq!(paths.cli_json(), "/c/profiles/work/cli.json");
    assert_eq!(paths.remote_json(), "/c/profiles/work/remote.json");
    assert_eq!(paths.remote_secret(), "/c/profiles/work/remote_secret");
    assert_eq!(paths.remote_tokens(), "/c/profiles/work/remote_tokens.json");
    assert_eq!(paths.pair_code(), "/c/profiles/work/pair_code");
}

#[test]
fn the_active_profile_is_set_once() {
    let mut active = ActiveProfile { paths: None };
    assert!(try_current(&active).is_none());
    assert_eq!(get_config_dir(&active, Some("/home/u/.config")), "/home/u/.config/okena");
    init_profile(&mut active, default_paths());
    assert_eq!(current(&active).id, "default");
    assert_eq!(try_current(&active), Some(&default_paths()));
    assert_eq!(get_config_dir(&active, None), "/c/profiles/default/updates");
    assert_eq!(config_root(None), "./okena");
}

#[test]
fn ids_that_lead_elsewhere_are_refused() {
    for id in ["", "a/b", "a\\b", "..", "a..b", "a\0b"] {
        assert_eq!(validate_profile_id(id), Err(format!("Invalid profile id: '{id}'")));
        assert!(make_profile_paths(id, "/c").is_err());
    }
    assert_eq!(validate_profile_id("a.b"), Ok(()));
}

#[test]
fn a_first_start_makes_the_default_profile() {
    let mut known = None;
    let paths = resolve_active_profile(&mut known, Some("work"), None, "/c", "now".to_string());
    assert_eq!(paths, Ok(default_paths()));
    assert_eq!(known, Some(bootstrap_default_profile("now".to_string())));
    let made = known.unwrap();
    assert_eq!(made.profiles[0].display_name, "Default");
    assert_eq!(made.last_used.as_deref(), Some("default"));
}

#[test]
fn a_flag_comes_before_the_environment() {
    let mut known = Some(index_with_two());
    let paths = resolve_active_profile(
        &mut known,
        Some("default"),
        Some("work"),
        "/c",
        String::new(),
    );
    assert_eq!(paths.unwrap().id, "default");
    assert_eq!(known.as_ref().unwrap().last_used.as_deref(), Some("default"));
    let paths = resolve_active_profile(&mut known, None, Some("work"), "/c", String::new());
    assert_eq!(paths.unwrap().id, "work");
    let paths = resolve_active_profile(&mut known, None, None, "/c", String::new());
    assert_eq!(paths.unwrap().id, "work");
}

#[test]
fn an_unknown_profile_is_refused() {
    let mut known = Some(index_with_two());
    let paths = resolve_active_profile(&mut known, Some("x"), None, "/c", String::new());
    assert_eq!(
        paths,
        Err("Profile 'x' not found. Available: default, work\n\
             Run `okena --new-profile <name>` to create one."
            .to_string())
    );
    assert_eq!(known, Some(index_with_two()));
}

#[test]
fn picking_needs_a_hint_among_many() {
    assert_eq!(
        pick_profile_id(&ProfileIndex::empty()),
        Err("No profiles found. Run `okena --new-profile <name>` to create one.".to_string())
    );
    assert_eq!(pick_profile_id(&index(vec![entry("a", "A")], None)), Ok("a".to_string()));
    assert_eq!(pick_profile_id(&index_with_two()), Ok("work".to_string()));
    let mut two = index_with_two();
    two.last_used = Some("gone".to_string());
    assert_eq!(
        pick_profile_id(&two),
        Err("Multiple profiles found. Specify one with --profile <id> or OKENA_PROFILE:\n  \
             default              Default\n  work                 Work"
            .to_string())
    );
}

#[test]
fn new_profiles_get_a_directory_of_their_own() {
    let mut known = index_with_two();
    let (id, dir) = create_profile(&mut known, "Work", Some("/home/u"), &names(), "t".to_string());
    assert_eq!(id, "work-2");
    assert_eq!(dir, "/home/u/.helper-work-2");
    let made = known.profiles.last().unwrap();
    assert_eq!(made.display_name, "Work");
    assert_eq!(made.created_at, "t");
    assert_eq!(made.claude_config_dir.as_deref(), Some("/home/u/.helper-work-2"));
    assert_eq!(known.profiles.len(), 3);

    let settings = first_settings(&dir, &names());
    let expected = parse_json(
        r#"{"version":3,"extension_settings":{"helper-code":{"config_dir":"/home/u/.helper-work-2"}}}"#,
    )
    .unwrap();
    assert_eq!(settings.get("version"), expected.get("version"));
    assert_eq!(settings.get("extension_settings"), expected.get("extension_settings"));
}

#[test]
fn test_all_profiles_returns_empty_on_missing_index() {
    let idx = index_with_two();
    let loaded = all_profiles(Some(index_with_two())).unwrap();
    assert_eq!(loaded.len(), idx.profiles.len());
    assert_eq!(all_profiles(None), None);
}

#[test]
fn test_delete_profile_refuses_default() {
    let mut known = index_with_two();
    let err = delete_profile(&mut known, "default", None, false, "/c");
    assert_eq!(err, Err("Cannot delete the default profile".to_string()));
    // index should be unchanged
    assert_eq!(known.profiles.len(), 2);
}

#[test]
fn test_delete_profile_removes_entry_and_dir() {
    let mut known = index_with_two();
    let paths = delete_profile(&mut known, "work", Some("default"), false, "/c").unwrap();
    assert_eq!(known.profiles.len(), 1);
    assert_eq!(known.profiles[0].id, "default");
    assert!(known.last_used.is_none());
    assert_eq!(paths.root, "/c/profiles/work");
}

#[test]
fn test_delete_profile_clears_last_used_when_matching() {
    let mut known = index_with_two();
    assert_eq!(known.last_used.as_deref(), Some("work"));
    delete_profile(&mut known, "work", None, false, "/c").unwrap();
    assert!(known.last_used.is_none());
    let mut other = index_with_two();
    other.last_used = Some("default".to_string());
    delete_profile(&mut other, "work", None, false, "/c").unwrap();
    assert_eq!(other.last_used.as_deref(), Some("default"));
}

#[test]
fn test_delete_profile_refuses_unknown_id() {
    let mut known = index_with_two();
    assert!(!known.contains("nonexistent"), "should not find nonexistent profile");
    assert_eq!(
        delete_profile(&mut known, "nonexistent", None, false, "/c"),
        Err("Profile 'nonexistent' does not exist".to_string())
    );
}

#[test]
fn profiles_in_use_stay() {
    let mut known = index_with_two();
    assert_eq!(
        delete_profile(&mut known, "work", Some("work"), false, "/c"),
        Err("Cannot delete the active profile \u{2014} switch to another profile first".to_string())
    );
    assert_eq!(
        delete_profile(&mut known, "work", None, true, "/c"),
        Err("Profile 'work' is currently in use by another Okena instance".to_string())
    );
    known.profiles.push(entry("a/b", "Odd"));
    assert_eq!(
        delete_profile(&mut known, "a/b", None, true, "/c"),
        Err("Invalid profile id: 'a/b'".to_string())
    );
    assert_eq!(known.profiles.len(), 3);
}

#[test]
fn running_profiles_name_a_process() {
    assert_eq!(profile_pid(Some(r#"{"pid": 123, "port": 1}"#)), Some(123));
    assert_eq!(profile_pid(Some(r#"{"pid": 0}"#)), None);
    assert_eq!(profile_pid(Some(r#"{"pid": "123"}"#)), None);
    assert_eq!(profile_pid(Some("not json")), None);
    assert_eq!(profile_pid(None), None);
    assert_eq!(remote_pid(&parse_json(r#"{"pid": 4294967297}"#).unwrap()), 1);
}

#[test]
fn the_list_marks_the_last_used_profile() {
    assert_eq!(
        list_profiles(&index_with_two()),
        ["  default              Default", "* work                 Work"]
    );
}

#[test]
fn test_migration_idempotent() {
    let paths = default_paths();
    let present = vec!["settings.json".to_string(), "workspace.json".to_string()];
    let migration = migrate_legacy_layout_if_needed(&paths, false, LegacyLock::Missing, &present);
    match migration {
        Migration::Proceed { remove_lock, moves, mark } => {
            assert_eq!(remove_lock, None);
            let all: Vec<(&str, &str)> =
                moves.iter().map(|m| (m.from.as_str(), m.to.as_str())).collect();
            assert_eq!(
                all,
                [
                    ("/c/workspace.json", paths.workspace_json().as_str()),
                    ("/c/settings.json", paths.settings_json().as_str()),
                ]
            );
            assert_eq!(mark, "/c/profiles/default/.migrated_from_legacy_v1");
        }
        other => panic!("{:?}", other),
    }
    // Second run should be a no-op
    assert_eq!(
        migrate_legacy_layout_if_needed(&paths, true, LegacyLock::Missing, &present),
        Migration::NotNeeded
    );
}

#[test]
fn migration_waits_for_an_older_instance() {
    let paths = default_paths();
    assert_eq!(
        migrate_legacy_layout_if_needed(&paths, false, LegacyLock::Held(77), &Vec::new()),
        Migration::Refused(
            "An older Okena instance is still running (PID 77). \
             Quit it before upgrading to profiles."
                .to_string()
        )
    );
    let other = make_profile_paths("work", "/c").unwrap();
    assert_eq!(
        migrate_legacy_layout_if_needed(&other, false, LegacyLock::Held(77), &Vec::new()),
        Migration::NotNeeded
    );
    match migrate_legacy_layout_if_needed(
        &paths,
        false,
        LegacyLock::Stale,
        &vec!["sessions".to_string(), "pair_code".to_string(), "unknown".to_string()],
    ) {
        Migration::Proceed { remove_lock, moves, .. } => {
            assert_eq!(remove_lock.as_deref(), Some("/c/okena.lock"));
            let all: Vec<(&str, bool)> =
                moves.iter().map(|m| (m.from.as_str(), m.sensitive)).collect();
            assert_eq!(all, [("/c/pair_code", true), ("/c/sessions", false)]);
        }
        other => panic!("{:?}", other),
    }
    assert_eq!(legacy_name_list().len(), 14);
}

#[test]
fn locks_hold_a_process() {
    assert_eq!(legacy_lock_pid(" 77\n"), Some(77));
    assert_eq!(legacy_lock_pid("-1"), None);
    assert_eq!(legacy_lock_pid("4294967296"), None);
    assert_eq!(legacy_lock_pid(""), None);
}

#[test]
fn the_first_profile_is_never_replaced() {
    let mut active = ActiveProfile { paths: None };
    assert!(try_init_profile(&mut active, default_paths()).is_ok());
    let work = make_profile_paths("work", "/c").unwrap();
    let refused = try_init_profile(&mut active, work);
    assert_eq!(refused.map_err(|paths| paths.id), Err("work".to_string()));
    assert_eq!(try_current(&active).map(|paths| paths.id.as_str()), Some("default"));
}
