use ccuse::error::Error;
use ccuse::jsontext::parse_name_index;
use ccuse::profile::{Permissions, Profile, ProfileSource};
use ccuse::storage::Storage;

fn sample_profile(name: &str) -> Profile {
    Profile {
        name: name.to_string(),
        display_name: None,
        env: vec![("ANTHROPIC_AUTH_TOKEN".to_string(), "tok".to_string())],
        permissions: Permissions { enabled: None, mcp: None, command: None },
        enabled_plugins: None,
        always_thinking_enabled: None,
        api_timeout_ms: None,
        category: None,
        source: Some(ProfileSource::Manual),
        created_at: 1_000,
        updated_at: 1_000,
    }
}

#[test]
fn add_then_get_returns_added_profile() {
    let mut st = Storage::new("/cfg".to_string());
    let p = sample_profile("alice");
    assert!(st.add_profile(p.clone()).is_ok());
    let got = st.get_profile("alice").expect("profile must be present");
    assert_eq!(got, p);
}

#[test]
fn remove_then_get_is_absent_and_unindexed() {
    let mut st = Storage::new("/cfg".to_string());
    st.add_profile(sample_profile("alice")).unwrap();
    st.remove_profile("alice").unwrap();
    assert!(st.get_profile("alice").is_none());
    assert!(!st.profile_names().contains(&"alice".to_string()));
}

#[test]
fn rename_moves_profile_to_new_name() {
    let mut st = Storage::new("/cfg".to_string());
    st.add_profile(sample_profile("old")).unwrap();
    st.rename_profile("old", "new", 2_000).unwrap();
    assert!(st.get_profile("old").is_none());
    let got = st.get_profile("new").expect("renamed profile must be present");
    assert_eq!(got.name, "new");
    assert_eq!(got.updated_at, 2_000);
    assert_eq!(got.created_at, 1_000);
}

#[test]
fn rename_carries_display_name_along_when_set() {
    let mut st = Storage::new("/cfg".to_string());
    let mut p = sample_profile("old");
    p.display_name = Some("Old Label".to_string());
    st.add_profile(p).unwrap();
    st.rename_profile("old", "new", 2_000).unwrap();
    let got = st.get_profile("new").unwrap();
    assert_eq!(got.display_name, Some("new".to_string()));
}

#[test]
fn remove_all_twice_is_a_noop_the_second_time() {
    let mut st = Storage::new("/cfg".to_string());
    st.add_profile(sample_profile("a")).unwrap();
    st.add_profile(sample_profile("b")).unwrap();
    let removed = st.remove_all_profiles();
    assert_eq!(removed, vec!["a".to_string(), "b".to_string()]);
    let removed_again = st.remove_all_profiles();
    assert!(removed_again.is_empty());
    assert!(st.profile_names().is_empty());
}

#[test]
fn add_existing_name_fails_with_already_exists() {
    let mut st = Storage::new("/cfg".to_string());
    st.add_profile(sample_profile("alice")).unwrap();
    let r = st.add_profile(sample_profile("alice"));
    assert_eq!(r, Err(Error::ProfileAlreadyExists("alice".to_string())));
}

#[test]
fn update_missing_name_fails_with_not_found() {
    let mut st = Storage::new("/cfg".to_string());
    let r = st.update_profile(sample_profile("ghost"), 2_000);
    assert_eq!(r, Err(Error::ProfileNotFound("ghost".to_string())));
}

#[test]
fn update_keeps_creation_time_and_stamps_modification_time() {
    let mut st = Storage::new("/cfg".to_string());
    st.add_profile(sample_profile("alice")).unwrap();
    let mut newer = sample_profile("alice");
    newer.created_at = 555;
    newer.api_timeout_ms = Some(9_000);
    st.update_profile(newer, 2_000).unwrap();
    let got = st.get_profile("alice").unwrap();
    assert_eq!(got.created_at, 1_000);
    assert_eq!(got.updated_at, 2_000);
    assert_eq!(got.api_timeout_ms, Some(9_000));
}

#[test]
fn remove_missing_name_fails_with_not_found() {
    let mut st = Storage::new("/cfg".to_string());
    let r = st.remove_profile("ghost");
    assert_eq!(r, Err(Error::ProfileNotFound("ghost".to_string())));
}

#[test]
fn rename_missing_name_fails_with_not_found() {
    let mut st = Storage::new("/cfg".to_string());
    let r = st.rename_profile("ghost", "new", 2_000);
    assert_eq!(r, Err(Error::ProfileNotFound("ghost".to_string())));
}

#[test]
fn rename_onto_indexed_name_fails_with_already_exists() {
    let mut st = Storage::new("/cfg".to_string());
    st.add_profile(sample_profile("a")).unwrap();
    st.add_profile(sample_profile("b")).unwrap();
    let r = st.rename_profile("a", "b", 2_000);
    assert_eq!(r, Err(Error::ProfileAlreadyExists("b".to_string())));
    assert!(st.get_profile("a").is_some());
}

#[test]
fn unreadable_entry_reads_as_absent_but_reserves_its_name() {
    let mut st = Storage::new("/cfg".to_string());
    st.load_entry("ghost".to_string(), None);
    assert!(st.get_profile("ghost").is_none());
    let r = st.add_profile(sample_profile("ghost"));
    assert_eq!(r, Err(Error::ProfileAlreadyExists("ghost".to_string())));
}

#[test]
fn entry_with_mismatched_inner_name_reads_as_absent() {
    let mut st = Storage::new("/cfg".to_string());
    st.load_entry("a".to_string(), Some(sample_profile("b")));
    assert!(st.get_profile("a").is_none());
    assert_eq!(st.profile_names(), vec!["a".to_string()]);
}

#[test]
fn duplicate_indexed_name_is_loaded_once() {
    let mut st = Storage::new("/cfg".to_string());
    let first = sample_profile("a");
    let mut second = sample_profile("a");
    second.category = Some("other".to_string());
    st.load_entry("a".to_string(), Some(first.clone()));
    st.load_entry("a".to_string(), Some(second));
    assert_eq!(st.get_profile("a"), Some(first));
    assert_eq!(st.profile_names(), vec!["a".to_string()]);
}

#[test]
fn update_makes_an_unreadable_entry_readable_again() {
    let mut st = Storage::new("/cfg".to_string());
    st.load_entry("a".to_string(), None);
    let repaired = sample_profile("a");
    st.update_profile(repaired.clone(), 2_000).unwrap();
    let got = st.get_profile("a").unwrap();
    assert_eq!(got.created_at, repaired.created_at);
    assert_eq!(got.updated_at, 2_000);
}

#[test]
fn rename_of_an_unreadable_entry_fails_with_not_found() {
    let mut st = Storage::new("/cfg".to_string());
    st.load_entry("ghost".to_string(), None);
    let r = st.rename_profile("ghost", "new", 2_000);
    assert_eq!(r, Err(Error::ProfileNotFound("ghost".to_string())));
}

#[test]
fn load_profiles_skips_unreadable_entries() {
    let mut st = Storage::new("/cfg".to_string());
    st.load_entry("a".to_string(), Some(sample_profile("a")));
    st.load_entry("b".to_string(), None);
    st.load_entry("c".to_string(), Some(sample_profile("c")));
    let all = st.load_profiles();
    let names: Vec<String> = all.iter().map(|p| p.name.clone()).collect();
    assert_eq!(names, vec!["a".to_string(), "c".to_string()]);
}

#[test]
fn paths_are_laid_out_under_the_configuration_directory() {
    let st = Storage::new("/home/u/.config/ccuse".to_string());
    assert_eq!(st.config_dir(), "/home/u/.config/ccuse");
    assert_eq!(st.profiles_path(), "/home/u/.config/ccuse/ccuse.json");
    assert_eq!(st.profile_settings_dir("alice"), "/home/u/.config/ccuse/alice");
    assert_eq!(
        st.profile_settings_path("alice"),
        "/home/u/.config/ccuse/alice/settings.json"
    );
}

#[test]
fn index_json_is_a_pretty_array_and_round_trips() {
    let mut st = Storage::new("/cfg".to_string());
    st.add_profile(sample_profile("a")).unwrap();
    st.add_profile(sample_profile("b")).unwrap();
    let text = st.index_json();
    assert_eq!(text, "[\n  \"a\",\n  \"b\"\n]");
    let parsed = parse_name_index(&text).unwrap();
    assert_eq!(parsed, vec!["a".to_string(), "b".to_string()]);
}

#[test]
fn index_json_of_empty_store_parses_to_no_names() {
    let st = Storage::new("/cfg".to_string());
    let text = st.index_json();
    let parsed = parse_name_index(&text).unwrap();
    assert!(parsed.is_empty());
}

#[test]
fn parse_name_index_rejects_text_that_is_no_array() {
    let r = parse_name_index("{\"not\": \"an array\"}");
    assert!(matches!(r, Err(Error::JsonError(_))));
}

#[test]
fn error_messages_name_the_operation_and_the_profile() {
    assert_eq!(
        Error::ProfileNotFound("x".to_string()).message(),
        "Profile not found: x"
    );
    assert_eq!(
        Error::ProfileAlreadyExists("y".to_string()).message(),
        "Profile already exists: y"
    );
    assert_eq!(Error::CcSwitchDbNotFound.message(), "CC-Switch database not found");
    assert_eq!(
        Error::ConfigError("boom".to_string()).message(),
        "Config error: boom"
    );
}
