use ccuse::error::Error;
use ccuse::merge::{merge_profiles, update_profiles, SyncOutcome};
use ccuse::profile::{candidate_from_row, Permissions, Profile, ProfileSource};
use ccuse::storage::Storage;

fn manual(name: &str) -> Profile {
    Profile {
        name: name.to_string(),
        display_name: None,
        env: vec![("ANTHROPIC_AUTH_TOKEN".to_string(), "tok".to_string())],
        permissions: Permissions { enabled: None, mcp: None, command: None },
        enabled_plugins: None,
        always_thinking_enabled: None,
        api_timeout_ms: None,
        category: None,
        source: Some(ProfileSource::Manual),
        created_at: 1_000,
        updated_at: 1_000,
    }
}

fn candidate(raw_name: &str) -> Profile {
    candidate_from_row(
        raw_name,
        vec![("ANTHROPIC_BASE_URL".to_string(), "https://api".to_string())],
        None,
        None,
        None,
        None,
        5_000,
        6_000,
    )
}

#[test]
fn merge_twice_yields_identical_results() {
    let existing = vec![manual("work"), manual("home")];
    let candidates = vec![candidate("Team A"), candidate("home")];
    let once = merge_profiles(&existing, &candidates);
    let twice = merge_profiles(&existing, &candidates);
    assert_eq!(once, twice);
}

#[test]
fn candidate_name_is_normalized_and_raw_name_becomes_display_name() {
    let merged = merge_profiles(&Vec::new(), &vec![candidate("My Team")]);
    assert_eq!(merged.len(), 1);
    assert_eq!(merged[0].name, "My_Team");
    assert_eq!(merged[0].display_name, Some("My Team".to_string()));
    assert_eq!(merged[0].source, Some(ProfileSource::CcSwitch));
}

#[test]
fn synced_candidate_replaces_manual_profile_of_the_same_name() {
    let merged = merge_profiles(&vec![manual("work")], &vec![candidate("work")]);
    assert_eq!(merged.len(), 1);
    assert_eq!(merged[0].name, "work");
    assert_eq!(merged[0].source, Some(ProfileSource::CcSwitch));
}

#[test]
fn replacement_keeps_the_matched_position() {
    let existing = vec![manual("a"), manual("b"), manual("c")];
    let merged = merge_profiles(&existing, &vec![candidate("b")]);
    let names: Vec<String> = merged.iter().map(|p| p.name.clone()).collect();
    assert_eq!(
        names,
        vec!["a".to_string(), "b".to_string(), "c".to_string()]
    );
    assert_eq!(merged[1].source, Some(ProfileSource::CcSwitch));
    assert_eq!(merged[0].source, Some(ProfileSource::Manual));
}

#[test]
fn candidate_matches_an_entry_by_normalized_name() {
    let existing = vec![manual("My_Team")];
    let merged = merge_profiles(&existing, &vec![candidate("My Team")]);
    assert_eq!(merged.len(), 1);
    assert_eq!(merged[0].name, "My_Team");
    assert_eq!(merged[0].display_name, Some("My Team".to_string()));
    assert_eq!(merged[0].source, Some(ProfileSource::CcSwitch));
}

#[test]
fn previously_synced_profiles_not_reconfirmed_are_dropped() {
    let mut stale = manual("stale");
    stale.source = Some(ProfileSource::CcSwitch);
    let existing = vec![manual("kept"), stale];
    let merged = merge_profiles(&existing, &vec![candidate("fresh")]);
    let names: Vec<String> = merged.iter().map(|p| p.name.clone()).collect();
    assert_eq!(names, vec!["kept".to_string(), "fresh".to_string()]);
}

#[test]
fn profiles_of_unset_provenance_are_not_treated_as_manual() {
    let mut legacy = manual("legacy");
    legacy.source = None;
    let merged = merge_profiles(&vec![legacy], &vec![candidate("fresh")]);
    let names: Vec<String> = merged.iter().map(|p| p.name.clone()).collect();
    assert_eq!(names, vec!["fresh".to_string()]);
}

#[test]
fn sync_on_fresh_store_with_zero_candidates_changes_nothing() {
    let mut st = Storage::new("/cfg".to_string());
    let r = update_profiles(&mut st, &Vec::new());
    assert_eq!(r, Ok(SyncOutcome::NothingToDo));
    assert!(st.profile_names().is_empty());
}

#[test]
fn sync_keeps_manual_alice_and_stores_bob_team_normalized() {
    let mut st = Storage::new("/cfg".to_string());
    st.add_profile(manual("alice")).unwrap();
    let r = update_profiles(&mut st, &vec![candidate("Bob Team")]);
    assert_eq!(r, Ok(SyncOutcome::Updated(2)));
    assert_eq!(
        st.profile_names(),
        vec!["alice".to_string(), "Bob_Team".to_string()]
    );
    let bob = st.get_profile("Bob_Team").unwrap();
    assert_eq!(bob.source, Some(ProfileSource::CcSwitch));
    assert_eq!(bob.display_name, Some("Bob Team".to_string()));
    let alice = st.get_profile("alice").unwrap();
    assert_eq!(alice.source, Some(ProfileSource::Manual));
}

#[test]
fn sync_refuses_a_merge_that_would_index_one_name_twice() {
    let mut st = Storage::new("/cfg".to_string());
    st.add_profile(manual("My Team")).unwrap();
    st.add_profile(manual("My_Team")).unwrap();
    let r = update_profiles(&mut st, &vec![candidate("My Team")]);
    assert!(matches!(r, Err(Error::ConfigError(_))));
    assert_eq!(
        st.profile_names(),
        vec!["My Team".to_string(), "My_Team".to_string()]
    );
}
