use ccuse::completions::{contains_str, Shell};
use ccuse::error::Error;
use ccuse::launcher::Launcher;
use ccuse::profile::{
    candidate_from_row, manual_profile_from_input, name_ok, normalize_name, Permissions,
    ProfileSource,
};

#[test]
fn names_must_be_usable_as_path_segments() {
    assert!(!name_ok(""));
    assert!(!name_ok("."));
    assert!(!name_ok("a/b"));
    assert!(!name_ok("a\\b"));
    assert!(name_ok("alice"));
    assert!(name_ok("My Team"));
    assert!(name_ok(".."));
}

#[test]
fn normalization_turns_every_space_into_an_underscore() {
    assert_eq!(normalize_name("My Team"), "My_Team");
    assert_eq!(normalize_name("a b c"), "a_b_c");
    assert_eq!(normalize_name("no-spaces"), "no-spaces");
    assert_eq!(normalize_name(""), "");
    assert_eq!(normalize_name("  "), "__");
}

#[test]
fn candidate_row_keeps_a_representable_creation_time() {
    let p = candidate_from_row("x", vec![("K".to_string(), "V".to_string())], None, None, None, None, 5_000, 9_000);
    assert_eq!(p.created_at, 5_000);
    assert_eq!(p.updated_at, 5_000);
}

#[test]
fn candidate_row_falls_back_to_now_for_an_unrepresentable_creation_time() {
    let p = candidate_from_row("x", Vec::new(), None, None, None, None, i64::MAX, 9_000);
    assert_eq!(p.created_at, 9_000);
    assert_eq!(p.updated_at, 9_000);
}

#[test]
fn candidate_row_defaults_the_absent_fields() {
    let p = candidate_from_row("Team X", Vec::new(), None, None, None, None, 5_000, 9_000);
    assert_eq!(p.name, "Team X");
    assert_eq!(p.display_name, Some("Team X".to_string()));
    assert!(p.env.is_empty());
    assert_eq!(p.permissions, Permissions { enabled: None, mcp: None, command: None });
    assert_eq!(p.enabled_plugins, None);
    assert_eq!(p.category, None);
    assert_eq!(p.source, Some(ProfileSource::CcSwitch));
}

#[test]
fn manual_input_without_environment_variables_is_rejected() {
    let r = manual_profile_from_input(
        "alice", None, Vec::new(), None, None, None, None, None, None, None, 7_000,
    );
    assert_eq!(
        r,
        Err(Error::ConfigError("No environment variables configured".to_string()))
    );
}

#[test]
fn manual_input_with_an_invalid_name_is_rejected() {
    let r = manual_profile_from_input(
        "a/b",
        None,
        vec![("K".to_string(), "V".to_string())],
        None, None, None, None, None, None, None,
        7_000,
    );
    assert_eq!(r, Err(Error::ConfigError("Invalid profile name".to_string())));
}

#[test]
fn manual_input_backfills_defaults_and_keeps_user_values() {
    let p = manual_profile_from_input(
        "alice",
        None,
        vec![("K".to_string(), "V".to_string())],
        None,
        None,
        Some(true),
        Some(1_234),
        Some("work".to_string()),
        None,
        None,
        7_000,
    )
    .unwrap();
    assert_eq!(p.name, "alice");
    assert_eq!(p.display_name, None);
    assert_eq!(p.source, Some(ProfileSource::Manual));
    assert_eq!(p.created_at, 7_000);
    assert_eq!(p.updated_at, 7_000);
    assert_eq!(p.always_thinking_enabled, Some(true));
    assert_eq!(p.api_timeout_ms, Some(1_234));
    assert_eq!(p.category, Some("work".to_string()));
}

#[test]
fn manual_input_keeps_a_user_supplied_creation_time_and_provenance() {
    let p = manual_profile_from_input(
        "alice",
        Some("Alice".to_string()),
        vec![("K".to_string(), "V".to_string())],
        None,
        None,
        None,
        None,
        None,
        Some(ProfileSource::CcSwitch),
        Some(42),
        7_000,
    )
    .unwrap();
    assert_eq!(p.display_name, Some("Alice".to_string()));
    assert_eq!(p.source, Some(ProfileSource::CcSwitch));
    assert_eq!(p.created_at, 42);
    assert_eq!(p.updated_at, 7_000);
}

#[test]
fn launch_arguments_carry_settings_bypass_and_user_arguments_in_order() {
    let args = Launcher::build_args(
        "/cfg/alice/settings.json",
        true,
        &vec!["--resume".to_string(), "-p".to_string()],
    );
    assert_eq!(
        args,
        vec![
            "--settings".to_string(),
            "/cfg/alice/settings.json".to_string(),
            "--dangerously-skip-permissions".to_string(),
            "--resume".to_string(),
            "-p".to_string(),
        ]
    );
}

#[test]
fn launch_arguments_omit_the_bypass_flag_unless_asked() {
    let args = Launcher::build_args("/s.json", false, &Vec::new());
    assert_eq!(args, vec!["--settings".to_string(), "/s.json".to_string()]);
}

#[test]
fn child_environment_lets_profile_values_win_and_drops_the_nesting_marker() {
    let inherited = vec![
        ("CLAUDECODE".to_string(), "1".to_string()),
        ("PATH".to_string(), "/usr/bin".to_string()),
        ("K".to_string(), "inherited".to_string()),
    ];
    let profile_env = vec![("K".to_string(), "profile".to_string())];
    let merged = Launcher::merged_env(&inherited, &profile_env);
    assert_eq!(
        merged,
        vec![
            ("PATH".to_string(), "/usr/bin".to_string()),
            ("K".to_string(), "profile".to_string()),
        ]
    );
}

#[test]
fn shells_are_recognised_inside_a_shell_variable_value() {
    assert_eq!(Shell::classify("/usr/bin/zsh"), Some(Shell::Zsh));
    assert_eq!(Shell::classify("/bin/bash"), Some(Shell::Bash));
    assert_eq!(Shell::classify("fish"), Some(Shell::Fish));
    assert_eq!(Shell::classify("/bin/sh"), None);
}

#[test]
fn substring_search_finds_exactly_the_contained_texts() {
    assert!(contains_str("/usr/local/bin/zsh", "zsh"));
    assert!(contains_str("abc", ""));
    assert!(!contains_str("ab", "abc"));
    assert!(!contains_str("zs h", "zsh"));
}

#[test]
fn shell_names_and_scripts_belong_together() {
    assert_eq!(Shell::Zsh.name(), "zsh");
    assert_eq!(Shell::Bash.name(), "bash");
    assert_eq!(Shell::Fish.name(), "fish");
    assert!(Shell::Zsh.completion().starts_with("#compdef ccuse"));
    assert!(Shell::Bash.completion().contains("complete -F _ccuse ccuse"));
    assert!(Shell::Fish.completion().contains("complete -c ccuse"));
}

#[test]
fn completion_install_paths_hang_off_the_home_directory() {
    let (path, rel) = Shell::Zsh.config_path("/home/u");
    assert_eq!(path, "/home/u/.zsh/completions/_ccuse");
    assert_eq!(rel, "~/.zsh/completions/");
    let (path, rel) = Shell::Bash.config_path("/home/u");
    assert_eq!(path, "/home/u/.local/share/bash-completion/completions/ccuse");
    assert_eq!(rel, "~/.local/share/bash-completion/completions/");
    let (path, rel) = Shell::Fish.config_path("/home/u");
    assert_eq!(path, "/home/u/.config/fish/completions/ccuse.fish");
    assert_eq!(rel, "~/.config/fish/completions/");
}

#[test]
fn init_lines_tell_the_user_how_to_wire_the_script_in() {
    assert_eq!(
        Shell::Bash.init_line("/home/u/.local/share/bash-completion/completions/ccuse"),
        "# Add to ~/.bashrc:\nsource /home/u/.local/share/bash-completion/completions/ccuse"
    );
    assert!(Shell::Zsh.init_line("/p").contains("cp /p ~/.zsh/completions/"));
    assert_eq!(
        Shell::Fish.init_line("/p"),
        "# Fish completions are auto-loaded from ~/.config/fish/completions/"
    );
}
