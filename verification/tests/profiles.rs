use claudex::config::{ClaudexConfig, ProfileConfig, ProviderType};
use claudex::error::ProfileError;
use claudex::profile::{
    add_profile, list_profiles, remove_profile, removed_message, show_profile, write_map, write_row,
    write_sheet,
};

fn named(name: &str) -> ProfileConfig {
    ProfileConfig { name: name.to_string(), ..ProfileConfig::default() }
}

fn with(names: &[&str]) -> ClaudexConfig {
    let mut config = ClaudexConfig::default();
    for name in names {
        add_profile(&mut config, named(name)).unwrap();
    }
    config
}

fn names(config: &ClaudexConfig) -> Vec<&str> {
    config.profiles.iter().map(|profile| profile.name.as_str()).collect()
}

#[test]
fn empty_list_says_how_to_add() {
    assert_eq!(
        list_profiles(&ClaudexConfig::default()),
        vec!["No profiles configured. Add one with: claudex profile add"]
    );
}

#[test]
fn list_has_a_line_for_each_profile() {
    let mut config = ClaudexConfig::default();
    config.profiles.push(ProfileConfig {
        name: "grok".to_string(),
        default_model: "grok-4".to_string(),
        provider_type: ProviderType::OpenAICompatible,
        base_url: "https://api.x.ai/v1".to_string(),
        ..ProfileConfig::default()
    });
    config.profiles.push(ProfileConfig {
        name: "a-name-of-over-sixteen".to_string(),
        default_model: "m\u{e9}t\u{e9}o".to_string(),
        base_url: "https://api.anthropic.com/and/a/long/way/down".to_string(),
        enabled: false,
        ..ProfileConfig::default()
    });
    let lines = list_profiles(&config);
    assert_eq!(lines.len(), 4);
    assert_eq!(
        lines[0],
        format!("{:<16} {:<20} {:<12} {:<30}", "NAME", "MODEL", "TYPE", "BASE_URL")
    );
    assert_eq!(lines[1], "-".repeat(78));
    assert_eq!(
        lines[2],
        format!(
            "{:<16} {:<20} {:<12} {:<30}",
            "grok", "grok-4", "OpenAICompatible", "https://api.x.ai/v1"
        )
    );
    assert_eq!(
        lines[3],
        format!(
            "{:<16} {:<20} {:<12} {:<30}{}",
            "a-name-of-over-sixteen",
            "m\u{e9}t\u{e9}o",
            "DirectAnthropic",
            "https://api.anthropic.com/and/a/long/way/down",
            " (disabled)"
        )
    );
}

#[test]
fn row_pads_each_column() {
    assert_eq!(
        write_row("n", "m", "t", "u", "!"),
        "n                m                    t            u                             !"
    );
}

#[test]
fn sheet_shows_the_plain_profile() {
    let mut config = ClaudexConfig::default();
    config.profiles.push(ProfileConfig {
        name: "kimi".to_string(),
        provider_type: ProviderType::OpenAICompatible,
        base_url: "https://api.moonshot.cn/v1".to_string(),
        default_model: "k2".to_string(),
        priority: 70,
        enabled: false,
        ..ProfileConfig::default()
    });
    assert_eq!(
        show_profile(&config, "kimi").unwrap(),
        vec![
            "Name:           kimi",
            "Provider:       OpenAICompatible",
            "Base URL:       https://api.moonshot.cn/v1",
            "Default Model:  k2",
            "Enabled:        false",
            "Priority:       70",
        ]
    );
}

#[test]
fn sheet_shows_backups_and_headers() {
    let mut config = ClaudexConfig::default();
    let mut profile = named("p");
    profile.backup_providers = vec!["a".to_string(), "b".to_string()];
    profile.custom_headers.insert("X-One".to_string(), "say \"hi\"\n".to_string());
    config.profiles.push(profile);
    let lines = show_profile(&config, "p").unwrap();
    assert_eq!(lines.len(), 8);
    assert_eq!(lines[4], "Enabled:        true");
    assert_eq!(lines[6], "Backups:        a, b");
    let mut map = std::collections::HashMap::new();
    map.insert("X-One".to_string(), "say \"hi\"\n".to_string());
    assert_eq!(lines[7], format!("Custom Headers: {:?}", map));
}

#[test]
fn sheet_takes_the_text_of_the_headers() {
    let mut profile = named("p");
    profile.custom_headers.insert("k".to_string(), "v".to_string());
    assert_eq!(write_sheet(&profile, "HEADERS")[6], "Custom Headers: HEADERS");
    assert_eq!(write_sheet(&named("p"), "HEADERS").len(), 6);
}

#[test]
fn maps_are_shown_entry_by_entry() {
    assert_eq!(write_map(&Vec::new()), "{}");
    assert_eq!(
        write_map(&vec![("a".to_string(), "1".to_string()), ("b".to_string(), "2".to_string())]),
        "{a: 1, b: 2}"
    );
}

#[test]
fn unknown_profile_is_not_shown() {
    let error = show_profile(&with(&["a"]), "b").unwrap_err();
    assert_eq!(error, ProfileError::NotFound("b".to_string()));
    assert_eq!(error.message(), "profile 'b' not found");
}

#[test]
fn added_profiles_come_last() {
    let config = with(&["a", "b", "c"]);
    assert_eq!(names(&config), vec!["a", "b", "c"]);
    assert_eq!(config.find_profile("b").unwrap().name, "b");
    assert!(config.find_profile("d").is_none());
}

#[test]
fn taken_name_is_refused() {
    let mut config = with(&["a", "b"]);
    let mut again = named("a");
    again.default_model = "other".to_string();
    let error = add_profile(&mut config, again).unwrap_err();
    assert_eq!(error, ProfileError::AlreadyExists("a".to_string()));
    assert_eq!(error.message(), "profile 'a' already exists");
    assert_eq!(names(&config), vec!["a", "b"]);
    assert_eq!(config.profiles[0].default_model, "");
}

#[test]
fn removal_undoes_addition() {
    let mut config = with(&["a", "b"]);
    add_profile(&mut config, named("c")).unwrap();
    remove_profile(&mut config, "c").unwrap();
    assert_eq!(names(&config), vec!["a", "b"]);
}

#[test]
fn removed_profile_is_gone_and_others_stay() {
    let mut config = with(&["a", "b", "c"]);
    remove_profile(&mut config, "b").unwrap();
    assert_eq!(names(&config), vec!["a", "c"]);
    assert!(config.find_profile("b").is_none());
    assert_eq!(
        remove_profile(&mut config, "b").unwrap_err(),
        ProfileError::NotFound("b".to_string())
    );
    assert_eq!(names(&config), vec!["a", "c"]);
    assert_eq!(removed_message("b"), "Removed profile 'b'");
}

#[test]
fn only_the_first_of_two_equal_names_is_removed() {
    let mut config = ClaudexConfig::default();
    for model in ["one", "two"] {
        config.profiles.push(ProfileConfig {
            name: "x".to_string(),
            default_model: model.to_string(),
            ..ProfileConfig::default()
        });
    }
    assert_eq!(config.find_profile("x").unwrap().default_model, "one");
    remove_profile(&mut config, "x").unwrap();
    assert_eq!(config.find_profile("x").unwrap().default_model, "two");
}

#[test]
fn error_messages() {
    assert_eq!(ProfileError::EmptyName.message(), "profile name cannot be empty");
    assert_eq!(ProfileError::EmptyModel.message(), "model name cannot be empty");
    assert_eq!(ProfileError::Aborted.message(), "aborted");
    assert_eq!(ProfileError::ConnectivityFailed.message(), "connectivity test failed");
}

#[test]
fn copies_say_the_same() {
    let mut config = with(&["a", "b"]);
    config.profiles[1].backup_providers = vec!["a".to_string()];
    config.profiles[1].custom_headers.insert("k".to_string(), "v".to_string());
    config.profiles[1].api_key_keyring = Some("entry".to_string());
    assert_eq!(format!("{:?}", config.clone()), format!("{:?}", config));
}
