use claudex::config::{ClaudexConfig, ProfileConfig, ProviderType};
use claudex::connectivity::ConnectError;
use claudex::error::ProfileError;
use claudex::interactive::{added_message, interactive_add, AddStep, KeyringOutcome};
use claudex::presets::{choose_url, presets};

struct Told {
    lines: Vec<String>,
    asked: Vec<String>,
    stored: Vec<(String, String, String)>,
    end: Result<ProfileConfig, ProfileError>,
}

fn play(config: &ClaudexConfig, answers: &[&str], keyring: &str, reached: bool) -> Told {
    let mut answers = answers.iter();
    let mut lines = Vec::new();
    let mut asked = Vec::new();
    let mut stored = Vec::new();
    let mut turn = interactive_add();
    loop {
        lines.append(&mut turn.lines);
        turn = match turn.step {
            AddStep::Ask(question) => {
                asked.push(question.label().to_string());
                question.answer(config, answers.next().unwrap().to_string())
            }
            AddStep::Store(wait) => {
                stored.push((wait.service().to_string(), wait.entry(), wait.secret().clone()));
                wait.stored(match keyring {
                    "refused" => KeyringOutcome::Refused("full".to_string()),
                    "unavailable" => KeyringOutcome::Unavailable("none".to_string()),
                    _ => KeyringOutcome::Stored,
                })
            }
            AddStep::Probe(wait) => {
                assert_eq!(wait.notice(), "\nTesting connectivity... ");
                assert!(!wait.profile().name.is_empty());
                wait.probed(if reached {
                    Ok(42)
                } else {
                    Err(ConnectError::Failed("down".to_string()))
                })
            }
            AddStep::Add(profile) => {
                assert!(answers.next().is_none());
                return Told { lines, asked, stored, end: Ok(profile) };
            }
            AddStep::Fail(error) => {
                assert!(answers.next().is_none());
                return Told { lines, asked, stored, end: Err(error) };
            }
        };
    }
}

fn plain(answers: &[&str]) -> Told {
    play(&ClaudexConfig::default(), answers, "stored", true)
}

#[test]
fn whole_session_without_a_key() {
    let told = plain(&["mine", "1", "", "", "m", ""]);
    assert_eq!(
        told.asked,
        vec![
            "Profile name",
            "Select [1/2/3]",
            "Base URL",
            "API Key (leave empty for none)",
            "Default model",
            "Backup providers (comma-separated, or empty)",
        ]
    );
    assert_eq!(
        told.lines,
        vec![
            "=== Add New Profile ===\n",
            "\nProvider type:",
            "  1) DirectAnthropic  (Anthropic, MiniMax, OpenRouter)",
            "  2) OpenAICompatible (Grok, OpenAI, DeepSeek, Kimi, GLM, Ollama)",
            "  3) OpenAIResponses  (ChatGPT/Codex subscription)",
            "\nBase URL presets:",
            "  1) Anthropic (https://api.anthropic.com)",
            "  2) MiniMax (https://api.minimax.io/anthropic)",
            "  3) OpenRouter (https://openrouter.ai/api)",
            "  or enter a custom URL",
            "OK (42ms)",
        ]
    );
    let profile = told.end.unwrap();
    assert_eq!(profile.name, "mine");
    assert_eq!(profile.provider_type, ProviderType::DirectAnthropic);
    assert_eq!(profile.base_url, "https://api.anthropic.com");
    assert_eq!(profile.api_key, "");
    assert_eq!(profile.api_key_keyring, None);
    assert_eq!(profile.default_model, "m");
    assert!(profile.backup_providers.is_empty());
    assert!(profile.enabled);
    assert_eq!(added_message("mine"), "\nProfile 'mine' added successfully!");
}

#[test]
fn key_goes_to_the_keyring() {
    for yes in ["y", "Y"] {
        let told = plain(&["mine", "2", "2", "secret", yes, "m", " a , ,b,"]);
        assert_eq!(told.asked[4], "Store API key in system keyring? [y/N]");
        assert_eq!(
            told.stored,
            vec![("claudex".to_string(), "mine-api-key".to_string(), "secret".to_string())]
        );
        assert!(told.lines.contains(&"Stored in keyring as 'mine-api-key'".to_string()));
        let profile = told.end.unwrap();
        assert_eq!(profile.api_key, "");
        assert_eq!(profile.api_key_keyring.as_deref(), Some("mine-api-key"));
        assert_eq!(profile.base_url, "https://api.openai.com/v1");
        assert_eq!(profile.backup_providers, vec!["a", "b"]);
    }
}

#[test]
fn key_stays_in_the_profile_when_the_keyring_does_not_take_it() {
    let cases = [
        ("refused", "Warning: failed to store in keyring: full"),
        ("unavailable", "Warning: keyring not available: none"),
    ];
    for (keyring, warning) in cases {
        let answers = ["mine", "3", "1", "secret", "y", "m", ""];
        let told = play(&ClaudexConfig::default(), &answers, keyring, true);
        assert!(told.lines.contains(&warning.to_string()));
        let profile = told.end.unwrap();
        assert_eq!(profile.api_key, "secret");
        assert_eq!(profile.api_key_keyring, None);
        assert_eq!(profile.base_url, "https://chatgpt.com/backend-api/codex");
    }
}

#[test]
fn key_stays_in_the_profile_when_the_user_says_so() {
    for no in ["", "n", "yes", "yy"] {
        let told = plain(&["mine", "1", "", "secret", no, "m", ""]);
        assert!(told.stored.is_empty());
        assert_eq!(told.end.unwrap().api_key, "secret");
    }
}

#[test]
fn invalid_choice_counts_as_compatible() {
    let told = plain(&["mine", "4", "http://here", "", "m", ""]);
    assert_eq!(told.lines[5], "Invalid choice, defaulting to OpenAICompatible");
    assert_eq!(told.lines[6], "\nBase URL presets:");
    assert_eq!(told.lines[12], "  6) Ollama (http://localhost:11434/v1)");
    let profile = told.end.unwrap();
    assert_eq!(profile.provider_type, ProviderType::OpenAICompatible);
    assert_eq!(profile.base_url, "http://here");
}

#[test]
fn empty_and_taken_names_are_refused() {
    assert_eq!(plain(&[""]).end.unwrap_err(), ProfileError::EmptyName);
    let mut config = ClaudexConfig::default();
    config.profiles.push(ProfileConfig { name: "a".to_string(), ..ProfileConfig::default() });
    assert_eq!(
        play(&config, &["a"], "stored", true).end.unwrap_err(),
        ProfileError::AlreadyExists("a".to_string())
    );
}

#[test]
fn empty_model_is_refused() {
    let told = plain(&["mine", "1", "", "secret", "y", ""]);
    assert_eq!(told.stored.len(), 1);
    assert_eq!(told.end.unwrap_err(), ProfileError::EmptyModel);
}

#[test]
fn unreachable_provider_is_added_only_on_demand() {
    let config = ClaudexConfig::default();
    let told = play(&config, &["mine", "1", "", "", "m", "", "Y"], "stored", false);
    assert_eq!(told.lines.last().unwrap(), "FAIL: down");
    assert_eq!(told.asked.last().unwrap(), "Add anyway? [y/N]");
    assert_eq!(told.end.unwrap().name, "mine");
    let told = play(&config, &["mine", "1", "", "", "m", "", "no"], "stored", false);
    assert_eq!(told.end.unwrap_err(), ProfileError::Aborted);
}

#[test]
fn shown_numbers_pick_presets() {
    for provider_type in [
        ProviderType::DirectAnthropic,
        ProviderType::OpenAICompatible,
        ProviderType::OpenAIResponses,
    ] {
        let list = presets(provider_type);
        for (i, (_, url)) in list.iter().enumerate() {
            assert_eq!(choose_url(provider_type, (i + 1).to_string()), *url);
        }
        assert_eq!(choose_url(provider_type, String::new()), list[0].1);
        assert_eq!(choose_url(provider_type, "+01".to_string()), list[0].1);
        for own in ["0", "7", "-1", " 1", "1.", "18446744073709551617", "http://x"] {
            assert_eq!(choose_url(provider_type, own.to_string()), own);
        }
    }
}
