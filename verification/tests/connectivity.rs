use claudex::config::{
    AuthType, ClaudexConfig, OAuthProvider, ProfileConfig, ProviderType,
};
use claudex::connectivity::{
    answered, apply_custom_headers, http_failure, outcome_line, probe_request, responses_body,
    test_connectivity, AnswerStep, ConnectError, ConnectStep, Credential, HttpStatus, ProbeMethod,
    ProbeRequest, PROBE_TIMEOUT_SECS, TOKEN_MARGIN_SECS,
};
use claudex::error::ProfileError;
use claudex::proxy::{start_proxy_background, ProxyStep, POLL_DELAY_MILLIS, POLL_LIMIT};
use claudex::testing::{test_profile, testing_notice, TestStep};
use serde_json::Value;

fn profile(provider_type: ProviderType, base_url: &str, api_key: &str) -> ProfileConfig {
    ProfileConfig {
        name: "p".to_string(),
        provider_type,
        base_url: base_url.to_string(),
        api_key: api_key.to_string(),
        default_model: "some \"model\"\n".to_string(),
        ..ProfileConfig::default()
    }
}

fn pairs(list: &[(&str, &str)]) -> Vec<(String, String)> {
    list.iter().map(|(key, value)| (key.to_string(), value.to_string())).collect()
}

fn object(list: Vec<(&str, Value)>) -> Value {
    let mut map = serde_json::Map::new();
    for (key, value) in list {
        map.insert(key.to_string(), value);
    }
    Value::Object(map)
}

fn text(text: &str) -> Value {
    Value::String(text.to_string())
}

#[test]
fn anthropic_probe() {
    let request = probe_request(&profile(
        ProviderType::DirectAnthropic,
        "https://api.anthropic.com//",
        "sk",
    ));
    assert_eq!(request.method, ProbeMethod::Get);
    assert_eq!(request.url, "https://api.anthropic.com/v1/models");
    assert_eq!(
        request.headers,
        pairs(&[("x-api-key", "sk"), ("anthropic-version", "2023-06-01")])
    );
    assert!(request.body.is_none());
}

#[test]
fn compatible_probe() {
    let request =
        probe_request(&profile(ProviderType::OpenAICompatible, "http://localhost:11434/v1", "k"));
    assert_eq!(request.method, ProbeMethod::Get);
    assert_eq!(request.url, "http://localhost:11434/v1/models");
    assert_eq!(request.headers, pairs(&[("Authorization", "Bearer k")]));
    assert!(request.body.is_none());
}

#[test]
fn responses_probe() {
    let mut profile = profile(ProviderType::OpenAIResponses, "https://chatgpt.com/codex/", "k");
    profile.extra_env.insert("CHATGPT_ACCOUNT_ID".to_string(), "acc".to_string());
    profile.extra_env.insert("OTHER".to_string(), "x".to_string());
    let request = probe_request(&profile);
    assert_eq!(request.method, ProbeMethod::Post);
    assert_eq!(request.url, "https://chatgpt.com/codex/responses");
    assert_eq!(
        request.headers,
        pairs(&[
            ("Content-Type", "application/json"),
            ("Authorization", "Bearer k"),
            ("ChatGPT-Account-ID", "acc"),
        ])
    );
    let expected = object(vec![
        ("model", text("some \"model\"\n")),
        ("instructions", text("You are a concise connectivity test assistant.")),
        (
            "input",
            Value::Array(vec![object(vec![
                ("type", text("message")),
                ("role", text("user")),
                (
                    "content",
                    Value::Array(vec![object(vec![
                        ("type", text("input_text")),
                        ("text", text("Reply with OK.")),
                    ])]),
                ),
            ])]),
        ),
        ("stream", Value::Bool(true)),
        ("store", Value::Bool(false)),
    ]);
    let body = request.body.unwrap();
    assert_eq!(serde_json::from_str::<Value>(&body).unwrap(), expected);
    assert_eq!(body, serde_json::to_string(&expected).unwrap());
}

#[test]
fn model_is_escaped_in_the_body() {
    let cases = [
        ("gpt-5.5", "gpt-5.5"),
        ("", ""),
        ("a\"b\\c/", "a\\\"b\\\\c/"),
        ("\u{8}\t\n\u{c}\r", "\\b\\t\\n\\f\\r"),
        ("\u{0}\u{7}\u{b}\u{1a}\u{1f} ", "\\u0000\\u0007\\u000b\\u001a\\u001f "),
        ("\u{7f}\u{e9}\u{2028}\u{1f600}", "\u{7f}\u{e9}\u{2028}\u{1f600}"),
    ];
    for (model, escaped) in cases {
        let mut profile = profile(ProviderType::OpenAIResponses, "u", "k");
        profile.default_model = model.to_string();
        let end = format!(",\"model\":\"{escaped}\",\"store\":false,\"stream\":true}}");
        assert!(probe_request(&profile).body.unwrap().ends_with(&end), "{model:?}");
    }
}

#[test]
fn every_character_is_escaped_as_json_asks() {
    for number in 0..0x300 {
        let c = char::from_u32(number).unwrap();
        let escaped = match c {
            '"' => "\\\"".to_string(),
            '\\' => "\\\\".to_string(),
            '\n' => "\\n".to_string(),
            '\r' => "\\r".to_string(),
            '\t' => "\\t".to_string(),
            '\u{8}' => "\\b".to_string(),
            '\u{c}' => "\\f".to_string(),
            c if c < ' ' => format!("\\u{number:04x}"),
            c => c.to_string(),
        };
        let mut profile = profile(ProviderType::OpenAIResponses, "u", "k");
        profile.default_model = c.to_string();
        let part = format!(",\"model\":\"{escaped}\",\"store\"");
        assert!(probe_request(&profile).body.unwrap().contains(&part), "{c:?}");
    }
}

#[test]
fn responses_body_holds_the_text_of_the_model() {
    assert!(responses_body("\"m\"").ends_with(",\"model\":\"m\",\"store\":false,\"stream\":true}"));
}

#[test]
fn probes_without_a_key_carry_none() {
    for provider_type in [ProviderType::DirectAnthropic, ProviderType::OpenAICompatible] {
        assert!(probe_request(&profile(provider_type, "u", "")).headers.is_empty());
    }
    assert_eq!(
        probe_request(&profile(ProviderType::OpenAIResponses, "u", "")).headers,
        pairs(&[("Content-Type", "application/json")])
    );
}

#[test]
fn custom_headers_come_last() {
    let mut profile = profile(ProviderType::OpenAICompatible, "u", "k");
    profile.custom_headers.insert("X-A".to_string(), "1".to_string());
    profile.custom_headers.insert("X-B".to_string(), "2".to_string());
    profile.custom_headers.insert("X-A".to_string(), "3".to_string());
    assert_eq!(
        probe_request(&profile).headers,
        pairs(&[("Authorization", "Bearer k"), ("X-A", "3"), ("X-B", "2")])
    );
    let request = ProbeRequest {
        method: ProbeMethod::Post,
        url: "there".to_string(),
        headers: pairs(&[("X-A", "0")]),
        body: Some("body".to_string()),
    };
    let request = apply_custom_headers(request, &profile);
    assert_eq!(request.headers, pairs(&[("X-A", "0"), ("X-A", "3"), ("X-B", "2")]));
    assert_eq!(request.method, ProbeMethod::Post);
    assert_eq!(request.url, "there");
    assert_eq!(request.body.as_deref(), Some("body"));
}

fn oauth(provider: Option<OAuthProvider>) -> ProfileConfig {
    ProfileConfig {
        auth_type: AuthType::OAuth,
        oauth_provider: provider,
        ..profile(ProviderType::OpenAICompatible, "u", "")
    }
}

type Step = ConnectStep<&'static str>;

fn normalized(provider: OAuthProvider, normal: OAuthProvider) -> Step {
    match test_connectivity::<&'static str>(&oauth(Some(provider.clone()))) {
        ConnectStep::Normalize(wait) => {
            assert_eq!(wait.provider(), &provider);
            wait.normalized(normal)
        }
        _ => panic!("a provider is to be normalized"),
    }
}

fn load_as(
    provider: OAuthProvider,
    normal: OAuthProvider,
    expired: bool,
    refresh_token: Option<&str>,
) -> Step {
    match normalized(provider, normal.clone()) {
        ConnectStep::Load(wait) => {
            assert_eq!(wait.provider(), &normal);
            let refresh_token = refresh_token.map(|token| token.to_string());
            wait.loaded(Ok(Credential { token: "loaded", expired, refresh_token }))
        }
        _ => panic!("a credential is wanted"),
    }
}

fn load(provider: OAuthProvider, expired: bool, refresh_token: Option<&str>) -> Step {
    load_as(provider.clone(), provider, expired, refresh_token)
}

fn failure(step: Step) -> String {
    match step {
        ConnectStep::Fail(error) => error.message(),
        _ => panic!("a failure is wanted"),
    }
}

#[test]
fn key_profile_is_sent_at_once() {
    match test_connectivity::<()>(&profile(ProviderType::OpenAICompatible, "u", "k")) {
        ConnectStep::Send(request) => assert_eq!(request.url, "u/models"),
        _ => panic!("a request is wanted"),
    }
}

#[test]
fn oauth_profile_without_provider_fails() {
    assert_eq!(failure(test_connectivity(&oauth(None))), "no oauth_provider for profile 'p'");
}

#[test]
fn good_token_is_applied() {
    match load(OAuthProvider::Other("qwen".to_string()), false, None) {
        ConnectStep::Apply(wait) => {
            assert_eq!(*wait.token(), "loaded");
            match wait.applied(&profile(ProviderType::OpenAICompatible, "v", "token")) {
                ConnectStep::Send(request) => {
                    assert_eq!(request.url, "v/models");
                    assert_eq!(request.headers, pairs(&[("Authorization", "Bearer token")]));
                }
                _ => panic!("a request is wanted"),
            }
        }
        _ => panic!("a token is there"),
    }
}

#[test]
fn expired_token_is_renewed() {
    for provider in [OAuthProvider::Chatgpt, OAuthProvider::Openai] {
        match load(provider, true, Some("again")) {
            ConnectStep::Refresh(wait) => {
                assert_eq!(wait.refresh_token(), "again");
                match wait.refreshed(Ok("renewed")) {
                    ConnectStep::Apply(wait) => assert_eq!(*wait.token(), "renewed"),
                    _ => panic!("a token is there"),
                }
            }
            _ => panic!("a renewal is wanted"),
        }
    }
    match load(OAuthProvider::Openai, true, Some("again")) {
        ConnectStep::Refresh(wait) => {
            assert_eq!(failure(wait.refreshed(Err("no luck".to_string()))), "no luck");
        }
        _ => panic!("a renewal is wanted"),
    }
}

#[test]
fn normalized_provider_decides_on_a_renewal() {
    let alias = OAuthProvider::Other("codex".to_string());
    let renewed = load_as(alias.clone(), OAuthProvider::Openai, true, Some("again"));
    assert!(matches!(renewed, ConnectStep::Refresh(_)));
    let step = load_as(OAuthProvider::Openai, alias, true, Some("again"));
    assert!(failure(step).starts_with("OAuth token expired"));
}

#[test]
fn token_that_has_not_expired_is_not_renewed() {
    match load(OAuthProvider::Openai, false, Some("again")) {
        ConnectStep::Apply(wait) => assert_eq!(*wait.token(), "loaded"),
        _ => panic!("a token is there"),
    }
}

#[test]
fn expired_token_that_cannot_be_renewed_fails() {
    let message = "OAuth token expired for 'p' and cannot be refreshed automatically";
    assert_eq!(failure(load(OAuthProvider::Openai, true, None)), message);
    let other = OAuthProvider::Other("qwen".to_string());
    assert_eq!(failure(load(other, true, Some("again"))), message);
}

#[test]
fn missing_credential_fails() {
    match normalized(OAuthProvider::Openai, OAuthProvider::Openai) {
        ConnectStep::Load(wait) => {
            assert_eq!(failure(wait.loaded(Err("nothing stored".to_string()))), "nothing stored");
        }
        _ => panic!("a credential is wanted"),
    }
}

#[test]
fn success_is_two_hundred_and_something() {
    for code in [200, 204, 299] {
        match answered(Ok(HttpStatus::new(code).unwrap()), 12) {
            AnswerStep::Reached(millis) => assert_eq!(millis, 12),
            _ => panic!("{code} is a success"),
        }
    }
    for code in [100, 199, 300, 401, 999] {
        assert!(matches!(
            answered(Ok(HttpStatus::new(code).unwrap()), 12),
            AnswerStep::ReadBody(_)
        ));
    }
    assert!(HttpStatus::new(99).is_none());
    assert!(HttpStatus::new(1000).is_none());
}

#[test]
fn failing_answer_is_told_with_its_body() {
    let cases = [
        (404, Some("nope"), "HTTP 404 Not Found: nope"),
        (401, None, "HTTP 401 Unauthorized: "),
        (799, Some(""), "HTTP 799 <unknown status code>: "),
    ];
    for (code, body, message) in cases {
        match answered(Ok(HttpStatus::new(code).unwrap()), 1) {
            AnswerStep::ReadBody(wait) => {
                let error = wait.read(body.map(|body| body.to_string()));
                assert_eq!(error, ConnectError::Http(message.to_string()));
                assert_eq!(error.message(), message);
            }
            _ => panic!("{code} is no success"),
        }
    }
    assert_eq!(http_failure("S", "B"), "HTTP S: B");
}

#[test]
fn request_that_was_not_sent_fails() {
    match answered(Err("dns".to_string()), 1) {
        AnswerStep::Fail(error) => assert_eq!(error.message(), "dns"),
        _ => panic!("a failure is wanted"),
    }
}

#[test]
fn outcomes_are_told_in_a_line() {
    assert_eq!(outcome_line(&Ok(0)), "OK (0ms)");
    assert_eq!(outcome_line(&Ok(1234)), "OK (1234ms)");
    assert_eq!(outcome_line(&Err(ConnectError::Failed("x".to_string()))), "FAIL: x");
}

#[test]
fn limits_of_a_probe() {
    assert_eq!(PROBE_TIMEOUT_SECS, 10);
    assert_eq!(TOKEN_MARGIN_SECS, 60);
}

fn three() -> ClaudexConfig {
    let mut config = ClaudexConfig::default();
    for (name, enabled) in [("a", true), ("b", false), ("c", true)] {
        config.profiles.push(ProfileConfig {
            name: name.to_string(),
            enabled,
            ..ProfileConfig::default()
        });
    }
    config
}

fn play(name: &str, outcomes: &[bool]) -> (Vec<String>, Result<(), ProfileError>) {
    let config = three();
    let mut run = match test_profile(&config, name) {
        Ok(run) => run,
        Err(error) => return (Vec::new(), Err(error)),
    };
    let mut shown = Vec::new();
    let mut outcomes = outcomes.iter();
    loop {
        match run.next() {
            TestStep::Probe(turn) => {
                let outcome = if *outcomes.next().unwrap() {
                    Ok(7)
                } else {
                    Err(ConnectError::Failed("down".to_string()))
                };
                let notice = testing_notice(&config.profiles[turn.place()]);
                let (line, rest) = turn.probed(&outcome);
                shown.push(notice + &line);
                run = rest;
            }
            TestStep::Done(result) => {
                assert!(outcomes.next().is_none());
                return (shown, result);
            }
        }
    }
}

#[test]
fn all_tests_the_enabled_ones_and_never_fails() {
    let (shown, result) = play("all", &[false, true]);
    assert_eq!(shown, vec!["Testing a... FAIL: down", "Testing c... OK (7ms)"]);
    assert_eq!(result, Ok(()));
}

#[test]
fn one_profile_decides_its_run() {
    assert_eq!(play("b", &[true]), (vec!["Testing b... OK (7ms)".to_string()], Ok(())));
    assert_eq!(
        play("b", &[false]),
        (vec!["Testing b... FAIL: down".to_string()], Err(ProfileError::ConnectivityFailed))
    );
    assert_eq!(play("d", &[]), (Vec::new(), Err(ProfileError::NotFound("d".to_string()))));
}

#[test]
fn proxy_is_asked_at_its_health_address() {
    let mut config = ClaudexConfig::default();
    config.proxy_host = "10.0.0.1".to_string();
    config.proxy_port = 8080;
    assert_eq!(start_proxy_background(&config).health_url(), "http://10.0.0.1:8080/health");
    assert_eq!(POLL_DELAY_MILLIS * POLL_LIMIT as u64, 2000);
}

#[test]
fn proxy_is_given_up_after_the_last_poll() {
    let mut wait = start_proxy_background(&ClaudexConfig::default());
    for _ in 1..20 {
        wait = match wait.polled(false) {
            ProxyStep::Again(wait) => wait,
            _ => panic!("the wait goes on"),
        };
    }
    match wait.polled(false) {
        ProxyStep::Failed(text) => assert_eq!(text, "proxy failed to start within 2 seconds"),
        _ => panic!("the wait is over"),
    }
}

#[test]
fn proxy_is_ready_when_it_answers() {
    let wait = start_proxy_background(&ClaudexConfig::default());
    match wait.polled(false) {
        ProxyStep::Again(wait) => assert!(matches!(wait.polled(true), ProxyStep::Ready)),
        _ => panic!("the wait goes on"),
    }
}
