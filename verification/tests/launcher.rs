use claudex::config::{AuthType, ClaudexConfig, OAuthProvider, ProfileConfig, ProviderType};
use claudex::launcher::{
    default_claudex5_args, ensure_claudex5_profile, is_claudex5_program,
    should_default_claudex5_to_codex_sub,
};
use claudex::path::{has_stem, PathStyle};

const HOST: PathStyle = if std::path::MAIN_SEPARATOR == '\\' {
    PathStyle::Windows
} else {
    PathStyle::Unix
};

fn os_args(args: &[&str]) -> Vec<Vec<u8>> {
    args.iter().map(|arg| arg.as_bytes().to_vec()).collect()
}

fn known(program: &str) -> bool {
    is_claudex5_program(PathStyle::Unix, &program.as_bytes().to_vec())
}

fn known_on_windows(program: &str) -> bool {
    is_claudex5_program(PathStyle::Windows, &program.as_bytes().to_vec())
}

#[test]
fn claudex5_without_command_defaults_to_codex_sub() {
    let args = default_claudex5_args(HOST, os_args(&["claudex5"]));
    assert_eq!(
        args,
        os_args(&[
            "claudex5",
            "run",
            "codex-sub",
            "--setting-sources",
            "project,local"
        ])
    );
}

#[test]
fn claudex5_prompt_args_default_to_codex_sub() {
    let args = default_claudex5_args(HOST, os_args(&["claudex5", "-p", "hi"]));
    assert_eq!(
        args,
        os_args(&[
            "claudex5",
            "run",
            "codex-sub",
            "--setting-sources",
            "project,local",
            "-p",
            "hi"
        ])
    );
}

#[test]
fn claudex5_explicit_subcommand_is_preserved() {
    let args = default_claudex5_args(HOST, os_args(&["claudex5", "profile", "list"]));
    assert_eq!(args, os_args(&["claudex5", "profile", "list"]));
}

#[test]
fn claudex_binary_is_preserved() {
    let args = default_claudex5_args(HOST, os_args(&["claudex", "-p", "hi"]));
    assert_eq!(args, os_args(&["claudex", "-p", "hi"]));
}

#[test]
fn claudex5_profile_is_injected_when_missing() {
    let mut config = ClaudexConfig::default();

    ensure_claudex5_profile(&mut config);

    let profile = config.find_profile("codex-sub").unwrap();
    assert_eq!(profile.default_model, "gpt-5.5");
    assert_eq!(profile.provider_type, ProviderType::OpenAIResponses);
    assert_eq!(profile.auth_type, AuthType::OAuth);
    assert_eq!(profile.oauth_provider, Some(OAuthProvider::Openai));
}

#[test]
fn claudex5_profile_injection_keeps_existing_profile() {
    let mut config = ClaudexConfig::default();
    config.profiles.push(ProfileConfig {
        name: "codex-sub".to_string(),
        default_model: "custom".to_string(),
        ..ProfileConfig::default()
    });

    ensure_claudex5_profile(&mut config);

    assert_eq!(config.profiles.len(), 1);
    assert_eq!(
        config.find_profile("codex-sub").unwrap().default_model,
        "custom"
    );
}

#[test]
fn injected_profile_is_complete_and_comes_once() {
    let mut config = ClaudexConfig::default();
    config.profiles.push(ProfileConfig { name: "other".to_string(), ..ProfileConfig::default() });
    ensure_claudex5_profile(&mut config);
    ensure_claudex5_profile(&mut config);
    assert_eq!(config.profiles.len(), 2);
    assert_eq!(config.profiles[0].name, "other");
    let profile = &config.profiles[1];
    assert_eq!(profile.name, "codex-sub");
    assert_eq!(profile.base_url, "https://chatgpt.com/backend-api/codex");
    assert_eq!(profile.models.haiku.as_deref(), Some("gpt-5.5"));
    assert_eq!(profile.models.sonnet.as_deref(), Some("gpt-5.5"));
    assert_eq!(profile.models.opus.as_deref(), Some("gpt-5.5"));
    assert_eq!(profile.api_key, "");
    assert!(profile.enabled);
}

#[test]
fn every_own_word_is_preserved() {
    for word in [
        "-h", "--help", "-V", "--version", "help", "run", "profile", "proxy", "dashboard", "config",
        "update", "auth", "sets",
    ] {
        let args = os_args(&["claudex5", word]);
        assert!(!should_default_claudex5_to_codex_sub(HOST, &args));
        assert_eq!(default_claudex5_args(HOST, args.clone()), args);
    }
    for word in ["", "Run", "runs", "-v", "hello", "--"] {
        assert!(should_default_claudex5_to_codex_sub(HOST, &os_args(&["claudex5", word])));
    }
}

#[test]
fn own_word_counts_only_in_first_place() {
    let args = default_claudex5_args(HOST, os_args(&["claudex5", "-p", "run"]));
    assert_eq!(args[5..], os_args(&["-p", "run"])[..]);
}

#[test]
fn empty_command_line_is_preserved() {
    assert_eq!(default_claudex5_args(HOST, Vec::new()), Vec::<Vec<u8>>::new());
}

#[test]
fn spelling_out_twice_changes_nothing_more() {
    let once = default_claudex5_args(HOST, os_args(&["/usr/bin/claudex5", "hi"]));
    assert_eq!(default_claudex5_args(HOST, once.clone()), once);
}

#[test]
fn arguments_that_are_not_text_are_kept() {
    let args = vec![b"/opt/\xff/claudex5".to_vec(), b"\xfe\xff".to_vec()];
    let rewritten = default_claudex5_args(HOST, args.clone());
    assert_eq!(rewritten.len(), 6);
    assert_eq!(rewritten[0], args[0]);
    assert_eq!(rewritten[5], args[1]);
}

#[test]
fn program_is_known_by_its_stem() {
    assert!(known("claudex5"));
    assert!(known("./claudex5"));
    assert!(known("/usr/local/bin/claudex5"));
    assert!(known("claudex5.exe"));
    assert!(known("bin/claudex5."));
    assert!(known("claudex5/"));
    assert!(known("claudex5/./."));
    assert!(!known("claudex"));
    assert!(!known("claudex5.tar.gz"));
    assert!(!known(".claudex5"));
    assert!(!known("claudex5/.."));
    assert!(!known("claudex55"));
    assert!(!known(""));
    assert!(!known("/"));
    assert!(!known("."));
    assert!(!known("bin\\claudex5"));
}

#[test]
fn program_is_known_by_its_stem_on_windows() {
    for program in [
        "claudex5",
        "claudex5.exe",
        "C:\\tools\\claudex5.exe",
        "C:/tools/claudex5.exe",
        "c:claudex5.exe",
        ".\\claudex5",
        "bin/claudex5\\",
        "bin\\claudex5\\.",
        "\\claudex5.exe",
        "\\\\claudex5",
        "\\\\server\\share\\claudex5.exe",
        "//server/share/claudex5.exe",
        "\\\\.\\device\\claudex5",
        "\\\\?\\C:\\claudex5.exe",
        "\\\\?\\C:/claudex5.exe",
        "\\\\?\\UNC\\server\\share\\bin\\claudex5.exe",
        "\\\\?\\volume\\claudex5",
        "//?/C:/claudex5",
    ] {
        assert!(known_on_windows(program), "{program}");
    }
    for program in [
        "",
        "claudex",
        "C:",
        "C:\\",
        "C:\\claudex5\\..",
        "\\\\server\\claudex5",
        "\\\\.\\claudex5",
        "\\\\?\\claudex5",
        "\\\\?\\UNC\\server\\claudex5",
        "\\\\?\\C:\\bin/claudex5",
        "\\\\?\\C:\\claudex5\\.",
        "C:\\tools\\claudex5.exe.old",
    ] {
        assert!(!known_on_windows(program), "{program}");
    }
}

#[test]
fn stem_is_the_name_without_its_extension() {
    for style in [PathStyle::Unix, PathStyle::Windows] {
        assert!(has_stem(style, b"a/b.tar.gz", b"b.tar"));
        assert!(has_stem(style, b".profile", b".profile"));
        assert!(!has_stem(style, b"..", b".."));
        assert!(!has_stem(style, b"", b""));
    }
    assert!(has_stem(PathStyle::Unix, b"a\\b", b"a\\b"));
    assert!(has_stem(PathStyle::Windows, b"a\\b", b"b"));
    assert!(has_stem(PathStyle::Unix, b"c:b", b"c:b"));
    assert!(has_stem(PathStyle::Windows, b"c:b", b"b"));
    assert!(has_stem(PathStyle::Windows, b"\\\\?\\v\\a/b", b"a/b"));
}

#[test]
fn windows_program_is_spelt_out() {
    let args = os_args(&["C:\\tools\\claudex5.exe", "hi"]);
    let rewritten = default_claudex5_args(PathStyle::Windows, args.clone());
    assert_eq!(rewritten.len(), 6);
    assert_eq!(rewritten[0], args[0]);
    assert_eq!(rewritten[5], args[1]);
    assert_eq!(default_claudex5_args(PathStyle::Unix, args.clone()), args);
}

#[test]
fn program_names_read_as_paths_do() {
    let pieces = ["", "/", ".", "..", "claudex5", "a", ".a", "claudex5.x", "./", "\\"];
    for a in pieces {
        for b in pieces {
            for c in pieces {
                for d in pieces {
                    let path = format!("{a}{b}{c}{d}");
                    let stem = std::path::Path::new(&path)
                        .file_stem()
                        .and_then(|stem| stem.to_str())
                        .unwrap_or_default();
                    let known = is_claudex5_program(HOST, &path.as_bytes().to_vec());
                    assert_eq!(known, stem == "claudex5", "{path:?}");
                }
            }
        }
    }
}
