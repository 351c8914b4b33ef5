//! What the program does when it is called by its second name, `claudex5`.
//!
//! Arguments are byte strings, as the operating system hands them over, and the path of the program
//! is read in the style of that system.
use crate::config::{
    blank_profile, distinct_names, has_profile, lookup, named, AuthType, ClaudexConfig, ConfigView,
    ModelsView, OAuthProvider, OAuthProviderView, ProfileConfig, ProfileModels, ProfileView,
    ProviderType,
};
use crate::path::{
    file_stem, has_stem, law_bare_name, law_directory_does_not_matter,
    law_extension_does_not_matter, lemma_last_place_is, lies_in, same_bytes, separates, PathStyle,
    BACKSLASH, DOT, SLASH,
};
use crate::profile::{
    law_add_keeps_names_distinct, law_added_is_found, law_added_name_is_taken, with_profile,
};
use vstd::prelude::*;
use vstd::slice::slice_to_vec;
use vstd::utf8::encode_utf8;

verus! {

/// The bytes of each argument.
pub open spec fn arg_views(args: Seq<Vec<u8>>) -> Seq<Seq<u8>> {
    Seq::new(args.len(), |i: int| args[i]@)
}

/// Whether a program path names `claudex5`, with an extension or without.
pub open spec fn names_claudex5(style: PathStyle, program: Seq<u8>) -> bool {
    file_stem(style, program) == Some(encode_utf8("claudex5"@))
}

/// Tells whether a program path names `claudex5`.
pub fn is_claudex5_program(style: PathStyle, program: &Vec<u8>) -> (result: bool)
    ensures
        result == names_claudex5(style, program@),
{
    has_stem(style, program.as_slice(), "claudex5".as_bytes())
}

/// Whether an argument asks for the program itself: for help, its version or a subcommand.
pub open spec fn is_own_word(arg: Seq<u8>) -> bool {
    ||| arg == encode_utf8("-h"@)
    ||| arg == encode_utf8("--help"@)
    ||| arg == encode_utf8("-V"@)
    ||| arg == encode_utf8("--version"@)
    ||| arg == encode_utf8("help"@)
    ||| arg == encode_utf8("run"@)
    ||| arg == encode_utf8("profile"@)
    ||| arg == encode_utf8("proxy"@)
    ||| arg == encode_utf8("dashboard"@)
    ||| arg == encode_utf8("config"@)
    ||| arg == encode_utf8("update"@)
    ||| arg == encode_utf8("auth"@)
    ||| arg == encode_utf8("sets"@)
}

fn own_word(arg: &Vec<u8>) -> (result: bool)
    ensures
        result == is_own_word(arg@),
{
    let arg: &[u8] = arg.as_slice();
    same_bytes(arg, "-h".as_bytes()) || same_bytes(arg, "--help".as_bytes()) || same_bytes(
        arg,
        "-V".as_bytes(),
    ) || same_bytes(arg, "--version".as_bytes()) || same_bytes(arg, "help".as_bytes())
        || same_bytes(arg, "run".as_bytes()) || same_bytes(arg, "profile".as_bytes())
        || same_bytes(arg, "proxy".as_bytes()) || same_bytes(arg, "dashboard".as_bytes())
        || same_bytes(arg, "config".as_bytes()) || same_bytes(arg, "update".as_bytes())
        || same_bytes(arg, "auth".as_bytes()) || same_bytes(arg, "sets".as_bytes())
}

/// Whether a command line, the program first, stands for a run of the profile `codex-sub`: the
/// program is `claudex5`, and its first argument is no word of its own.
pub open spec fn stands_for_codex_sub(style: PathStyle, args: Seq<Seq<u8>>) -> bool {
    &&& args.len() > 0
    &&& names_claudex5(style, args[0])
    &&& args.len() > 1 ==> !is_own_word(args[1])
}

/// Tells whether a command line stands for a run of the profile `codex-sub`.
pub fn should_default_claudex5_to_codex_sub(
    style: PathStyle,
    args: &Vec<Vec<u8>>,
) -> (result: bool)
    ensures
        result == stands_for_codex_sub(style, arg_views(args@)),
{
    if args.len() == 0 {
        return false;
    }
    if !is_claudex5_program(style, &args[0]) {
        return false;
    }
    if args.len() == 1 {
        return true;
    }
    !own_word(&args[1])
}

/// The words that a run of the profile `codex-sub` is spelt out with.
pub open spec fn codex_sub_words() -> Seq<Seq<u8>> {
    seq![
        encode_utf8("run"@),
        encode_utf8("codex-sub"@),
        encode_utf8("--setting-sources"@),
        encode_utf8("project,local"@),
    ]
}

/// The command line to act on: what was given, with the words of the run spelt out behind the
/// program where it stands for one.
pub open spec fn spelt_out(style: PathStyle, args: Seq<Seq<u8>>) -> Seq<Seq<u8>> {
    if stands_for_codex_sub(style, args) {
        seq![args[0]] + codex_sub_words() + args.skip(1)
    } else {
        args
    }
}

fn push_word(args: &mut Vec<Vec<u8>>, word: &[u8])
    ensures
        arg_views(final(args)@) == arg_views(old(args)@).push(word@),
{
    args.push(slice_to_vec(word));
    assert(arg_views(args@) =~= arg_views(old(args)@).push(word@));
}

/// Spells out a command line that stands for a run of the profile `codex-sub`.
pub fn default_claudex5_args(style: PathStyle, args: Vec<Vec<u8>>) -> (result: Vec<Vec<u8>>)
    ensures
        arg_views(result@) == spelt_out(style, arg_views(args@)),
{
    if !should_default_claudex5_to_codex_sub(style, &args) {
        return args;
    }
    let ghost given = arg_views(args@);
    let mut rewritten: Vec<Vec<u8>> = Vec::new();
    push_word(&mut rewritten, args[0].as_slice());
    push_word(&mut rewritten, "run".as_bytes());
    push_word(&mut rewritten, "codex-sub".as_bytes());
    push_word(&mut rewritten, "--setting-sources".as_bytes());
    push_word(&mut rewritten, "project,local".as_bytes());
    let ghost start = seq![given[0]] + codex_sub_words();
    assert(arg_views(rewritten@) =~= start + given.subrange(1, 1));
    let mut at: usize = 1;
    while at < args.len()
        invariant
            1 <= at <= args.len(),
            given == arg_views(args@),
            arg_views(rewritten@) == start + given.subrange(1, at as int),
        decreases args.len() - at,
    {
        push_word(&mut rewritten, args[at].as_slice());
        assert(start + given.subrange(1, at + 1) =~= (start + given.subrange(1, at as int)).push(
            given[at as int],
        ));
        at = at + 1;
    }
    assert(given.subrange(1, at as int) =~= given.skip(1));
    rewritten
}

/// The profile that `claudex5` runs with where the configuration has none of its name.
pub open spec fn codex_sub_profile() -> ProfileView {
    ProfileView {
        name: "codex-sub"@,
        provider_type: ProviderType::OpenAIResponses,
        base_url: "https://chatgpt.com/backend-api/codex"@,
        default_model: "gpt-5.5"@,
        auth_type: AuthType::OAuth,
        oauth_provider: Some(OAuthProviderView::Openai),
        models: ModelsView {
            haiku: Some("gpt-5.5"@),
            sonnet: Some("gpt-5.5"@),
            opus: Some("gpt-5.5"@),
        },
        ..blank_profile()
    }
}

/// The configuration with the profile `codex-sub` in it.
pub open spec fn with_codex_sub(config: ConfigView) -> ConfigView {
    if has_profile(config.profiles, "codex-sub"@) {
        config
    } else {
        with_profile(config, codex_sub_profile())
    }
}

/// Adds the profile `codex-sub` at the end, unless one of its name is there already.
pub fn ensure_claudex5_profile(config: &mut ClaudexConfig)
    ensures
        final(config)@ == with_codex_sub(old(config)@),
        has_profile(old(config)@.profiles, "codex-sub"@) ==> *final(config) == *old(config),
{
    if config.profile_index("codex-sub").is_some() {
        return;
    }
    let profile = ProfileConfig {
        name: "codex-sub".to_owned(),
        provider_type: ProviderType::OpenAIResponses,
        base_url: "https://chatgpt.com/backend-api/codex".to_owned(),
        default_model: "gpt-5.5".to_owned(),
        auth_type: AuthType::OAuth,
        oauth_provider: Some(OAuthProvider::Openai),
        models: ProfileModels {
            haiku: Some("gpt-5.5".to_owned()),
            sonnet: Some("gpt-5.5".to_owned()),
            opus: Some("gpt-5.5".to_owned()),
        },
        ..ProfileConfig::default()
    };
    assert(profile@ =~= codex_sub_profile());
    config.profiles.push(profile);
    assert(config@.profiles =~= old(config)@.profiles.push(codex_sub_profile()));
}

/// Spelling out a command line twice is the same as spelling it out once.
pub proof fn law_spelt_out_once(style: PathStyle, args: Seq<Seq<u8>>)
    ensures
        spelt_out(style, spelt_out(style, args)) == spelt_out(style, args),
{
    if stands_for_codex_sub(style, args) {
        assert(spelt_out(style, args)[1] == encode_utf8("run"@));
    }
}

/// Nothing that was given is lost or changed: the program stays first, and its arguments stay last
/// and in their order.
pub proof fn law_arguments_are_kept(style: PathStyle, args: Seq<Seq<u8>>)
    requires
        args.len() > 0,
    ensures
        spelt_out(style, args)[0] == args[0],
        spelt_out(style, args).len() >= args.len(),
        spelt_out(style, args).skip(spelt_out(style, args).len() - args.len() + 1) == args.skip(1),
{
    assert(spelt_out(style, args).skip(spelt_out(style, args).len() - args.len() + 1) =~= args.skip(1));
}

/// A program of another name gets its command line as it was given.
pub proof fn law_other_programs_are_left_alone(style: PathStyle, args: Seq<Seq<u8>>)
    requires
        args.len() > 0,
        !names_claudex5(style, args[0]),
    ensures
        spelt_out(style, args) == args,
{
}

/// The program is known as `claudex5` in whatever directory it lies, with an extension or without.
pub proof fn law_claudex5_is_known(
    style: PathStyle,
    directory: Seq<u8>,
    separator: u8,
    extension: Seq<u8>,
)
    requires
        !extension.contains(DOT),
        forall|i: int| 0 <= i < extension.len() ==> !separates(style, #[trigger] extension[i]),
    ensures
        ({
            let stem = encode_utf8("claudex5"@);
            let name = stem.push(DOT) + extension;
            &&& names_claudex5(style, stem)
            &&& names_claudex5(style, name)
            &&& lies_in(style, directory, separator, stem) ==> names_claudex5(
                style,
                directory.push(separator) + stem,
            )
            &&& lies_in(style, directory, separator, name) ==> names_claudex5(
                style,
                directory.push(separator) + name,
            )
        }),
{
    let stem = encode_utf8("claudex5"@);
    let name = stem.push(DOT) + extension;
    reveal_strlit("claudex5");
    vstd::utf8::is_ascii_chars_encode_utf8("claudex5"@);
    assert(stem =~= Seq::new("claudex5"@.len(), |i: int| "claudex5"@[i] as u8));
    assert(forall|i: int|
        0 <= i < stem.len() ==> stem[i] != SLASH && stem[i] != BACKSLASH && stem[i] != DOT);
    assert(stem[1] == 0x6c && name[1] == 0x6c);
    lemma_last_place_is(stem, DOT, -1);
    assert forall|i: int| 0 <= i < name.len() implies !separates(style, #[trigger] name[i]) by {
        if i > stem.len() {
            assert(name[i] == extension[i - stem.len() - 1]);
        }
    }
    law_bare_name(style, stem);
    law_bare_name(style, name);
    law_extension_does_not_matter(stem, extension);
    if lies_in(style, directory, separator, stem) {
        law_directory_does_not_matter(style, directory, separator, stem);
    }
    if lies_in(style, directory, separator, name) {
        law_directory_does_not_matter(style, directory, separator, name);
    }
}

/// Once the profile `codex-sub` was ensured it is there, and doing so again changes nothing.
pub proof fn law_codex_sub_is_there(config: ConfigView)
    ensures
        has_profile(with_codex_sub(config).profiles, "codex-sub"@),
        with_codex_sub(with_codex_sub(config)) == with_codex_sub(config),
{
    law_added_name_is_taken(config, codex_sub_profile());
}

/// Ensuring the profile `codex-sub` changes nothing that the configuration held: what was found
/// under a name is found still, and distinct names stay distinct.
pub proof fn law_codex_sub_disturbs_nothing(config: ConfigView, name: Seq<char>)
    ensures
        has_profile(config.profiles, name) ==> lookup(with_codex_sub(config).profiles, name)
            == lookup(config.profiles, name),
        !has_profile(config.profiles, "codex-sub"@) ==> lookup(
            with_codex_sub(config).profiles,
            "codex-sub"@,
        ) == Some(codex_sub_profile()),
        distinct_names(config.profiles) ==> distinct_names(with_codex_sub(config).profiles),
{
    if !has_profile(config.profiles, "codex-sub"@) {
        law_added_is_found(config, codex_sub_profile(), name);
        law_added_is_found(config, codex_sub_profile(), "codex-sub"@);
        if distinct_names(config.profiles) {
            law_add_keeps_names_distinct(config, codex_sub_profile());
        }
    }
}

/// Whether a command line starts with the words of a run of the profile `codex-sub`, behind its
/// first word, and goes on with `rest`.
pub open spec fn runs_codex_sub(args: Seq<Seq<u8>>, program: Seq<u8>, rest: Seq<Seq<u8>>) -> bool {
    &&& args.len() == rest.len() + 5
    &&& args[0] == program
    &&& args[1] == encode_utf8("run"@)
    &&& args[2] == encode_utf8("codex-sub"@)
    &&& args[3] == encode_utf8("--setting-sources"@)
    &&& args[4] == encode_utf8("project,local"@)
    &&& args.skip(5) == rest
}

/// A command line of `claudex5` that has no argument, or whose first is none of the thirteen words
/// `-h`, `--help`, `-V`, `--version`, `help`, `run`, `profile`, `proxy`, `dashboard`, `config`,
/// `update`, `auth` and `sets`, runs the profile `codex-sub` with all that was given.
pub proof fn law_other_words_run_codex_sub(style: PathStyle, args: Seq<Seq<u8>>)
    requires
        args.len() > 0,
        file_stem(style, args[0]) == Some(encode_utf8("claudex5"@)),
        args.len() > 1 ==> {
            &&& args[1] != encode_utf8("-h"@)
            &&& args[1] != encode_utf8("--help"@)
            &&& args[1] != encode_utf8("-V"@)
            &&& args[1] != encode_utf8("--version"@)
            &&& args[1] != encode_utf8("help"@)
            &&& args[1] != encode_utf8("run"@)
            &&& args[1] != encode_utf8("profile"@)
            &&& args[1] != encode_utf8("proxy"@)
            &&& args[1] != encode_utf8("dashboard"@)
            &&& args[1] != encode_utf8("config"@)
            &&& args[1] != encode_utf8("update"@)
            &&& args[1] != encode_utf8("auth"@)
            &&& args[1] != encode_utf8("sets"@)
        },
    ensures
        stands_for_codex_sub(style, args),
        runs_codex_sub(spelt_out(style, args), args[0], args.skip(1)),
{
    let result = spelt_out(style, args);
    assert(result =~= seq![args[0]] + codex_sub_words() + args.skip(1));
    assert(result.skip(5) =~= args.skip(1));
}

/// A command line whose first argument is one of the thirteen words stays as it was given.
pub proof fn law_own_words_are_left_alone(style: PathStyle, args: Seq<Seq<u8>>)
    requires
        args.len() > 1,
        ({
            ||| args[1] == encode_utf8("-h"@)
            ||| args[1] == encode_utf8("--help"@)
            ||| args[1] == encode_utf8("-V"@)
            ||| args[1] == encode_utf8("--version"@)
            ||| args[1] == encode_utf8("help"@)
            ||| args[1] == encode_utf8("run"@)
            ||| args[1] == encode_utf8("profile"@)
            ||| args[1] == encode_utf8("proxy"@)
            ||| args[1] == encode_utf8("dashboard"@)
            ||| args[1] == encode_utf8("config"@)
            ||| args[1] == encode_utf8("update"@)
            ||| args[1] == encode_utf8("auth"@)
            ||| args[1] == encode_utf8("sets"@)
        }),
    ensures
        !stands_for_codex_sub(style, args),
        spelt_out(style, args) == args,
{
}

/// A command line without a program, or with one whose file name is not `claudex5` once its
/// extension is left out, stays as it was given.
pub proof fn law_only_claudex5_is_spelt_out(style: PathStyle, args: Seq<Seq<u8>>)
    requires
        args.len() > 0 ==> file_stem(style, args[0]) != Some(encode_utf8("claudex5"@)),
    ensures
        !stands_for_codex_sub(style, args),
        spelt_out(style, args) == args,
{
}

/// A program is known by its file name without the extension, and by nothing else.
pub proof fn law_program_is_known_by_its_stem(style: PathStyle, program: Seq<u8>)
    ensures
        names_claudex5(style, program) <==> file_stem(style, program) == Some(
            encode_utf8("claudex5"@),
        ),
{
}

/// The profile `codex-sub` asks ChatGPT for `gpt-5.5`, whatever the class of the model, over the
/// responses protocol and with a token of OpenAI; the rest of it is blank.
pub proof fn law_codex_sub_profile()
    ensures
        ({
            let profile = codex_sub_profile();
            let blank = blank_profile();
            &&& profile.name == "codex-sub"@
            &&& profile.provider_type == ProviderType::OpenAIResponses
            &&& profile.base_url == "https://chatgpt.com/backend-api/codex"@
            &&& profile.default_model == "gpt-5.5"@
            &&& profile.auth_type == AuthType::OAuth
            &&& profile.oauth_provider == Some(OAuthProviderView::Openai)
            &&& profile.models.haiku == Some("gpt-5.5"@)
            &&& profile.models.sonnet == Some("gpt-5.5"@)
            &&& profile.models.opus == Some("gpt-5.5"@)
            &&& profile.api_key == blank.api_key
            &&& profile.api_key_keyring == blank.api_key_keyring
            &&& profile.backup_providers == blank.backup_providers
            &&& profile.custom_headers == blank.custom_headers
            &&& profile.extra_env == blank.extra_env
            &&& profile.priority == blank.priority
            &&& profile.enabled == blank.enabled
        }),
{
}

/// The profile `codex-sub` is added behind all others where no profile is called so; where one is,
/// nothing changes, whatever it says.
pub proof fn law_codex_sub_comes_last(config: ConfigView)
    ensures
        (exists|at: int| 0 <= at < config.profiles.len() && config.profiles[at].name == "codex-sub"@)
            ==> with_codex_sub(config) == config,
        (forall|at: int|
            0 <= at < config.profiles.len() ==> config.profiles[at].name != "codex-sub"@) ==> {
            &&& with_codex_sub(config).profiles == config.profiles.push(codex_sub_profile())
            &&& with_codex_sub(config).proxy_host == config.proxy_host
            &&& with_codex_sub(config).proxy_port == config.proxy_port
            &&& with_codex_sub(config).log_level == config.log_level
        },
{
    if exists|at: int| 0 <= at < config.profiles.len() && config.profiles[at].name == "codex-sub"@ {
        let at = choose|at: int|
            0 <= at < config.profiles.len() && config.profiles[at].name == "codex-sub"@;
        assert(named(config.profiles, "codex-sub"@, at));
    }
}

} // verus!
