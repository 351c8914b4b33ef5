//! The configuration: profiles, each of which says how to reach one provider.
use crate::text::{copy_optional, copy_texts, optional_text, texts};
use crate::text_map::{EntryView, TextMap};
use vstd::prelude::*;

verus! {

/// The protocol that a provider speaks.
#[derive(Clone, Copy, Debug, PartialEq, Eq, Structural)]
pub enum ProviderType {
    /// Anthropic's own protocol.
    DirectAnthropic,
    /// OpenAI's chat completions.
    OpenAICompatible,
    /// OpenAI's responses.
    OpenAIResponses,
}

impl ProviderType {
    /// The name under which the type is shown.
    pub open spec fn label_text(self) -> Seq<char> {
        match self {
            ProviderType::DirectAnthropic => "DirectAnthropic"@,
            ProviderType::OpenAICompatible => "OpenAICompatible"@,
            ProviderType::OpenAIResponses => "OpenAIResponses"@,
        }
    }

    /// The name under which the type is shown.
    pub fn label(&self) -> (result: &'static str)
        ensures
            result@ == self.label_text(),
    {
        match self {
            ProviderType::DirectAnthropic => "DirectAnthropic",
            ProviderType::OpenAICompatible => "OpenAICompatible",
            ProviderType::OpenAIResponses => "OpenAIResponses",
        }
    }
}

/// How a profile proves who it is.
#[derive(Clone, Copy, Debug, PartialEq, Eq, Structural)]
pub enum AuthType {
    /// With the key that the profile holds.
    ApiKey,
    /// With a token that an OAuth provider issued.
    OAuth,
}

/// Who issues the OAuth tokens of a profile.
#[derive(Debug, PartialEq, Eq)]
pub enum OAuthProvider {
    /// A ChatGPT subscription.
    Chatgpt,
    /// OpenAI.
    Openai,
    /// Any other provider, by its name.
    Other(String),
}

/// What an [`OAuthProvider`] says.
pub enum OAuthProviderView {
    Chatgpt,
    Openai,
    Other(Seq<char>),
}

impl View for OAuthProvider {
    type V = OAuthProviderView;

    open spec fn view(&self) -> OAuthProviderView {
        match self {
            OAuthProvider::Chatgpt => OAuthProviderView::Chatgpt,
            OAuthProvider::Openai => OAuthProviderView::Openai,
            OAuthProvider::Other(name) => OAuthProviderView::Other(name@),
        }
    }
}

impl Clone for OAuthProvider {
    fn clone(&self) -> (result: OAuthProvider)
        ensures
            result@ == self@,
    {
        match self {
            OAuthProvider::Chatgpt => OAuthProvider::Chatgpt,
            OAuthProvider::Openai => OAuthProvider::Openai,
            OAuthProvider::Other(name) => OAuthProvider::Other(name.clone()),
        }
    }
}

/// What an optional [`OAuthProvider`] says.
pub open spec fn provider_view(provider: Option<OAuthProvider>) -> Option<OAuthProviderView> {
    match provider {
        Some(provider) => Some(provider@),
        None => None,
    }
}

/// The models that stand in for the three model classes.
#[derive(Debug)]
pub struct ProfileModels {
    pub haiku: Option<String>,
    pub sonnet: Option<String>,
    pub opus: Option<String>,
}

/// What [`ProfileModels`] say.
pub struct ModelsView {
    pub haiku: Option<Seq<char>>,
    pub sonnet: Option<Seq<char>>,
    pub opus: Option<Seq<char>>,
}

impl View for ProfileModels {
    type V = ModelsView;

    open spec fn view(&self) -> ModelsView {
        ModelsView {
            haiku: optional_text(self.haiku),
            sonnet: optional_text(self.sonnet),
            opus: optional_text(self.opus),
        }
    }
}

impl Clone for ProfileModels {
    fn clone(&self) -> (result: ProfileModels)
        ensures
            result@ == self@,
    {
        ProfileModels {
            haiku: copy_optional(&self.haiku),
            sonnet: copy_optional(&self.sonnet),
            opus: copy_optional(&self.opus),
        }
    }
}

impl Default for ProfileModels {
    fn default() -> (result: ProfileModels)
        ensures
            result@ == (ModelsView { haiku: None, sonnet: None, opus: None }),
    {
        ProfileModels { haiku: None, sonnet: None, opus: None }
    }
}

/// One provider, and how to reach it.
#[derive(Debug)]
pub struct ProfileConfig {
    /// The name by which the profile is found.
    pub name: String,
    pub provider_type: ProviderType,
    pub base_url: String,
    /// The key itself; empty where there is none or where it lies in the keyring.
    pub api_key: String,
    /// The keyring entry that holds the key.
    pub api_key_keyring: Option<String>,
    pub default_model: String,
    pub auth_type: AuthType,
    pub oauth_provider: Option<OAuthProvider>,
    pub models: ProfileModels,
    /// Names of the profiles to fall back on.
    pub backup_providers: Vec<String>,
    /// Headers to send with each request.
    pub custom_headers: TextMap,
    /// Environment variables that belong to the profile.
    pub extra_env: TextMap,
    pub priority: u32,
    pub enabled: bool,
}

/// What a [`ProfileConfig`] says.
#[verifier::ext_equal]
pub struct ProfileView {
    pub name: Seq<char>,
    pub provider_type: ProviderType,
    pub base_url: Seq<char>,
    pub api_key: Seq<char>,
    pub api_key_keyring: Option<Seq<char>>,
    pub default_model: Seq<char>,
    pub auth_type: AuthType,
    pub oauth_provider: Option<OAuthProviderView>,
    pub models: ModelsView,
    pub backup_providers: Seq<Seq<char>>,
    pub custom_headers: Seq<EntryView>,
    pub extra_env: Seq<EntryView>,
    pub priority: u32,
    pub enabled: bool,
}

impl View for ProfileConfig {
    type V = ProfileView;

    open spec fn view(&self) -> ProfileView {
        ProfileView {
            name: self.name@,
            provider_type: self.provider_type,
            base_url: self.base_url@,
            api_key: self.api_key@,
            api_key_keyring: optional_text(self.api_key_keyring),
            default_model: self.default_model@,
            auth_type: self.auth_type,
            oauth_provider: provider_view(self.oauth_provider),
            models: self.models@,
            backup_providers: texts(self.backup_providers@),
            custom_headers: self.custom_headers@,
            extra_env: self.extra_env@,
            priority: self.priority,
            enabled: self.enabled,
        }
    }
}

impl Clone for ProfileConfig {
    fn clone(&self) -> (result: ProfileConfig)
        ensures
            result@ == self@,
    {
        let oauth_provider: Option<OAuthProvider> = match &self.oauth_provider {
            Some(provider) => Some(provider.clone()),
            None => None,
        };
        ProfileConfig {
            name: self.name.clone(),
            provider_type: self.provider_type,
            base_url: self.base_url.clone(),
            api_key: self.api_key.clone(),
            api_key_keyring: copy_optional(&self.api_key_keyring),
            default_model: self.default_model.clone(),
            auth_type: self.auth_type,
            oauth_provider,
            models: self.models.clone(),
            backup_providers: copy_texts(&self.backup_providers),
            custom_headers: self.custom_headers.clone(),
            extra_env: self.extra_env.clone(),
            priority: self.priority,
            enabled: self.enabled,
        }
    }
}

/// A profile in which nothing has been said yet.
pub open spec fn blank_profile() -> ProfileView {
    ProfileView {
        name: Seq::empty(),
        provider_type: ProviderType::DirectAnthropic,
        base_url: Seq::empty(),
        api_key: Seq::empty(),
        api_key_keyring: None,
        default_model: Seq::empty(),
        auth_type: AuthType::ApiKey,
        oauth_provider: None,
        models: ModelsView { haiku: None, sonnet: None, opus: None },
        backup_providers: Seq::empty(),
        custom_headers: Seq::empty(),
        extra_env: Seq::empty(),
        priority: 100,
        enabled: true,
    }
}

impl Default for ProfileConfig {
    fn default() -> (result: ProfileConfig)
        ensures
            result@ == blank_profile(),
    {
        let result = ProfileConfig {
            name: String::new(),
            provider_type: ProviderType::DirectAnthropic,
            base_url: String::new(),
            api_key: String::new(),
            api_key_keyring: None,
            default_model: String::new(),
            auth_type: AuthType::ApiKey,
            oauth_provider: None,
            models: ProfileModels::default(),
            backup_providers: Vec::new(),
            custom_headers: TextMap::new(),
            extra_env: TextMap::new(),
            priority: 100,
            enabled: true,
        };
        assert(result@ =~= blank_profile());
        result
    }
}

/// The whole configuration.
#[derive(Debug)]
pub struct ClaudexConfig {
    pub profiles: Vec<ProfileConfig>,
    pub proxy_host: String,
    pub proxy_port: u16,
    pub log_level: String,
}

/// What a [`ClaudexConfig`] says.
#[verifier::ext_equal]
pub struct ConfigView {
    pub profiles: Seq<ProfileView>,
    pub proxy_host: Seq<char>,
    pub proxy_port: u16,
    pub log_level: Seq<char>,
}

/// What a list of profiles says.
pub open spec fn profile_views(profiles: Seq<ProfileConfig>) -> Seq<ProfileView> {
    Seq::new(profiles.len(), |i: int| profiles[i]@)
}

impl View for ClaudexConfig {
    type V = ConfigView;

    open spec fn view(&self) -> ConfigView {
        ConfigView {
            profiles: profile_views(self.profiles@),
            proxy_host: self.proxy_host@,
            proxy_port: self.proxy_port,
            log_level: self.log_level@,
        }
    }
}

impl Clone for ClaudexConfig {
    fn clone(&self) -> (result: ClaudexConfig)
        ensures
            result@ == self@,
    {
        let mut profiles: Vec<ProfileConfig> = Vec::new();
        let mut at: usize = 0;
        while at < self.profiles.len()
            invariant
                at <= self.profiles.len(),
                profile_views(profiles@) =~= profile_views(self.profiles@).take(at as int),
            decreases self.profiles.len() - at,
        {
            let ghost before = profile_views(profiles@);
            profiles.push(self.profiles[at].clone());
            assert(profile_views(profiles@) =~= before.push(self.profiles[at as int]@));
            at = at + 1;
        }
        assert(profile_views(profiles@) =~= profile_views(self.profiles@));
        ClaudexConfig {
            profiles,
            proxy_host: self.proxy_host.clone(),
            proxy_port: self.proxy_port,
            log_level: self.log_level.clone(),
        }
    }
}

impl Default for ClaudexConfig {
    fn default() -> (result: ClaudexConfig)
        ensures
            result@ == (ConfigView {
                profiles: Seq::empty(),
                proxy_host: "127.0.0.1"@,
                proxy_port: 13456,
                log_level: "info"@,
            }),
    {
        let result = ClaudexConfig {
            profiles: Vec::new(),
            proxy_host: "127.0.0.1".to_owned(),
            proxy_port: 13456,
            log_level: "info".to_owned(),
        };
        assert(result@.profiles =~= Seq::empty());
        result
    }
}

/// Whether the profile at `at` is called `name`.
pub open spec fn named(profiles: Seq<ProfileView>, name: Seq<char>, at: int) -> bool {
    0 <= at < profiles.len() && profiles[at].name == name
}

/// Whether some profile is called `name`.
pub open spec fn has_profile(profiles: Seq<ProfileView>, name: Seq<char>) -> bool {
    exists|at: int| named(profiles, name, at)
}

/// Whether `at` is the first place at which a profile is called `name`.
pub open spec fn first_named(profiles: Seq<ProfileView>, name: Seq<char>, at: int) -> bool {
    &&& named(profiles, name, at)
    &&& forall|before: int| 0 <= before < at ==> !named(profiles, name, before)
}

/// The profile that a look-up of `name` finds: the first that is called so.
pub open spec fn lookup(profiles: Seq<ProfileView>, name: Seq<char>) -> Option<ProfileView> {
    if has_profile(profiles, name) {
        Some(profiles[choose|at: int| first_named(profiles, name, at)])
    } else {
        None
    }
}

/// Whether no two profiles have the same name.
pub open spec fn distinct_names(profiles: Seq<ProfileView>) -> bool {
    forall|i: int, j: int| 0 <= i < j < profiles.len() ==> profiles[i].name != profiles[j].name
}

/// There is only one first place.
pub proof fn lemma_first_named_unique(profiles: Seq<ProfileView>, name: Seq<char>, at: int)
    requires
        first_named(profiles, name, at),
    ensures
        at == (choose|i: int| first_named(profiles, name, i)),
{
    let found = choose|i: int| first_named(profiles, name, i);
    assert(first_named(profiles, name, found));
    if found < at {
        assert(named(profiles, name, found));
    }
    if at < found {
        assert(named(profiles, name, at));
    }
}

/// Where a profile is called `name`, one is the first, and the look-up finds it.
pub proof fn lemma_lookup(profiles: Seq<ProfileView>, name: Seq<char>, at: int)
    requires
        first_named(profiles, name, at),
    ensures
        has_profile(profiles, name),
        lookup(profiles, name) == Some(profiles[at]),
{
    lemma_first_named_unique(profiles, name, at);
}

/// The first place at or below `at` where a profile has the name of the one at `at`.
pub proof fn lemma_first_named(profiles: Seq<ProfileView>, name: Seq<char>, at: int) -> (first: int)
    requires
        named(profiles, name, at),
    ensures
        first_named(profiles, name, first),
        first <= at,
    decreases at,
{
    if exists|before: int| 0 <= before < at && named(profiles, name, before) {
        let before = choose|before: int| 0 <= before < at && named(profiles, name, before);
        lemma_first_named(profiles, name, before)
    } else {
        at
    }
}

impl ClaudexConfig {
    /// The place of the first profile that is called `name`.
    pub fn profile_index(&self, name: &str) -> (result: Option<usize>)
        ensures
            match result {
                Some(at) => first_named(self@.profiles, name@, at as int),
                None => !has_profile(self@.profiles, name@),
            },
    {
        let wanted: String = name.to_owned();
        let mut at: usize = 0;
        while at < self.profiles.len()
            invariant
                at <= self.profiles.len(),
                wanted@ == name@,
                self@.profiles.len() == self.profiles.len(),
                forall|i: int| 0 <= i < at ==> !named(self@.profiles, name@, i),
            decreases self.profiles.len() - at,
        {
            if self.profiles[at].name == wanted {
                return Some(at);
            }
            at = at + 1;
        }
        None
    }

    /// The profile that is called `name`; the first where several are.
    pub fn find_profile(&self, name: &str) -> (result: Option<&ProfileConfig>)
        ensures
            match result {
                Some(profile) => lookup(self@.profiles, name@) == Some(profile@),
                None => lookup(self@.profiles, name@) is None,
            },
    {
        match self.profile_index(name) {
            Some(at) => {
                proof {
                    lemma_lookup(self@.profiles, name@, at as int);
                }
                Some(&self.profiles[at])
            },
            None => None,
        }
    }
}

/// A look-up finds the profile at `at` where that is called `name` and none before it is.
pub proof fn law_lookup_finds_the_first(profiles: Seq<ProfileView>, name: Seq<char>, at: int)
    requires
        0 <= at < profiles.len(),
        profiles[at].name == name,
        forall|before: int| 0 <= before < at ==> profiles[before].name != name,
    ensures
        lookup(profiles, name) == Some(profiles[at]),
        has_profile(profiles, name),
        first_named(profiles, name, at),
        forall|other: int| other != at ==> !first_named(profiles, name, other),
{
    assert(first_named(profiles, name, at));
    lemma_lookup(profiles, name, at);
    assert forall|other: int| other != at implies !first_named(profiles, name, other) by {
        if first_named(profiles, name, other) {
            assert(named(profiles, name, other));
            assert(named(profiles, name, at));
        }
    }
}

/// A look-up finds nothing where no profile is called `name`.
pub proof fn law_lookup_finds_no_other(profiles: Seq<ProfileView>, name: Seq<char>)
    requires
        forall|at: int| 0 <= at < profiles.len() ==> profiles[at].name != name,
    ensures
        lookup(profiles, name) is None,
        !has_profile(profiles, name),
        forall|at: int| !first_named(profiles, name, at),
{
}

/// Each provider type is shown under its own name.
pub proof fn law_provider_types_are_told_apart(provider_type: ProviderType)
    ensures
        provider_type is DirectAnthropic <==> provider_type.label_text() == "DirectAnthropic"@,
        provider_type is OpenAICompatible <==> provider_type.label_text() == "OpenAICompatible"@,
        provider_type is OpenAIResponses <==> provider_type.label_text() == "OpenAIResponses"@,
{
    reveal_strlit("DirectAnthropic");
    reveal_strlit("OpenAICompatible");
    reveal_strlit("OpenAIResponses");
    assert("DirectAnthropic"@[0] != "OpenAICompatible"@[0]);
    assert("DirectAnthropic"@[0] != "OpenAIResponses"@[0]);
    assert("OpenAICompatible"@.len() != "OpenAIResponses"@.len());
}

/// In a blank profile nothing is said: its texts and lists are empty, it has no key in the keyring,
/// no token and no models of its own; and it is enabled.
pub proof fn law_blank_profile_says_nothing()
    ensures
        blank_profile().name.len() == 0,
        blank_profile().base_url.len() == 0,
        blank_profile().api_key.len() == 0,
        blank_profile().api_key_keyring is None,
        blank_profile().default_model.len() == 0,
        blank_profile().auth_type == AuthType::ApiKey,
        blank_profile().oauth_provider is None,
        blank_profile().models.haiku is None,
        blank_profile().models.sonnet is None,
        blank_profile().models.opus is None,
        blank_profile().backup_providers.len() == 0,
        blank_profile().custom_headers.len() == 0,
        blank_profile().extra_env.len() == 0,
        blank_profile().enabled,
{
}

} // verus!
