//! Asking a provider whether it can be reached.
//!
//! The caller reads credentials, sends requests and measures time; each function here takes what
//! came of that and says what to do next.
use crate::config::{
    AuthType, OAuthProvider, OAuthProviderView, ProfileConfig, ProfileView,
    ProviderType,
};
use crate::outside::{json_string, status_text, write_json_string, write_status};
use crate::text::{
    decimal, decimal_text, law_trailing_slashes, optional_text, trim_end_slashes,
    without_trailing_slashes,
};
use crate::text_map::{
    entry_at, has_key, law_key_finds_its_value, pair_texts, value_of, EntryView,
};
use vstd::prelude::*;

verus! {

/// How long a probe may take, in seconds.
pub const PROBE_TIMEOUT_SECS: u64 = 10;

/// How many seconds before its end a token counts as expired.
pub const TOKEN_MARGIN_SECS: i64 = 60;

/// The verb of a request.
#[derive(Clone, Copy, Debug, PartialEq, Eq, Structural)]
pub enum ProbeMethod {
    Get,
    Post,
}

/// A request to send to a provider. The headers are added in their order, and none replaces
/// another.
#[derive(Debug)]
pub struct ProbeRequest {
    pub method: ProbeMethod,
    pub url: String,
    pub headers: Vec<(String, String)>,
    pub body: Option<String>,
}

/// What a [`ProbeRequest`] says.
#[verifier::ext_equal]
pub struct RequestView {
    pub method: ProbeMethod,
    pub url: Seq<char>,
    pub headers: Seq<EntryView>,
    pub body: Option<Seq<char>>,
}

impl View for ProbeRequest {
    type V = RequestView;

    open spec fn view(&self) -> RequestView {
        RequestView {
            method: self.method,
            url: self.url@,
            headers: pair_texts(self.headers@),
            body: optional_text(self.body),
        }
    }
}

/// The address that a probe asks, whatever number of `/` the base URL ends with.
pub open spec fn endpoint(provider_type: ProviderType, base_url: Seq<char>) -> Seq<char> {
    without_trailing_slashes(base_url) + (match provider_type {
        ProviderType::DirectAnthropic => "/v1/models"@,
        ProviderType::OpenAICompatible => "/models"@,
        ProviderType::OpenAIResponses => "/responses"@,
    })
}

/// The JSON document that a probe of the responses protocol sends, given the JSON text of the
/// model's name: a message that asks for a reply, streamed and not stored.
pub open spec fn responses_document(model_json: Seq<char>) -> Seq<char> {
    "{\"input\":[{\"content\":[{\"text\":\"Reply with OK.\",\"type\":\"input_text\"}],\"role\":\"user\",\"type\":\"message\"}],\"instructions\":\"You are a concise connectivity test assistant.\",\"model\":"@
        + model_json + ",\"store\":false,\"stream\":true}"@
}

/// Writes the JSON document of a responses probe round the JSON text of the model's name.
pub fn responses_body(model_json: &str) -> (result: String)
    ensures
        result@ == responses_document(model_json@),
{
    let mut text: String = "{\"input\":[{\"content\":[{\"text\":\"Reply with OK.\",\"type\":\"input_text\"}],\"role\":\"user\",\"type\":\"message\"}],\"instructions\":\"You are a concise connectivity test assistant.\",\"model\":".to_owned();
    text.append(model_json);
    text.append(",\"store\":false,\"stream\":true}");
    text
}

/// The headers that a profile's protocol and key call for.
pub open spec fn protocol_headers(profile: ProfileView) -> Seq<EntryView> {
    let bearer = if profile.api_key.len() == 0 {
        Seq::empty()
    } else {
        seq![("Authorization"@, "Bearer "@ + profile.api_key)]
    };
    match profile.provider_type {
        ProviderType::DirectAnthropic => if profile.api_key.len() == 0 {
            Seq::empty()
        } else {
            seq![("x-api-key"@, profile.api_key), ("anthropic-version"@, "2023-06-01"@)]
        },
        ProviderType::OpenAICompatible => bearer,
        ProviderType::OpenAIResponses => seq![("Content-Type"@, "application/json"@)] + bearer + (
        match value_of(profile.extra_env, "CHATGPT_ACCOUNT_ID"@) {
            Some(account) => seq![("ChatGPT-Account-ID"@, account)],
            None => Seq::empty(),
        }),
    }
}

/// The request that probes the provider of a profile.
pub open spec fn probe_of(profile: ProfileView) -> RequestView {
    RequestView {
        method: if profile.provider_type == ProviderType::OpenAIResponses {
            ProbeMethod::Post
        } else {
            ProbeMethod::Get
        },
        url: endpoint(profile.provider_type, profile.base_url),
        headers: protocol_headers(profile) + profile.custom_headers,
        body: if profile.provider_type == ProviderType::OpenAIResponses {
            Some(responses_document(json_string(profile.default_model)))
        } else {
            None
        },
    }
}

fn push_header(headers: &mut Vec<(String, String)>, key: &str, value: &str)
    ensures
        pair_texts(final(headers)@) == pair_texts(old(headers)@).push((key@, value@)),
{
    headers.push((key.to_owned(), value.to_owned()));
    assert(pair_texts(headers@) =~= pair_texts(old(headers)@).push((key@, value@)));
}

fn push_bearer(headers: &mut Vec<(String, String)>, api_key: &String)
    ensures
        pair_texts(final(headers)@) == (if api_key@.len() == 0 {
            pair_texts(old(headers)@)
        } else {
            pair_texts(old(headers)@).push(("Authorization"@, "Bearer "@ + api_key@))
        }),
{
    if !api_key.as_str().is_empty() {
        let mut value: String = "Bearer ".to_owned();
        value.append(api_key.as_str());
        push_header(headers, "Authorization", value.as_str());
    }
}

/// Adds the custom headers of a profile to a request, behind those that it has.
pub fn apply_custom_headers(request: ProbeRequest, profile: &ProfileConfig) -> (result:
    ProbeRequest)
    ensures
        result@ == (RequestView {
            headers: request@.headers + profile@.custom_headers,
            ..request@
        }),
{
    let ProbeRequest { method, url, headers, body } = request;
    let ghost custom = profile@.custom_headers;
    let ghost before = pair_texts(headers@);
    let mut headers: Vec<(String, String)> = headers;
    let mut at: usize = 0;
    assert(before + custom.take(0) =~= before);
    while at < profile.custom_headers.len()
        invariant
            at <= custom.len(),
            custom == profile.custom_headers@,
            pair_texts(headers@) == before + custom.take(at as int),
        decreases custom.len() - at,
    {
        push_header(
            &mut headers,
            profile.custom_headers.key(at).as_str(),
            profile.custom_headers.value(at).as_str(),
        );
        assert(custom.take(at + 1) =~= custom.take(at as int).push(custom[at as int]));
        assert(before + custom.take(at + 1) =~= (before + custom.take(at as int)).push(
            custom[at as int],
        ));
        at = at + 1;
    }
    assert(custom.take(at as int) =~= custom);
    ProbeRequest { method, url, headers, body }
}

/// Builds the request that probes the provider of a profile.
pub fn probe_request(profile: &ProfileConfig) -> (result: ProbeRequest)
    ensures
        result@ == probe_of(profile@),
{
    let mut url: String = trim_end_slashes(profile.base_url.as_str());
    let mut headers: Vec<(String, String)> = Vec::new();
    assert(pair_texts(headers@) =~= Seq::empty());
    let request = match profile.provider_type {
        ProviderType::DirectAnthropic => {
            url.append("/v1/models");
            if !profile.api_key.as_str().is_empty() {
                push_header(&mut headers, "x-api-key", profile.api_key.as_str());
                push_header(&mut headers, "anthropic-version", "2023-06-01");
            }
            ProbeRequest { method: ProbeMethod::Get, url, headers, body: None }
        },
        ProviderType::OpenAICompatible => {
            url.append("/models");
            push_bearer(&mut headers, &profile.api_key);
            ProbeRequest { method: ProbeMethod::Get, url, headers, body: None }
        },
        ProviderType::OpenAIResponses => {
            url.append("/responses");
            let model_json: String = write_json_string(profile.default_model.as_str());
            let body: String = responses_body(model_json.as_str());
            push_header(&mut headers, "Content-Type", "application/json");
            push_bearer(&mut headers, &profile.api_key);
            match profile.extra_env.get("CHATGPT_ACCOUNT_ID") {
                Some(account) => {
                    push_header(&mut headers, "ChatGPT-Account-ID", account.as_str());
                },
                None => {},
            }
            ProbeRequest { method: ProbeMethod::Post, url, headers, body: Some(body) }
        },
    };
    assert(request@.headers =~= protocol_headers(profile@));
    let result = apply_custom_headers(request, profile);
    assert(result@ =~= probe_of(profile@));
    result
}

/// Why a probe came to nothing.
#[derive(Debug, PartialEq, Eq)]
pub enum ConnectError {
    /// The profile of this name wants a token and does not say from whom.
    MissingProvider(String),
    /// The token for the profile of this name is no longer good and cannot be renewed.
    TokenExpired(String),
    /// The provider answered with a failure: the status and the body of its answer.
    Http(String),
    /// Something that the caller did for the probe failed, in its own words.
    Failed(String),
}

/// What a [`ConnectError`] says.
pub enum ConnectErrorView {
    MissingProvider(Seq<char>),
    TokenExpired(Seq<char>),
    Http(Seq<char>),
    Failed(Seq<char>),
}

impl ConnectErrorView {
    /// The message that the user sees.
    pub open spec fn message_text(self) -> Seq<char> {
        match self {
            ConnectErrorView::MissingProvider(name) => "no oauth_provider for profile '"@ + name
                + "'"@,
            ConnectErrorView::TokenExpired(name) => "OAuth token expired for '"@ + name
                + "' and cannot be refreshed automatically"@,
            ConnectErrorView::Http(text) => text,
            ConnectErrorView::Failed(text) => text,
        }
    }
}

impl View for ConnectError {
    type V = ConnectErrorView;

    open spec fn view(&self) -> ConnectErrorView {
        match self {
            ConnectError::MissingProvider(name) => ConnectErrorView::MissingProvider(name@),
            ConnectError::TokenExpired(name) => ConnectErrorView::TokenExpired(name@),
            ConnectError::Http(text) => ConnectErrorView::Http(text@),
            ConnectError::Failed(text) => ConnectErrorView::Failed(text@),
        }
    }
}

impl ConnectError {
    /// The message that the user sees.
    pub fn message(&self) -> (result: String)
        ensures
            result@ == self@.message_text(),
    {
        match self {
            ConnectError::MissingProvider(name) => {
                let mut text: String = "no oauth_provider for profile '".to_owned();
                text.append(name.as_str());
                text.append("'");
                text
            },
            ConnectError::TokenExpired(name) => {
                let mut text: String = "OAuth token expired for '".to_owned();
                text.append(name.as_str());
                text.append("' and cannot be refreshed automatically");
                text
            },
            ConnectError::Http(text) => text.clone(),
            ConnectError::Failed(text) => text.clone(),
        }
    }
}

/// What to do next for a probe. `T` is the type of the tokens, which are passed through unread.
pub enum ConnectStep<T> {
    /// Normalize the provider that this names, and answer with [`ProviderWait::normalized`].
    Normalize(ProviderWait),
    /// Load the credential that this asks for, and answer with [`CredentialWait::loaded`].
    Load(CredentialWait),
    /// Renew the token that this asks for, and answer with [`RefreshWait::refreshed`].
    Refresh(RefreshWait),
    /// Put the token into the profile, and answer with [`ApplyWait::applied`].
    Apply(ApplyWait<T>),
    /// Send the request, and answer with [`answered`].
    Send(ProbeRequest),
    /// Stop: the probe has failed.
    Fail(ConnectError),
}

/// What a [`ConnectStep`] says.
pub enum ConnectStepView<T> {
    Normalize { name: Seq<char>, provider: OAuthProviderView },
    Load { name: Seq<char>, provider: OAuthProviderView },
    Refresh { refresh_token: Seq<char> },
    Apply { token: T },
    Send(RequestView),
    Fail(ConnectErrorView),
}

impl<T> View for ConnectStep<T> {
    type V = ConnectStepView<T>;

    open spec fn view(&self) -> ConnectStepView<T> {
        match self {
            ConnectStep::Normalize(wait) => ConnectStepView::Normalize {
                name: wait@.0,
                provider: wait@.1,
            },
            ConnectStep::Load(wait) => ConnectStepView::Load {
                name: wait@.0,
                provider: wait@.1,
            },
            ConnectStep::Refresh(wait) => ConnectStepView::Refresh { refresh_token: wait@ },
            ConnectStep::Apply(wait) => ConnectStepView::Apply { token: wait@ },
            ConnectStep::Send(request) => ConnectStepView::Send(request@),
            ConnectStep::Fail(error) => ConnectStepView::Fail(error@),
        }
    }
}

/// A probe that waits for the provider of its profile in normalized form.
pub struct ProviderWait {
    name: String,
    provider: OAuthProvider,
}

impl View for ProviderWait {
    type V = (Seq<char>, OAuthProviderView);

    closed spec fn view(&self) -> (Seq<char>, OAuthProviderView) {
        (self.name@, self.provider@)
    }
}

/// A probe that waits for a credential.
pub struct CredentialWait {
    name: String,
    provider: OAuthProvider,
}

impl View for CredentialWait {
    type V = (Seq<char>, OAuthProviderView);

    closed spec fn view(&self) -> (Seq<char>, OAuthProviderView) {
        (self.name@, self.provider@)
    }
}

/// A probe that waits for its token to be renewed.
pub struct RefreshWait {
    refresh_token: String,
}

impl View for RefreshWait {
    type V = Seq<char>;

    closed spec fn view(&self) -> Seq<char> {
        self.refresh_token@
    }
}

/// A probe that has a good token and waits for it to be put into the profile.
pub struct ApplyWait<T> {
    token: T,
}

impl<T> View for ApplyWait<T> {
    type V = T;

    closed spec fn view(&self) -> T {
        self.token
    }
}

/// A credential that was loaded: a token, and what is known of it.
#[derive(Debug)]
pub struct Credential<T> {
    pub token: T,
    /// Whether the token ends within [`TOKEN_MARGIN_SECS`].
    pub expired: bool,
    /// What the token can be renewed with.
    pub refresh_token: Option<String>,
}

/// The first step of the probe of a profile.
pub open spec fn first_step<T>(profile: ProfileView) -> ConnectStepView<T> {
    match (profile.auth_type, profile.oauth_provider) {
        (AuthType::ApiKey, _) => ConnectStepView::Send(probe_of(profile)),
        (AuthType::OAuth, Some(provider)) => ConnectStepView::Normalize {
            name: profile.name,
            provider,
        },
        (AuthType::OAuth, None) => ConnectStepView::Fail(
            ConnectErrorView::MissingProvider(profile.name),
        ),
    }
}

/// Whether a provider renews the tokens that it issued.
pub open spec fn renews(provider: OAuthProviderView) -> bool {
    provider is Chatgpt || provider is Openai
}

/// The step after the provider was normalized for the profile called `name`.
pub open spec fn step_after_normalize<T>(
    name: Seq<char>,
    provider: OAuthProviderView,
) -> ConnectStepView<T> {
    ConnectStepView::Load { name, provider }
}

/// The step after a credential of `provider` was loaded, or was not, for the profile called
/// `name`. A token that has not expired is used as it was loaded.
pub open spec fn step_after_load<T>(
    name: Seq<char>,
    provider: OAuthProviderView,
    outcome: Result<Credential<T>, String>,
) -> ConnectStepView<T> {
    match outcome {
        Err(text) => ConnectStepView::Fail(ConnectErrorView::Failed(text@)),
        Ok(credential) => if !credential.expired {
            ConnectStepView::Apply { token: credential.token }
        } else {
            match credential.refresh_token {
                Some(refresh_token) if renews(provider) => ConnectStepView::Refresh {
                    refresh_token: refresh_token@,
                },
                _ => ConnectStepView::Fail(ConnectErrorView::TokenExpired(name)),
            }
        },
    }
}

/// The step after a token was renewed, or could not be. The new token is used.
pub open spec fn step_after_refresh<T>(outcome: Result<T, String>) -> ConnectStepView<T> {
    match outcome {
        Ok(token) => ConnectStepView::Apply { token },
        Err(text) => ConnectStepView::Fail(ConnectErrorView::Failed(text@)),
    }
}

/// The step after a token was put into a profile.
pub open spec fn step_after_apply<T>(profile: ProfileView) -> ConnectStepView<T> {
    ConnectStepView::Send(probe_of(profile))
}

/// Begins the probe of a profile.
pub fn test_connectivity<T>(profile: &ProfileConfig) -> (step: ConnectStep<T>)
    ensures
        step@ == first_step::<T>(profile@),
{
    match profile.auth_type {
        AuthType::ApiKey => ConnectStep::Send(probe_request(profile)),
        AuthType::OAuth => match &profile.oauth_provider {
            Some(provider) => ConnectStep::Normalize(
                ProviderWait { name: profile.name.clone(), provider: provider.clone() },
            ),
            None => ConnectStep::Fail(ConnectError::MissingProvider(profile.name.clone())),
        },
    }
}

impl ProviderWait {
    /// The provider to normalize, as the profile names it.
    pub fn provider(&self) -> (result: &OAuthProvider)
        ensures
            result@ == self@.1,
    {
        &self.provider
    }

    /// Goes on with the provider in normalized form: its credential is loaded, and it decides on
    /// a renewal.
    pub fn normalized<T>(self, provider: OAuthProvider) -> (step: ConnectStep<T>)
        ensures
            step@ == step_after_normalize::<T>(self@.0, provider@),
    {
        ConnectStep::Load(CredentialWait { name: self.name, provider })
    }
}

impl CredentialWait {
    /// The provider whose credential to load.
    pub fn provider(&self) -> (result: &OAuthProvider)
        ensures
            result@ == self@.1,
    {
        &self.provider
    }

    /// Goes on once the credential is there, or could not be had.
    pub fn loaded<T>(self, outcome: Result<Credential<T>, String>) -> (step: ConnectStep<T>)
        ensures
            step@ == step_after_load(self@.0, self@.1, outcome),
    {
        match outcome {
            Err(text) => ConnectStep::Fail(ConnectError::Failed(text)),
            Ok(credential) => {
                let Credential { token, expired, refresh_token } = credential;
                if !expired {
                    return ConnectStep::Apply(ApplyWait { token });
                }
                let renewable: bool = match &self.provider {
                    OAuthProvider::Chatgpt => true,
                    OAuthProvider::Openai => true,
                    OAuthProvider::Other(_) => false,
                };
                match refresh_token {
                    Some(refresh_token) => {
                        if renewable {
                            ConnectStep::Refresh(RefreshWait { refresh_token })
                        } else {
                            ConnectStep::Fail(ConnectError::TokenExpired(self.name))
                        }
                    },
                    None => ConnectStep::Fail(ConnectError::TokenExpired(self.name)),
                }
            },
        }
    }
}

impl RefreshWait {
    /// What to renew the token with.
    pub fn refresh_token(&self) -> (result: &String)
        ensures
            result@ == self@,
    {
        &self.refresh_token
    }

    /// Goes on once there is a new token, or it could not be had.
    pub fn refreshed<T>(self, outcome: Result<T, String>) -> (step: ConnectStep<T>)
        ensures
            step@ == step_after_refresh(outcome),
    {
        match outcome {
            Ok(token) => ConnectStep::Apply(ApplyWait { token }),
            Err(text) => ConnectStep::Fail(ConnectError::Failed(text)),
        }
    }
}

impl<T> ApplyWait<T> {
    /// The token to put into the profile.
    pub fn token(&self) -> (result: &T)
        ensures
            *result == self@,
    {
        &self.token
    }

    /// Goes on with the profile that the token was put into.
    pub fn applied(self, profile: &ProfileConfig) -> (step: ConnectStep<T>)
        ensures
            step@ == step_after_apply::<T>(profile@),
    {
        ConnectStep::Send(probe_request(profile))
    }
}

/// The status code of an answer, a number of three digits.
#[derive(Debug)]
pub struct HttpStatus {
    code: u16,
}

impl View for HttpStatus {
    type V = u16;

    closed spec fn view(&self) -> u16 {
        self.code
    }
}

impl HttpStatus {
    #[verifier::type_invariant]
    spec fn well_formed(self) -> bool {
        100 <= self.code <= 999
    }

    /// The status with the number `code`, if there is one.
    pub fn new(code: u16) -> (result: Option<HttpStatus>)
        ensures
            match result {
                Some(status) => 100 <= code <= 999 && status@ == code,
                None => !(100 <= code <= 999),
            },
    {
        if 100 <= code && code <= 999 {
            Some(HttpStatus { code })
        } else {
            None
        }
    }

    /// Tells whether the status stands for success.
    pub fn is_success(&self) -> (result: bool)
        ensures
            result == is_success(self@),
    {
        200 <= self.code && self.code < 300
    }

    /// The number of the status and its reason phrase.
    pub fn text(&self) -> (result: String)
        ensures
            result@ == status_text(self@),
    {
        proof {
            use_type_invariant(self);
        }
        write_status(self.code)
    }
}

/// Whether a status code stands for success.
pub open spec fn is_success(status: u16) -> bool {
    200 <= status < 300
}

/// What to do once a request was answered.
pub enum AnswerStep {
    /// The probe has succeeded, and took this many milliseconds.
    Reached(u128),
    /// Read the body of the answer, and go on with [`BodyWait::read`].
    ReadBody(BodyWait),
    /// Stop: the probe has failed.
    Fail(ConnectError),
}

/// What an [`AnswerStep`] says.
pub enum AnswerStepView {
    Reached(u128),
    ReadBody(u16),
    Fail(ConnectErrorView),
}

/// A probe that was answered with a failure and waits for the body of the answer.
pub struct BodyWait {
    status: HttpStatus,
}

impl View for BodyWait {
    type V = u16;

    closed spec fn view(&self) -> u16 {
        self.status@
    }
}

impl View for AnswerStep {
    type V = AnswerStepView;

    open spec fn view(&self) -> AnswerStepView {
        match self {
            AnswerStep::Reached(millis) => AnswerStepView::Reached(*millis),
            AnswerStep::ReadBody(wait) => AnswerStepView::ReadBody(wait@),
            AnswerStep::Fail(error) => AnswerStepView::Fail(error@),
        }
    }
}

/// The step after the request was answered with a status, or could not be sent.
pub open spec fn step_after_answer(
    outcome: Result<HttpStatus, String>,
    millis: u128,
) -> AnswerStepView {
    match outcome {
        Ok(status) => if is_success(status@) {
            AnswerStepView::Reached(millis)
        } else {
            AnswerStepView::ReadBody(status@)
        },
        Err(text) => AnswerStepView::Fail(ConnectErrorView::Failed(text@)),
    }
}

/// Goes on once the request was answered with a status, or could not be sent. `millis` is the time
/// that it took.
pub fn answered(outcome: Result<HttpStatus, String>, millis: u128) -> (step: AnswerStep)
    ensures
        step@ == step_after_answer(outcome, millis),
{
    match outcome {
        Ok(status) => {
            if status.is_success() {
                AnswerStep::Reached(millis)
            } else {
                AnswerStep::ReadBody(BodyWait { status })
            }
        },
        Err(text) => AnswerStep::Fail(ConnectError::Failed(text)),
    }
}

/// The message for an answer that was a failure, given the text of its status.
pub open spec fn http_message(status: Seq<char>, body: Seq<char>) -> Seq<char> {
    "HTTP "@ + status + ": "@ + body
}

/// Writes the message for an answer that was a failure.
pub fn http_failure(status: &str, body: &str) -> (result: String)
    ensures
        result@ == http_message(status@, body@),
{
    let mut text: String = "HTTP ".to_owned();
    text.append(status);
    text.append(": ");
    text.append(body);
    text
}

/// The error that an answer with this status and this body, as far as it could be read, ends in.
pub open spec fn failed_answer(status: u16, body: Option<String>) -> ConnectErrorView {
    ConnectErrorView::Http(
        http_message(
            status_text(status),
            match body {
                Some(body) => body@,
                None => Seq::empty(),
            },
        ),
    )
}

impl BodyWait {
    /// Ends the probe with the body of the answer; one that could not be read counts as empty.
    pub fn read(self, body: Option<String>) -> (error: ConnectError)
        ensures
            error@ == failed_answer(self@, body),
    {
        let body: String = match body {
            Some(body) => body,
            None => String::new(),
        };
        let status: String = self.status.text();
        ConnectError::Http(http_failure(status.as_str(), body.as_str()))
    }
}

/// How a probe ended: the milliseconds that it took, or why it failed.
pub type ProbeOutcome = Result<u128, ConnectError>;

/// The line that tells how a probe ended.
pub open spec fn outcome_text(outcome: ProbeOutcome) -> Seq<char> {
    match outcome {
        Ok(millis) => "OK ("@ + decimal(millis as nat) + "ms)"@,
        Err(error) => "FAIL: "@ + error@.message_text(),
    }
}

/// Writes the line that tells how a probe ended.
pub fn outcome_line(outcome: &ProbeOutcome) -> (result: String)
    ensures
        result@ == outcome_text(*outcome),
{
    match outcome {
        Ok(millis) => {
            let mut text: String = "OK (".to_owned();
            text.append(decimal_text(*millis).as_str());
            text.append("ms)");
            text
        },
        Err(error) => {
            let mut text: String = "FAIL: ".to_owned();
            text.append(error.message().as_str());
            text
        },
    }
}

/// The address of a probe does not depend on how many `/` the base URL ends with.
pub proof fn law_trailing_slash_is_ignored(provider_type: ProviderType, base_url: Seq<char>)
    ensures
        endpoint(provider_type, base_url.push('/')) == endpoint(provider_type, base_url),
{
    assert(base_url.push('/').drop_last() =~= base_url);
}

/// Without a key, no header carries one.
pub proof fn law_no_key_no_credentials(profile: ProfileView)
    requires
        profile.api_key.len() == 0,
    ensures
        forall|i: int|
            0 <= i < protocol_headers(profile).len() ==> (#[trigger] protocol_headers(profile)[i]).0
                != "Authorization"@ && protocol_headers(profile)[i].0 != "x-api-key"@,
{
    reveal_strlit("Authorization");
    reveal_strlit("x-api-key");
    reveal_strlit("Content-Type");
    reveal_strlit("ChatGPT-Account-ID");
    let headers = protocol_headers(profile);
    assert forall|i: int| 0 <= i < headers.len() implies (#[trigger] headers[i]).0
        != "Authorization"@ && headers[i].0 != "x-api-key"@ by {
        assert(headers[i].0.len() == "Content-Type"@.len() || headers[i].0.len()
            == "ChatGPT-Account-ID"@.len());
    }
}

/// Every custom header of a profile is sent, behind the others and in its order.
pub proof fn law_custom_headers_are_sent(profile: ProfileView, i: int)
    requires
        0 <= i < profile.custom_headers.len(),
    ensures
        probe_of(profile).headers[protocol_headers(profile).len() + i] == profile.custom_headers[i],
        probe_of(profile).headers.len() == protocol_headers(profile).len()
            + profile.custom_headers.len(),
{
}

/// A profile that wants a token is not probed before one was loaded.
pub proof fn law_token_comes_first<T>(profile: ProfileView)
    requires
        profile.auth_type == AuthType::OAuth,
    ensures
        !(first_step::<T>(profile) is Send),
{
}

/// A token that was loaded when it had expired is not used: it is renewed where the provider does
/// so and there is something to renew it with, and else the probe fails.
pub proof fn law_expired_token_is_not_used<T>(
    name: Seq<char>,
    provider: OAuthProviderView,
    credential: Credential<T>,
)
    requires
        credential.expired,
    ensures
        step_after_load(name, provider, Ok(credential)) is Refresh || step_after_load(
            name,
            provider,
            Ok(credential),
        ) == ConnectStepView::<T>::Fail(ConnectErrorView::TokenExpired(name)),
        step_after_load(name, provider, Ok(credential)) is Refresh <==> (provider
            is Chatgpt || provider is Openai) && credential.refresh_token is Some,
{
}

/// Something that the caller did for a probe before the request was sent.
pub enum ConnectEvent<T> {
    Normalized(OAuthProviderView),
    Loaded(Result<Credential<T>, String>),
    Refreshed(Result<T, String>),
    Applied(ProfileView),
}

/// The step after an event. One that the step did not wait for changes nothing.
pub open spec fn step_after<T>(
    step: ConnectStepView<T>,
    event: ConnectEvent<T>,
) -> ConnectStepView<T> {
    match (step, event) {
        (ConnectStepView::Normalize { name, .. }, ConnectEvent::Normalized(provider)) => {
            step_after_normalize(name, provider)
        },
        (ConnectStepView::Load { name, provider }, ConnectEvent::Loaded(outcome)) => {
            step_after_load(name, provider, outcome)
        },
        (ConnectStepView::Refresh { .. }, ConnectEvent::Refreshed(outcome)) => {
            step_after_refresh(outcome)
        },
        (ConnectStepView::Apply { .. }, ConnectEvent::Applied(profile)) => step_after_apply(
            profile,
        ),
        _ => step,
    }
}

/// The step that the probe of a profile has come to after a row of events.
pub open spec fn steps_after<T>(
    profile: ProfileView,
    events: Seq<ConnectEvent<T>>,
) -> ConnectStepView<T>
    decreases events.len(),
{
    if events.len() == 0 {
        first_step(profile)
    } else {
        step_after(steps_after(profile, events.drop_last()), events.last())
    }
}

/// Whether the probe asked for a credential at `at`, and got one whose token had expired.
pub open spec fn expired_at<T>(
    profile: ProfileView,
    events: Seq<ConnectEvent<T>>,
    at: int,
) -> bool {
    &&& 0 <= at < events.len()
    &&& steps_after(profile, events.take(at)) is Load
    &&& events[at] matches ConnectEvent::Loaded(Ok(credential)) && credential.expired
}

/// Whether the probe asked for a credential at `at`, and got one whose token is `token` and had not
/// expired.
pub open spec fn fresh_at<T>(
    profile: ProfileView,
    events: Seq<ConnectEvent<T>>,
    token: T,
    at: int,
) -> bool {
    &&& 0 <= at < events.len()
    &&& steps_after(profile, events.take(at)) is Load
    &&& events[at] matches ConnectEvent::Loaded(Ok(credential)) && !credential.expired
        && credential.token == token
}

/// Whether the probe asked for a renewal at `at`, which brought `token`.
pub open spec fn renewed_at<T>(
    profile: ProfileView,
    events: Seq<ConnectEvent<T>>,
    token: T,
    at: int,
) -> bool {
    &&& 0 <= at < events.len()
    &&& steps_after(profile, events.take(at)) is Refresh
    &&& events[at] matches ConnectEvent::Refreshed(Ok(renewed)) && renewed == token
}

/// Whether `token` is good as far as the events tell: it was loaded before it expired, or a
/// renewal brought it after one was loaded that had expired.
pub open spec fn good_token<T>(
    profile: ProfileView,
    events: Seq<ConnectEvent<T>>,
    token: T,
) -> bool {
    ||| exists|at: int| fresh_at(profile, events, token, at)
    ||| exists|at: int, later: int|
        at < later && #[trigger] expired_at(profile, events, at) && #[trigger] renewed_at(
            profile,
            events,
            token,
            later,
        )
}

/// Whether `applied` is the profile that `token` was put into at `at`, when the probe asked for
/// that.
pub open spec fn applied_at<T>(
    profile: ProfileView,
    events: Seq<ConnectEvent<T>>,
    token: T,
    applied: ProfileView,
    at: int,
) -> bool {
    &&& 0 <= at < events.len()
    &&& steps_after(profile, events.take(at)) == (ConnectStepView::Apply { token })
    &&& events[at] == ConnectEvent::<T>::Applied(applied)
}

proof fn lemma_expired_stays<T>(profile: ProfileView, events: Seq<ConnectEvent<T>>, at: int)
    requires
        events.len() > 0,
        expired_at(profile, events.drop_last(), at),
    ensures
        expired_at(profile, events, at),
{
    assert(events.drop_last().take(at) =~= events.take(at));
}

proof fn lemma_good_token_stays<T>(profile: ProfileView, events: Seq<ConnectEvent<T>>, token: T)
    requires
        events.len() > 0,
        good_token(profile, events.drop_last(), token),
    ensures
        good_token(profile, events, token),
{
    let before = events.drop_last();
    if exists|at: int| fresh_at(profile, before, token, at) {
        let at = choose|at: int| fresh_at(profile, before, token, at);
        assert(before.take(at) =~= events.take(at));
        assert(fresh_at(profile, events, token, at));
    } else {
        let (at, later) = choose|at: int, later: int|
            at < later && #[trigger] expired_at(profile, before, at) && #[trigger] renewed_at(
                profile,
                before,
                token,
                later,
            );
        lemma_expired_stays(profile, events, at);
        assert(before.take(later) =~= events.take(later));
        assert(renewed_at(profile, events, token, later));
    }
}

/// Whatever comes of normalizing, loading and renewing: a token that is to be put into the profile
/// is a good one. It is the one that was loaded, or, where that had expired, the one that a renewal
/// brought.
pub proof fn law_token_to_apply_is_good<T>(profile: ProfileView, events: Seq<ConnectEvent<T>>)
    requires
        profile.auth_type == AuthType::OAuth,
    ensures
        steps_after(profile, events) matches ConnectStepView::Apply { token } ==> good_token(
            profile,
            events,
            token,
        ),
        steps_after(profile, events) is Refresh ==> exists|at: int|
            expired_at(profile, events, at),
    decreases events.len(),
{
    if events.len() > 0 {
        let before = events.drop_last();
        let last = events.len() - 1;
        law_token_to_apply_is_good(profile, before);
        assert(events.take(last) =~= before);
        match steps_after(profile, before) {
            ConnectStepView::Load { .. } => {
                if let ConnectEvent::Loaded(Ok(credential)) = events.last() {
                    if credential.expired {
                        assert(expired_at(profile, events, last));
                    } else {
                        assert(fresh_at(profile, events, credential.token, last));
                    }
                }
            },
            ConnectStepView::Refresh { .. } => {
                let at = choose|at: int| expired_at(profile, before, at);
                lemma_expired_stays(profile, events, at);
                if let ConnectEvent::Refreshed(Ok(token)) = events.last() {
                    assert(renewed_at(profile, events, token, last));
                }
            },
            ConnectStepView::Apply { token } => {
                lemma_good_token_stays(profile, events, token);
            },
            _ => {},
        }
    }
}

proof fn lemma_sent_with<T>(profile: ProfileView, events: Seq<ConnectEvent<T>>)
    requires
        profile.auth_type == AuthType::OAuth,
    ensures
        steps_after(profile, events) matches ConnectStepView::Send(request) ==> exists|
            token: T,
            applied: ProfileView,
            at: int,
        | #[trigger]
            applied_at(profile, events, token, applied, at) && request == probe_of(applied),
    decreases events.len(),
{
    if events.len() > 0 {
        let before = events.drop_last();
        let last = events.len() - 1;
        lemma_sent_with(profile, before);
        assert(events.take(last) =~= before);
        match steps_after(profile, before) {
            ConnectStepView::Apply { token } => {
                if let ConnectEvent::Applied(applied) = events.last() {
                    assert(applied_at(profile, events, token, applied, last));
                }
            },
            ConnectStepView::Send(request) => {
                let (token, applied, at) = choose|token: T, applied: ProfileView, at: int| #[trigger]
                    applied_at(profile, before, token, applied, at) && request == probe_of(applied);
                assert(before.take(at) =~= events.take(at));
                assert(applied_at(profile, events, token, applied, at));
            },
            _ => {},
        }
    }
}

/// Whatever comes of normalizing, loading and renewing: the request for a profile that wants a
/// token is sent only once a good token was put into a profile, and it is the request for that
/// profile.
pub proof fn law_request_needs_good_token<T>(profile: ProfileView, events: Seq<ConnectEvent<T>>)
    requires
        profile.auth_type == AuthType::OAuth,
    ensures
        steps_after(profile, events) matches ConnectStepView::Send(request) ==> exists|
            token: T,
            applied: ProfileView,
            at: int,
        | #[trigger]
            applied_at(profile, events, token, applied, at) && good_token(
                profile,
                events.take(at),
                token,
            ) && request == probe_of(applied),
{
    lemma_sent_with(profile, events);
    if let ConnectStepView::Send(request) = steps_after(profile, events) {
        let (token, applied, at) = choose|token: T, applied: ProfileView, at: int| #[trigger]
            applied_at(profile, events, token, applied, at) && request == probe_of(applied);
        law_token_to_apply_is_good(profile, events.take(at));
    }
}

/// A probe that has failed stays failed: whatever comes later, no request is sent.
pub proof fn law_failure_is_final<T>(
    profile: ProfileView,
    events: Seq<ConnectEvent<T>>,
    more: Seq<ConnectEvent<T>>,
)
    requires
        steps_after(profile, events) is Fail,
    ensures
        steps_after(profile, events + more) == steps_after(profile, events),
    decreases more.len(),
{
    if more.len() == 0 {
        assert(events + more =~= events);
    } else {
        law_failure_is_final(profile, events, more.drop_last());
        assert((events + more).drop_last() =~= events + more.drop_last());
    }
}

/// A renewal is asked for at most once: after it was answered, no step asks for another.
pub proof fn law_renewal_comes_once<T>(
    profile: ProfileView,
    events: Seq<ConnectEvent<T>>,
    answer: Result<T, String>,
    more: Seq<ConnectEvent<T>>,
)
    requires
        steps_after(profile, events) is Refresh,
    ensures
        !(steps_after(
            profile,
            events.push(ConnectEvent::Refreshed(answer)) + more,
        ) is Refresh),
{
    lemma_after_renewal(profile, events, answer, more);
}

proof fn lemma_after_renewal<T>(
    profile: ProfileView,
    events: Seq<ConnectEvent<T>>,
    answer: Result<T, String>,
    more: Seq<ConnectEvent<T>>,
)
    requires
        steps_after(profile, events) is Refresh,
    ensures
        ({
            let step = steps_after(profile, events.push(ConnectEvent::Refreshed(answer)) + more);
            step is Apply || step is Send || step is Fail
        }),
    decreases more.len(),
{
    let answered = events.push(ConnectEvent::Refreshed(answer));
    if more.len() == 0 {
        assert(answered + more =~= answered);
        assert(answered.drop_last() =~= events);
    } else {
        lemma_after_renewal(profile, events, answer, more.drop_last());
        assert((answered + more).drop_last() =~= answered + more.drop_last());
    }
}

/// How a credential decides on a probe. Its token is renewed if and only if it has expired, the
/// provider in normalized form renews tokens and there is something to renew it with, and then
/// with just that. The token to put into the profile is the renewed one if there was a renewal,
/// and else the one that was loaded. Where the renewal fails, the probe fails with its error.
pub proof fn law_token_of_a_probe<T>(
    profile: ProfileView,
    provider: OAuthProviderView,
    credential: Credential<T>,
    answer: Result<T, String>,
)
    requires
        profile.auth_type == AuthType::OAuth,
        profile.oauth_provider is Some,
    ensures
        ({
            let events = seq![
                ConnectEvent::Normalized(provider),
                ConnectEvent::Loaded(Ok(credential)),
            ];
            let step = steps_after(profile, events);
            let next = steps_after(profile, events.push(ConnectEvent::Refreshed(answer)));
            &&& step is Refresh <==> credential.expired && (provider is Chatgpt || provider is Openai)
                && credential.refresh_token is Some
            &&& step matches ConnectStepView::Refresh { refresh_token } ==> {
                &&& credential.refresh_token matches Some(text) && refresh_token == text@
                &&& answer matches Ok(token) ==> next == (ConnectStepView::Apply { token })
                &&& answer matches Err(text) ==> next == ConnectStepView::<T>::Fail(
                    ConnectErrorView::Failed(text@),
                )
            }
            &&& !credential.expired ==> step == (ConnectStepView::Apply { token: credential.token })
            &&& credential.expired && !(step is Refresh) ==> step == ConnectStepView::<T>::Fail(
                ConnectErrorView::TokenExpired(profile.name),
            )
        }),
{
    let none = Seq::<ConnectEvent<T>>::empty();
    let first = none.push(ConnectEvent::Normalized(provider));
    let events = seq![ConnectEvent::Normalized(provider), ConnectEvent::Loaded(Ok(credential))];
    assert(first.drop_last() =~= none);
    assert(events.drop_last() =~= first);
    assert(events.push(ConnectEvent::Refreshed(answer)).drop_last() =~= events);
    assert(steps_after(profile, none) == first_step::<T>(profile));
    assert(steps_after(profile, first) == step_after(
        first_step::<T>(profile),
        ConnectEvent::Normalized(provider),
    ));
}

/// A profile with a key of its own is probed at once, with its own request, and no event changes
/// that.
pub proof fn law_key_needs_no_token<T>(profile: ProfileView, events: Seq<ConnectEvent<T>>)
    requires
        profile.auth_type == AuthType::ApiKey,
    ensures
        steps_after(profile, events) == ConnectStepView::<T>::Send(probe_of(profile)),
    decreases events.len(),
{
    if events.len() > 0 {
        law_key_needs_no_token(profile, events.drop_last());
    }
}

/// The key of a profile is sent wherever there is one, whatever else the profile says: as a bearer
/// token to providers that speak a protocol of OpenAI, and in a header of its own, beside the version
/// of the protocol, to those that speak Anthropic's.
pub proof fn law_key_is_sent(profile: ProfileView)
    requires
        profile.api_key.len() > 0,
    ensures
        ({
            let headers = probe_of(profile).headers;
            if profile.provider_type == ProviderType::DirectAnthropic {
                &&& headers.contains(("x-api-key"@, profile.api_key))
                &&& headers.contains(("anthropic-version"@, "2023-06-01"@))
            } else {
                headers.contains(("Authorization"@, "Bearer "@ + profile.api_key))
            }
        }),
{
    let headers = probe_of(profile).headers;
    match profile.provider_type {
        ProviderType::DirectAnthropic => {
            assert(headers[0] == ("x-api-key"@, profile.api_key));
            assert(headers[1] == ("anthropic-version"@, "2023-06-01"@));
        },
        ProviderType::OpenAICompatible => {
            assert(headers[0] == ("Authorization"@, "Bearer "@ + profile.api_key));
        },
        ProviderType::OpenAIResponses => {
            assert(headers[1] == ("Authorization"@, "Bearer "@ + profile.api_key));
        },
    }
}

/// Which headers a probe carries before the custom ones, which come last and unchanged: the type of
/// its body over the responses protocol; the key, where there is one, in the form that the protocol
/// asks for; and over the responses protocol the account, just where the environment of the profile
/// names one. There are no others, and none comes twice.
pub proof fn law_headers_of_a_probe(profile: ProfileView, header: EntryView)
    requires
        forall|i: int, j: int|
            0 <= i < j < profile.extra_env.len() ==> profile.extra_env[i].0
                != profile.extra_env[j].0,
    ensures
        ({
            let headers = probe_of(profile).headers;
            let count = headers.len() - profile.custom_headers.len();
            let own = headers.take(count);
            let responses = profile.provider_type == ProviderType::OpenAIResponses;
            let anthropic = profile.provider_type == ProviderType::DirectAnthropic;
            let has_key = profile.api_key.len() > 0;
            &&& count >= 0
            &&& headers.skip(count) == profile.custom_headers
            &&& own.no_duplicates()
            &&& own.contains(header) <==> {
                ||| responses && header == ("Content-Type"@, "application/json"@)
                ||| has_key && !anthropic && header == (
                    "Authorization"@,
                    "Bearer "@ + profile.api_key,
                )
                ||| has_key && anthropic && header == ("x-api-key"@, profile.api_key)
                ||| has_key && anthropic && header == ("anthropic-version"@, "2023-06-01"@)
                ||| responses && exists|i: int|
                    0 <= i < profile.extra_env.len() && (#[trigger] profile.extra_env[i]).0
                        == "CHATGPT_ACCOUNT_ID"@ && header == (
                        "ChatGPT-Account-ID"@,
                        profile.extra_env[i].1,
                    )
            }
        }),
{
    reveal_strlit("Content-Type");
    reveal_strlit("Authorization");
    reveal_strlit("ChatGPT-Account-ID");
    reveal_strlit("x-api-key");
    reveal_strlit("anthropic-version");
    let env = profile.extra_env;
    let name = "CHATGPT_ACCOUNT_ID"@;
    let own = protocol_headers(profile);
    let headers = probe_of(profile).headers;
    let count = headers.len() - profile.custom_headers.len();
    assert(headers.take(count) =~= own);
    assert(headers.skip(count) =~= profile.custom_headers);
    assert forall|i: int, j: int| 0 <= i < own.len() && 0 <= j < own.len() && i != j implies own[i]
        != own[j] by {
        assert(own[i].0.len() != own[j].0.len());
    }
    if has_key(env, name) {
        let at = choose|at: int| entry_at(env, name, at);
        assert(entry_at(env, name, at));
        law_key_finds_its_value(env, name, at);
        assert(value_of(env, name) == Some(env[at].1));
        assert forall|i: int| 0 <= i < env.len() && (#[trigger] env[i]).0 == name implies i == at by {
        }
    } else {
        assert forall|i: int| 0 <= i < env.len() implies (#[trigger] env[i]).0 != name by {
            assert(!entry_at(env, name, i));
        }
    }
    let bearer = ("Authorization"@, "Bearer "@ + profile.api_key);
    let content = ("Content-Type"@, "application/json"@);
    match profile.provider_type {
        ProviderType::DirectAnthropic => {
            if profile.api_key.len() > 0 {
                assert(own[0] == ("x-api-key"@, profile.api_key));
                assert(own[1] == ("anthropic-version"@, "2023-06-01"@));
            }
        },
        ProviderType::OpenAICompatible => {
            if profile.api_key.len() > 0 {
                assert(own[0] == bearer);
            }
        },
        ProviderType::OpenAIResponses => {
            assert(own[0] == content);
            if profile.api_key.len() > 0 {
                assert(own[1] == bearer);
            }
            if has_key(env, name) {
                assert(own.last() == ("ChatGPT-Account-ID"@, value_of(env, name)->0));
                assert(own[own.len() - 1] == own.last());
            }
        },
    }
}

/// A probe asks for the models of the provider, or over the responses protocol for a response, below
/// the base URL, however many `/` that ends with.
pub proof fn law_probe_address(profile: ProfileView, base: Seq<char>, slashes: nat)
    requires
        base.len() > 0 ==> base.last() != '/',
        profile.base_url == base + Seq::new(slashes, |i: int| '/'),
    ensures
        ({
            let url = probe_of(profile).url;
            &&& profile.provider_type == ProviderType::DirectAnthropic ==> url == base
                + "/v1/models"@
            &&& profile.provider_type == ProviderType::OpenAICompatible ==> url == base
                + "/models"@
            &&& profile.provider_type == ProviderType::OpenAIResponses ==> url == base
                + "/responses"@
        }),
{
    law_trailing_slashes(base, slashes);
}

/// A probe posts a document over the responses protocol, and only there; elsewhere it gets.
pub proof fn law_only_responses_are_posted(profile: ProfileView)
    ensures
        profile.provider_type == ProviderType::OpenAIResponses ==> {
            &&& probe_of(profile).method == ProbeMethod::Post
            &&& probe_of(profile).body is Some
        },
        profile.provider_type != ProviderType::OpenAIResponses ==> {
            &&& probe_of(profile).method == ProbeMethod::Get
            &&& probe_of(profile).body is None
        },
{
}

/// The document that is posted asks the model of the profile for a reply, streamed and not stored.
/// Nothing in it depends on anything but that model.
pub proof fn law_posted_document(profile: ProfileView)
    requires
        profile.provider_type == ProviderType::OpenAIResponses,
    ensures
        probe_of(profile).body == Some(
            "{\"input\":[{\"content\":[{\"text\":\"Reply with OK.\",\"type\":\"input_text\"}],\"role\":\"user\",\"type\":\"message\"}],\"instructions\":\"You are a concise connectivity test assistant.\",\"model\":"@
                + json_string(profile.default_model) + ",\"store\":false,\"stream\":true}"@,
        ),
{
}

/// Where a probe begins: with the request itself where the profile has a key of its own; with the
/// very provider that the profile names where it wants a token; and with an error about the profile
/// where it wants one and names no provider.
pub proof fn law_first_step<T>(profile: ProfileView, provider: OAuthProviderView)
    ensures
        profile.auth_type == AuthType::ApiKey ==> first_step::<T>(profile)
            == ConnectStepView::<T>::Send(probe_of(profile)),
        profile.auth_type == AuthType::OAuth && profile.oauth_provider == Some(provider)
            ==> first_step::<T>(profile) == (ConnectStepView::<T>::Normalize {
            name: profile.name,
            provider,
        }),
        profile.auth_type == AuthType::OAuth && profile.oauth_provider is None ==> first_step::<T>(
            profile,
        ) == ConnectStepView::<T>::Fail(ConnectErrorView::MissingProvider(profile.name)),
{
}

/// Once the provider is normalized its credential is loaded, for the same profile; and once a token
/// was put into a profile, that very profile is probed.
pub proof fn law_steps_pass_on_what_came<T>(
    name: Seq<char>,
    provider: OAuthProviderView,
    profile: ProfileView,
)
    ensures
        step_after_normalize::<T>(name, provider) == (ConnectStepView::<T>::Load {
            name,
            provider,
        }),
        step_after_apply::<T>(profile) == ConnectStepView::<T>::Send(probe_of(profile)),
{
}

/// A provider is reached just where it answers with a status whose first digit is a two, and the
/// time is told as it was measured. Any other status has the body of the answer read, and the error
/// then tells that status and that body; what kept a request from being sent is told as it came.
pub proof fn law_answer_is_judged(
    outcome: Result<HttpStatus, String>,
    millis: u128,
    status: u16,
    body: Option<String>,
)
    ensures
        outcome matches Ok(answer) && answer@ as int / 100 == 2 ==> step_after_answer(
            outcome,
            millis,
        ) == AnswerStepView::Reached(millis),
        outcome matches Ok(answer) && answer@ as int / 100 != 2 ==> step_after_answer(
            outcome,
            millis,
        ) == AnswerStepView::ReadBody((outcome->Ok_0)@),
        outcome matches Err(text) ==> step_after_answer(outcome, millis) == AnswerStepView::Fail(
            ConnectErrorView::Failed(text@),
        ),
        body matches Some(text) ==> failed_answer(status, body) == ConnectErrorView::Http(
            "HTTP "@ + status_text(status) + ": "@ + text@,
        ),
        body is None ==> failed_answer(status, body) == ConnectErrorView::Http(
            "HTTP "@ + status_text(status) + ": "@,
        ),
{
    assert("HTTP "@ + status_text(status) + ": "@ + Seq::empty() =~= "HTTP "@ + status_text(status)
        + ": "@);
}

/// What keeps a credential from being loaded, or a token from being renewed, is what the probe fails
/// with.
pub proof fn law_failures_are_passed_on<T>(
    name: Seq<char>,
    provider: OAuthProviderView,
    text: String,
)
    ensures
        step_after_load::<T>(name, provider, Err(text)) == ConnectStepView::<T>::Fail(
            ConnectErrorView::Failed(text@),
        ),
        step_after_refresh::<T>(Err(text)) == ConnectStepView::<T>::Fail(
            ConnectErrorView::Failed(text@),
        ),
{
}

/// A status stands for success just where its first digit is a two.
pub proof fn law_success_is_in_the_two_hundreds(status: u16)
    ensures
        is_success(status) <==> status as int / 100 == 2,
{
}

/// What the user is told of a probe that failed: an error about the profile gives its name in
/// quotation marks, and the words of others are told as they came.
pub proof fn law_connect_messages(error: ConnectErrorView, text: Seq<char>)
    ensures
        error == ConnectErrorView::MissingProvider(text) ==> error.message_text()
            == "no oauth_provider for profile '"@ + text + "'"@,
        error == ConnectErrorView::TokenExpired(text) ==> error.message_text()
            == "OAuth token expired for '"@ + text + "' and cannot be refreshed automatically"@,
        error == ConnectErrorView::Http(text) ==> error.message_text() == text,
        error == ConnectErrorView::Failed(text) ==> error.message_text() == text,
{
}

/// The message for an answer that was a failure holds its status and, behind that, the whole body.
pub proof fn law_http_message(status: Seq<char>, body: Seq<char>)
    ensures
        http_message(status, body).len() == status.len() + body.len() + 7,
        http_message(status, body).take(5) == "HTTP "@,
        http_message(status, body).subrange(5, status.len() as int + 5) == status,
        http_message(status, body).subrange(status.len() as int + 5, status.len() as int + 7) == ": "@,
        http_message(status, body).skip(status.len() as int + 7) == body,
{
    reveal_strlit("HTTP ");
    reveal_strlit(": ");
    let message = http_message(status, body);
    assert(message.take(5) =~= "HTTP "@);
    assert(message.subrange(5, status.len() as int + 5) =~= status);
    assert(message.subrange(status.len() as int + 5, status.len() as int + 7) =~= ": "@);
    assert(message.skip(status.len() as int + 7) =~= body);
}

/// A probe that succeeded is told with the time that it took, one that failed with its error.
pub proof fn law_outcome_text(outcome: ProbeOutcome)
    ensures
        outcome matches Ok(millis) ==> outcome_text(outcome) == "OK ("@ + decimal(millis as nat)
            + "ms)"@,
        outcome matches Err(error) ==> outcome_text(outcome) == "FAIL: "@ + error@.message_text(),
{
}

} // verus!
