//! Adding a profile by questions and answers.
//!
//! The caller shows lines, reads answers, stores keys and probes providers; each function here
//! takes what came of that and gives the next turn.
use crate::config::{
    blank_profile, has_profile, named, ClaudexConfig, ConfigView, ProfileConfig, ProfileView,
    ProviderType,
};
use crate::connectivity::{outcome_line, outcome_text, ProbeOutcome};
use crate::error::{ProfileError, ProfileErrorView};
use crate::presets::{choose_url, chosen_url, preset_menu, push_preset_menu};
use crate::text::{
    comma_list, is_yes, law_yes_is_one_letter, optional_text, says_yes, split_commas, texts,
};
use vstd::prelude::*;

verus! {

/// The name under which keys are stored in the keyring.
pub open spec fn keyring_service() -> Seq<char> {
    "claudex"@
}

/// What is known so far of the profile to add. What has not been asked yet is empty.
struct Draft {
    name: String,
    provider_type: ProviderType,
    base_url: String,
    api_key: String,
    keyring: Option<String>,
    model: String,
}

/// What is known so far of the profile to add.
pub struct DraftView {
    pub name: Seq<char>,
    pub provider_type: ProviderType,
    pub base_url: Seq<char>,
    pub api_key: Seq<char>,
    pub keyring: Option<Seq<char>>,
    pub model: Seq<char>,
}

impl View for Draft {
    type V = DraftView;

    closed spec fn view(&self) -> DraftView {
        DraftView {
            name: self.name@,
            provider_type: self.provider_type,
            base_url: self.base_url@,
            api_key: self.api_key@,
            keyring: optional_text(self.keyring),
            model: self.model@,
        }
    }
}

/// A draft before the first answer.
pub open spec fn blank_draft() -> DraftView {
    DraftView {
        name: Seq::empty(),
        provider_type: ProviderType::OpenAICompatible,
        base_url: Seq::empty(),
        api_key: Seq::empty(),
        keyring: None,
        model: Seq::empty(),
    }
}

/// What a question about the draft asks for.
#[derive(Clone, Copy, Debug, PartialEq, Eq, Structural)]
pub enum Field {
    Name,
    Provider,
    BaseUrl,
    ApiKey,
    StoreKey,
    Model,
    Backups,
}

enum Topic {
    Draft(Field, Draft),
    AddAnyway(ProfileConfig),
}

/// What a question is about.
pub enum TopicView {
    /// A part of the draft that is not known yet.
    Draft(Field, DraftView),
    /// Whether to add a profile whose provider could not be reached.
    AddAnyway(ProfileView),
}

/// A question to the user; the next turn comes of [`AddQuestion::answer`].
pub struct AddQuestion {
    topic: Topic,
}

impl View for AddQuestion {
    type V = TopicView;

    closed spec fn view(&self) -> TopicView {
        match self.topic {
            Topic::Draft(field, draft) => TopicView::Draft(field, draft@),
            Topic::AddAnyway(profile) => TopicView::AddAnyway(profile@),
        }
    }
}

/// A key to store in the keyring; the next turn comes of [`KeyringWait::stored`].
pub struct KeyringWait {
    draft: Draft,
}

impl View for KeyringWait {
    type V = DraftView;

    closed spec fn view(&self) -> DraftView {
        self.draft@
    }
}

/// A profile to probe; the next turn comes of [`ProbeWait::probed`].
pub struct ProbeWait {
    profile: ProfileConfig,
}

impl View for ProbeWait {
    type V = ProfileView;

    closed spec fn view(&self) -> ProfileView {
        self.profile@
    }
}

/// What came of storing a key.
pub enum KeyringOutcome {
    /// The key is in the keyring.
    Stored,
    /// The keyring would not take it, in its own words.
    Refused(String),
    /// There is no keyring, in the system's own words.
    Unavailable(String),
}

/// What to do in a turn, once its lines were shown.
pub enum AddStep {
    /// Ask the user.
    Ask(AddQuestion),
    /// Store a key in the keyring.
    Store(KeyringWait),
    /// Probe the provider of the new profile.
    Probe(ProbeWait),
    /// Add the profile to the configuration: all is known.
    Add(ProfileConfig),
    /// Stop without adding anything.
    Fail(ProfileError),
}

/// What an [`AddStep`] says.
pub enum AddStepView {
    Ask(TopicView),
    Store(DraftView),
    Probe(ProfileView),
    Add(ProfileView),
    Fail(ProfileErrorView),
}

impl View for AddStep {
    type V = AddStepView;

    open spec fn view(&self) -> AddStepView {
        match self {
            AddStep::Ask(question) => AddStepView::Ask(question@),
            AddStep::Store(wait) => AddStepView::Store(wait@),
            AddStep::Probe(wait) => AddStepView::Probe(wait@),
            AddStep::Add(profile) => AddStepView::Add(profile@),
            AddStep::Fail(error) => AddStepView::Fail(error@),
        }
    }
}

/// One turn: lines to show, and then a step.
pub struct AddTurn {
    pub lines: Vec<String>,
    pub step: AddStep,
}

/// What an [`AddTurn`] says.
pub struct AddTurnView {
    pub lines: Seq<Seq<char>>,
    pub step: AddStepView,
}

impl View for AddTurn {
    type V = AddTurnView;

    open spec fn view(&self) -> AddTurnView {
        AddTurnView { lines: texts(self.lines@), step: self.step@ }
    }
}

/// A turn that asks for a field of the draft, once `lines` were shown.
pub open spec fn asking(lines: Seq<Seq<char>>, field: Field, draft: DraftView) -> AddTurnView {
    AddTurnView { lines, step: AddStepView::Ask(TopicView::Draft(field, draft)) }
}

/// A turn that ends the session with an error.
pub open spec fn failing(error: ProfileErrorView) -> AddTurnView {
    AddTurnView { lines: Seq::empty(), step: AddStepView::Fail(error) }
}

fn ask(lines: Vec<String>, field: Field, draft: Draft) -> (turn: AddTurn)
    ensures
        turn@ == asking(texts(lines@), field, draft@),
{
    AddTurn { lines, step: AddStep::Ask(AddQuestion { topic: Topic::Draft(field, draft) }) }
}

fn no_lines() -> (lines: Vec<String>)
    ensures
        texts(lines@) == Seq::<Seq<char>>::empty(),
{
    let lines: Vec<String> = Vec::new();
    assert(texts(lines@) =~= Seq::<Seq<char>>::empty());
    lines
}

fn one_line(line: String) -> (lines: Vec<String>)
    ensures
        texts(lines@) == seq![line@],
{
    let mut lines: Vec<String> = Vec::new();
    let ghost text = line@;
    lines.push(line);
    assert(texts(lines@) =~= seq![text]);
    lines
}

fn fail(error: ProfileError) -> (turn: AddTurn)
    ensures
        turn@ == failing(error@),
{
    AddTurn { lines: no_lines(), step: AddStep::Fail(error) }
}

/// The first turn: it asks for the name.
pub open spec fn first_turn() -> AddTurnView {
    asking(seq!["=== Add New Profile ===\n"@], Field::Name, blank_draft())
}

/// The menu of the provider types, which a blank line goes before.
pub open spec fn provider_menu() -> Seq<Seq<char>> {
    seq![
        "\nProvider type:"@,
        "  1) DirectAnthropic  (Anthropic, MiniMax, OpenRouter)"@,
        "  2) OpenAICompatible (Grok, OpenAI, DeepSeek, Kimi, GLM, Ollama)"@,
        "  3) OpenAIResponses  (ChatGPT/Codex subscription)"@,
    ]
}

/// The turn after the name was given: it must not be empty nor taken.
pub open spec fn after_name(config: ConfigView, draft: DraftView, name: Seq<char>) -> AddTurnView {
    if name.len() == 0 {
        failing(ProfileErrorView::EmptyName)
    } else if has_profile(config.profiles, name) {
        failing(ProfileErrorView::AlreadyExists(name))
    } else {
        asking(provider_menu(), Field::Provider, DraftView { name, ..draft })
    }
}

/// The provider type that an answer stands for, if it does for any.
pub open spec fn picked_type(answer: Seq<char>) -> Option<ProviderType> {
    if answer == "1"@ {
        Some(ProviderType::DirectAnthropic)
    } else if answer == "2"@ {
        Some(ProviderType::OpenAICompatible)
    } else if answer == "3"@ {
        Some(ProviderType::OpenAIResponses)
    } else {
        None
    }
}

/// The turn after the provider type was chosen. An answer that is no choice counts as
/// `OpenAICompatible`, and a line says so.
pub open spec fn after_provider(draft: DraftView, answer: Seq<char>) -> AddTurnView {
    match picked_type(answer) {
        Some(provider_type) => asking(
            preset_menu(provider_type),
            Field::BaseUrl,
            DraftView { provider_type, ..draft },
        ),
        None => asking(
            seq!["Invalid choice, defaulting to OpenAICompatible"@] + preset_menu(
                ProviderType::OpenAICompatible,
            ),
            Field::BaseUrl,
            DraftView { provider_type: ProviderType::OpenAICompatible, ..draft },
        ),
    }
}

/// The turn after the base URL was given.
pub open spec fn after_base_url(draft: DraftView, answer: Seq<char>) -> AddTurnView {
    asking(
        Seq::empty(),
        Field::ApiKey,
        DraftView { base_url: chosen_url(draft.provider_type, answer), ..draft },
    )
}

/// The turn after the key was given: where there is one, the next question is where it goes.
pub open spec fn after_api_key(draft: DraftView, api_key: Seq<char>) -> AddTurnView {
    asking(
        Seq::empty(),
        if api_key.len() == 0 {
            Field::Model
        } else {
            Field::StoreKey
        },
        DraftView { api_key, ..draft },
    )
}

/// The turn after the user said whether the key goes to the keyring.
pub open spec fn after_store_key(draft: DraftView, answer: Seq<char>) -> AddTurnView {
    if is_yes(answer) {
        AddTurnView { lines: Seq::empty(), step: AddStepView::Store(draft) }
    } else {
        asking(Seq::empty(), Field::Model, draft)
    }
}

/// The keyring entry that holds the key of the profile called `name`.
pub open spec fn entry_of(name: Seq<char>) -> Seq<char> {
    name + "-api-key"@
}

/// The turn after the key was stored, or was not.
pub open spec fn after_stored(draft: DraftView, outcome: KeyringOutcome) -> AddTurnView {
    match outcome {
        KeyringOutcome::Stored => asking(
            seq!["Stored in keyring as '"@ + entry_of(draft.name) + "'"@],
            Field::Model,
            DraftView { keyring: Some(entry_of(draft.name)), ..draft },
        ),
        KeyringOutcome::Refused(text) => asking(
            seq!["Warning: failed to store in keyring: "@ + text@],
            Field::Model,
            draft,
        ),
        KeyringOutcome::Unavailable(text) => asking(
            seq!["Warning: keyring not available: "@ + text@],
            Field::Model,
            draft,
        ),
    }
}

/// The turn after the model was given: it must not be empty.
pub open spec fn after_model(draft: DraftView, model: Seq<char>) -> AddTurnView {
    if model.len() == 0 {
        failing(ProfileErrorView::EmptyModel)
    } else {
        asking(Seq::empty(), Field::Backups, DraftView { model, ..draft })
    }
}

/// The profile that a draft describes. A key that lies in the keyring is not in the profile.
pub open spec fn profile_of(draft: DraftView, backups: Seq<Seq<char>>) -> ProfileView {
    ProfileView {
        name: draft.name,
        provider_type: draft.provider_type,
        base_url: draft.base_url,
        api_key: if draft.keyring is Some {
            Seq::empty()
        } else {
            draft.api_key
        },
        api_key_keyring: draft.keyring,
        default_model: draft.model,
        backup_providers: backups,
        ..blank_profile()
    }
}

/// The turn after the backups were given: the provider is probed.
pub open spec fn after_backups(draft: DraftView, answer: Seq<char>) -> AddTurnView {
    AddTurnView {
        lines: Seq::empty(),
        step: AddStepView::Probe(profile_of(draft, comma_list(answer))),
    }
}

/// The turn after the probe. Where it failed, the user is asked whether to go on.
pub open spec fn after_probe(profile: ProfileView, outcome: ProbeOutcome) -> AddTurnView {
    AddTurnView {
        lines: seq![outcome_text(outcome)],
        step: if outcome is Ok {
            AddStepView::Add(profile)
        } else {
            AddStepView::Ask(TopicView::AddAnyway(profile))
        },
    }
}

/// The turn after the user said whether to add a profile whose provider could not be reached.
pub open spec fn after_add_anyway(profile: ProfileView, answer: Seq<char>) -> AddTurnView {
    if is_yes(answer) {
        AddTurnView { lines: Seq::empty(), step: AddStepView::Add(profile) }
    } else {
        failing(ProfileErrorView::Aborted)
    }
}

/// The turn after a question was answered.
pub open spec fn after_answer(
    config: ConfigView,
    topic: TopicView,
    answer: Seq<char>,
) -> AddTurnView {
    match topic {
        TopicView::Draft(Field::Name, draft) => after_name(config, draft, answer),
        TopicView::Draft(Field::Provider, draft) => after_provider(draft, answer),
        TopicView::Draft(Field::BaseUrl, draft) => after_base_url(draft, answer),
        TopicView::Draft(Field::ApiKey, draft) => after_api_key(draft, answer),
        TopicView::Draft(Field::StoreKey, draft) => after_store_key(draft, answer),
        TopicView::Draft(Field::Model, draft) => after_model(draft, answer),
        TopicView::Draft(Field::Backups, draft) => after_backups(draft, answer),
        TopicView::AddAnyway(profile) => after_add_anyway(profile, answer),
    }
}

/// Begins to add a profile.
pub fn interactive_add() -> (turn: AddTurn)
    ensures
        turn@ == first_turn(),
{
    let draft = Draft {
        name: String::new(),
        provider_type: ProviderType::OpenAICompatible,
        base_url: String::new(),
        api_key: String::new(),
        keyring: None,
        model: String::new(),
    };
    ask(one_line("=== Add New Profile ===\n".to_owned()), Field::Name, draft)
}

fn take_name(config: &ClaudexConfig, draft: Draft, name: String) -> (turn: AddTurn)
    ensures
        turn@ == after_name(config@, draft@, name@),
{
    if name.as_str().is_empty() {
        return fail(ProfileError::EmptyName);
    }
    if config.profile_index(name.as_str()).is_some() {
        return fail(ProfileError::AlreadyExists(name));
    }
    let mut lines: Vec<String> = Vec::new();
    lines.push("\nProvider type:".to_owned());
    lines.push("  1) DirectAnthropic  (Anthropic, MiniMax, OpenRouter)".to_owned());
    lines.push("  2) OpenAICompatible (Grok, OpenAI, DeepSeek, Kimi, GLM, Ollama)".to_owned());
    lines.push("  3) OpenAIResponses  (ChatGPT/Codex subscription)".to_owned());
    assert(texts(lines@) =~= provider_menu());
    ask(lines, Field::Provider, Draft { name, ..draft })
}

fn pick_type(answer: &String) -> (result: Option<ProviderType>)
    ensures
        result == picked_type(answer@),
{
    if *answer == "1".to_owned() {
        Some(ProviderType::DirectAnthropic)
    } else if *answer == "2".to_owned() {
        Some(ProviderType::OpenAICompatible)
    } else if *answer == "3".to_owned() {
        Some(ProviderType::OpenAIResponses)
    } else {
        None
    }
}

fn take_provider(draft: Draft, answer: String) -> (turn: AddTurn)
    ensures
        turn@ == after_provider(draft@, answer@),
{
    match pick_type(&answer) {
        Some(provider_type) => {
            let mut lines: Vec<String> = no_lines();
            push_preset_menu(&mut lines, provider_type);
            assert(texts(lines@) =~= preset_menu(provider_type));
            ask(lines, Field::BaseUrl, Draft { provider_type, ..draft })
        },
        None => {
            let mut lines: Vec<String> = one_line(
                "Invalid choice, defaulting to OpenAICompatible".to_owned(),
            );
            let provider_type = ProviderType::OpenAICompatible;
            push_preset_menu(&mut lines, provider_type);
            ask(lines, Field::BaseUrl, Draft { provider_type, ..draft })
        },
    }
}

fn take_api_key(draft: Draft, api_key: String) -> (turn: AddTurn)
    ensures
        turn@ == after_api_key(draft@, api_key@),
{
    let field = if api_key.as_str().is_empty() {
        Field::Model
    } else {
        Field::StoreKey
    };
    ask(no_lines(), field, Draft { api_key, ..draft })
}

fn take_store_key(draft: Draft, answer: String) -> (turn: AddTurn)
    ensures
        turn@ == after_store_key(draft@, answer@),
{
    if says_yes(&answer) {
        AddTurn { lines: no_lines(), step: AddStep::Store(KeyringWait { draft }) }
    } else {
        ask(no_lines(), Field::Model, draft)
    }
}

fn take_model(draft: Draft, model: String) -> (turn: AddTurn)
    ensures
        turn@ == after_model(draft@, model@),
{
    if model.as_str().is_empty() {
        return fail(ProfileError::EmptyModel);
    }
    ask(no_lines(), Field::Backups, Draft { model, ..draft })
}

fn take_backups(draft: Draft, answer: String) -> (turn: AddTurn)
    ensures
        turn@ == after_backups(draft@, answer@),
{
    let backup_providers: Vec<String> = split_commas(answer.as_str());
    let Draft { name, provider_type, base_url, api_key, keyring, model } = draft;
    let api_key: String = match &keyring {
        Some(_) => String::new(),
        None => api_key,
    };
    let profile = ProfileConfig {
        name,
        provider_type,
        base_url,
        api_key,
        api_key_keyring: keyring,
        default_model: model,
        backup_providers,
        ..ProfileConfig::default()
    };
    assert(profile@ =~= profile_of(draft@, comma_list(answer@)));
    AddTurn { lines: no_lines(), step: AddStep::Probe(ProbeWait { profile }) }
}

impl AddQuestion {
    /// The words of the question.
    pub open spec fn label_text(topic: TopicView) -> Seq<char> {
        match topic {
            TopicView::Draft(Field::Name, _) => "Profile name"@,
            TopicView::Draft(Field::Provider, _) => "Select [1/2/3]"@,
            TopicView::Draft(Field::BaseUrl, _) => "Base URL"@,
            TopicView::Draft(Field::ApiKey, _) => "API Key (leave empty for none)"@,
            TopicView::Draft(Field::StoreKey, _) => "Store API key in system keyring? [y/N]"@,
            TopicView::Draft(Field::Model, _) => "Default model"@,
            TopicView::Draft(Field::Backups, _) => "Backup providers (comma-separated, or empty)"@,
            TopicView::AddAnyway(_) => "Add anyway? [y/N]"@,
        }
    }

    /// The words of the question.
    pub fn label(&self) -> (result: &'static str)
        ensures
            result@ == AddQuestion::label_text(self@),
    {
        match &self.topic {
            Topic::Draft(field, _) => match field {
                Field::Name => "Profile name",
                Field::Provider => "Select [1/2/3]",
                Field::BaseUrl => "Base URL",
                Field::ApiKey => "API Key (leave empty for none)",
                Field::StoreKey => "Store API key in system keyring? [y/N]",
                Field::Model => "Default model",
                Field::Backups => "Backup providers (comma-separated, or empty)",
            },
            Topic::AddAnyway(_) => "Add anyway? [y/N]",
        }
    }

    /// Takes the answer to the question.
    pub fn answer(self, config: &ClaudexConfig, answer: String) -> (turn: AddTurn)
        ensures
            turn@ == after_answer(config@, self@, answer@),
    {
        match self.topic {
            Topic::Draft(field, draft) => match field {
                Field::Name => take_name(config, draft, answer),
                Field::Provider => take_provider(draft, answer),
                Field::BaseUrl => {
                    let base_url: String = choose_url(draft.provider_type, answer);
                    ask(no_lines(), Field::ApiKey, Draft { base_url, ..draft })
                },
                Field::ApiKey => take_api_key(draft, answer),
                Field::StoreKey => take_store_key(draft, answer),
                Field::Model => take_model(draft, answer),
                Field::Backups => take_backups(draft, answer),
            },
            Topic::AddAnyway(profile) => {
                if says_yes(&answer) {
                    AddTurn { lines: no_lines(), step: AddStep::Add(profile) }
                } else {
                    fail(ProfileError::Aborted)
                }
            },
        }
    }
}

impl KeyringWait {
    /// The service under which to store the key.
    pub fn service(&self) -> (result: &'static str)
        ensures
            result@ == keyring_service(),
    {
        "claudex"
    }

    /// The entry in which to store the key.
    pub fn entry(&self) -> (result: String)
        ensures
            result@ == entry_of(self@.name),
    {
        let mut entry: String = self.draft.name.clone();
        entry.append("-api-key");
        entry
    }

    /// The key to store.
    pub fn secret(&self) -> (result: &String)
        ensures
            result@ == self@.api_key,
    {
        &self.draft.api_key
    }

    /// Takes what came of storing the key.
    pub fn stored(self, outcome: KeyringOutcome) -> (turn: AddTurn)
        ensures
            turn@ == after_stored(self@, outcome),
    {
        match outcome {
            KeyringOutcome::Stored => {
                let entry: String = self.entry();
                let mut line: String = "Stored in keyring as '".to_owned();
                line.append(entry.as_str());
                line.append("'");
                ask(one_line(line), Field::Model, Draft { keyring: Some(entry), ..self.draft })
            },
            KeyringOutcome::Refused(text) => {
                let mut line: String = "Warning: failed to store in keyring: ".to_owned();
                line.append(text.as_str());
                ask(one_line(line), Field::Model, self.draft)
            },
            KeyringOutcome::Unavailable(text) => {
                let mut line: String = "Warning: keyring not available: ".to_owned();
                line.append(text.as_str());
                ask(one_line(line), Field::Model, self.draft)
            },
        }
    }
}

impl ProbeWait {
    /// What to show, without a line break, before the probe.
    pub fn notice(&self) -> (result: &'static str)
        ensures
            result@ == "\nTesting connectivity... "@,
    {
        "\nTesting connectivity... "
    }

    /// The profile to probe.
    pub fn profile(&self) -> (result: &ProfileConfig)
        ensures
            result@ == self@,
    {
        &self.profile
    }

    /// Takes what came of the probe.
    pub fn probed(self, outcome: ProbeOutcome) -> (turn: AddTurn)
        ensures
            turn@ == after_probe(self@, outcome),
    {
        let lines: Vec<String> = one_line(outcome_line(&outcome));
        match outcome {
            Ok(_) => AddTurn { lines, step: AddStep::Add(self.profile) },
            Err(_) => AddTurn {
                lines,
                step: AddStep::Ask(AddQuestion { topic: Topic::AddAnyway(self.profile) }),
            },
        }
    }
}

/// What is shown once the profile called `name` was added.
pub fn added_message(name: &str) -> (result: String)
    ensures
        result@ == "\nProfile '"@ + name@ + "' added successfully!"@,
{
    let mut text: String = "\nProfile '".to_owned();
    text.append(name);
    text.append("' added successfully!");
    text
}

/// Something that happens in a session: an answer, what came of storing a key, or of a probe.
pub enum AddEvent {
    Answer(Seq<char>),
    Keyring(KeyringOutcome),
    Probe(ProbeOutcome),
}

/// The step after an event. One that the step did not wait for changes nothing.
pub open spec fn next_step(config: ConfigView, step: AddStepView, event: AddEvent) -> AddStepView {
    match (step, event) {
        (AddStepView::Ask(topic), AddEvent::Answer(answer)) => after_answer(
            config,
            topic,
            answer,
        ).step,
        (AddStepView::Store(draft), AddEvent::Keyring(outcome)) => after_stored(
            draft,
            outcome,
        ).step,
        (AddStepView::Probe(profile), AddEvent::Probe(outcome)) => after_probe(
            profile,
            outcome,
        ).step,
        _ => step,
    }
}

/// The step that a session has come to after a row of events.
pub open spec fn session(config: ConfigView, events: Seq<AddEvent>) -> AddStepView
    decreases events.len(),
{
    if events.len() == 0 {
        first_turn().step
    } else {
        next_step(config, session(config, events.drop_last()), events.last())
    }
}

/// Whether a profile is fit to be added: it has a name that is free, and a model; and a key is
/// either in the profile or in the keyring entry of its name, never in both.
pub open spec fn fit_to_add(config: ConfigView, profile: ProfileView) -> bool {
    &&& profile.name.len() > 0
    &&& !has_profile(config.profiles, profile.name)
    &&& profile.default_model.len() > 0
    &&& profile.enabled
    &&& profile.api_key_keyring matches Some(entry) ==> entry == entry_of(profile.name)
        && profile.api_key.len() == 0
}

spec fn draft_holds(config: ConfigView, field: Field, draft: DraftView) -> bool {
    &&& field != Field::Name ==> draft.name.len() > 0 && !has_profile(config.profiles, draft.name)
    &&& field == Field::Backups ==> draft.model.len() > 0
    &&& field == Field::StoreKey ==> draft.api_key.len() > 0
    &&& draft.keyring matches Some(entry) ==> entry == entry_of(draft.name)
    &&& draft.keyring is Some ==> field == Field::Model || field == Field::Backups
}

spec fn step_holds(config: ConfigView, step: AddStepView) -> bool {
    match step {
        AddStepView::Ask(TopicView::Draft(field, draft)) => draft_holds(config, field, draft),
        AddStepView::Ask(TopicView::AddAnyway(profile)) => fit_to_add(config, profile),
        AddStepView::Store(draft) => draft_holds(config, Field::StoreKey, draft),
        AddStepView::Probe(profile) => fit_to_add(config, profile),
        AddStepView::Add(profile) => fit_to_add(config, profile),
        AddStepView::Fail(_) => true,
    }
}

proof fn lemma_session_holds(config: ConfigView, events: Seq<AddEvent>)
    ensures
        step_holds(config, session(config, events)),
    decreases events.len(),
{
    if events.len() > 0 {
        lemma_session_holds(config, events.drop_last());
    }
}

/// Whatever the user answers, and whatever comes of the keyring and of the probe: a profile that a
/// session ends with is fit to be added. So adding it is never refused.
pub proof fn law_session_profile_is_fit(config: ConfigView, events: Seq<AddEvent>)
    ensures
        session(config, events) matches AddStepView::Add(profile) ==> fit_to_add(config, profile),
{
    lemma_session_holds(config, events);
}

/// No empty key is ever stored in the keyring.
pub proof fn law_stored_key_is_not_empty(config: ConfigView, events: Seq<AddEvent>)
    ensures
        session(config, events) matches AddStepView::Store(draft) ==> draft.api_key.len() > 0,
{
    lemma_session_holds(config, events);
}

/// Whether the event at `at` is the answer `key` to the question for the key.
pub open spec fn key_given_at(
    config: ConfigView,
    events: Seq<AddEvent>,
    key: Seq<char>,
    at: int,
) -> bool {
    &&& 0 <= at < events.len()
    &&& session(config, events.take(at)) matches AddStepView::Ask(
        TopicView::Draft(Field::ApiKey, _),
    )
    &&& events[at] == AddEvent::Answer(key)
}

/// Whether the event at `at` is that the keyring took `key`.
pub open spec fn key_stored_at(
    config: ConfigView,
    events: Seq<AddEvent>,
    key: Seq<char>,
    at: int,
) -> bool {
    &&& 0 <= at < events.len()
    &&& session(config, events.take(at)) matches AddStepView::Store(draft) && draft.api_key == key
    &&& events[at] matches AddEvent::Keyring(KeyringOutcome::Stored)
}

/// Whether a profile has the key `key` as the events gave it: in the profile itself, or in the
/// keyring, which has then taken it.
pub open spec fn has_key_of(
    config: ConfigView,
    events: Seq<AddEvent>,
    profile: ProfileView,
    key: Seq<char>,
) -> bool {
    &&& exists|at: int| key_given_at(config, events, key, at)
    &&& match profile.api_key_keyring {
        None => profile.api_key == key,
        Some(_) => profile.api_key.len() == 0 && exists|at: int|
            key_stored_at(config, events, key, at),
    }
}

spec fn key_follows(config: ConfigView, events: Seq<AddEvent>, step: AddStepView) -> bool {
    match step {
        AddStepView::Ask(TopicView::Draft(field, draft)) => {
            &&& field == Field::StoreKey || field == Field::Model || field == Field::Backups
                ==> exists|at: int| key_given_at(config, events, draft.api_key, at)
            &&& draft.keyring is Some ==> exists|at: int|
                key_stored_at(config, events, draft.api_key, at)
        },
        AddStepView::Store(draft) => {
            &&& exists|at: int| key_given_at(config, events, draft.api_key, at)
            &&& draft.keyring is None
        },
        AddStepView::Ask(TopicView::AddAnyway(profile)) => exists|key: Seq<char>|
            has_key_of(config, events, profile, key),
        AddStepView::Probe(profile) => exists|key: Seq<char>|
            has_key_of(config, events, profile, key),
        AddStepView::Add(profile) => exists|key: Seq<char>|
            has_key_of(config, events, profile, key),
        AddStepView::Fail(_) => true,
    }
}

proof fn lemma_events_stay(config: ConfigView, events: Seq<AddEvent>, key: Seq<char>)
    requires
        events.len() > 0,
    ensures
        (exists|at: int| key_given_at(config, events.drop_last(), key, at)) ==> (exists|at: int|
            key_given_at(config, events, key, at)),
        (exists|at: int| key_stored_at(config, events.drop_last(), key, at)) ==> (exists|at: int|
            key_stored_at(config, events, key, at)),
{
    let before = events.drop_last();
    if exists|at: int| key_given_at(config, before, key, at) {
        let at = choose|at: int| key_given_at(config, before, key, at);
        assert(before.take(at) =~= events.take(at));
        assert(key_given_at(config, events, key, at));
    }
    if exists|at: int| key_stored_at(config, before, key, at) {
        let at = choose|at: int| key_stored_at(config, before, key, at);
        assert(before.take(at) =~= events.take(at));
        assert(key_stored_at(config, events, key, at));
    }
}

proof fn lemma_key_follows(config: ConfigView, events: Seq<AddEvent>)
    ensures
        key_follows(config, events, session(config, events)),
    decreases events.len(),
{
    if events.len() > 0 {
        let before = events.drop_last();
        let last = events.len() - 1;
        lemma_key_follows(config, before);
        lemma_session_holds(config, before);
        assert(events.take(last) =~= before);
        match session(config, before) {
            AddStepView::Ask(TopicView::Draft(field, draft)) => {
                lemma_events_stay(config, events, draft.api_key);
                if let AddEvent::Answer(answer) = events.last() {
                    if field == Field::ApiKey {
                        assert(key_given_at(config, events, answer, last));
                    }
                    if field == Field::Backups {
                        let profile = profile_of(draft, comma_list(answer));
                        assert(has_key_of(config, events, profile, draft.api_key));
                    }
                    if let AddStepView::Ask(TopicView::Draft(_, after)) = session(config, events) {
                        assert(field != Field::ApiKey ==> after.api_key == draft.api_key);
                        assert(field == Field::ApiKey ==> after.api_key == answer);
                        assert(after.keyring == draft.keyring);
                    }
                }
            },
            AddStepView::Store(draft) => {
                lemma_events_stay(config, events, draft.api_key);
                if let AddEvent::Keyring(KeyringOutcome::Stored) = events.last() {
                    assert(key_stored_at(config, events, draft.api_key, last));
                }
                if let AddStepView::Ask(TopicView::Draft(_, after)) = session(config, events) {
                    assert(after.api_key == draft.api_key);
                }
            },
            AddStepView::Ask(TopicView::AddAnyway(profile)) => {
                lemma_key_stays(config, events, profile);
            },
            AddStepView::Probe(profile) => {
                lemma_key_stays(config, events, profile);
            },
            AddStepView::Add(profile) => {
                lemma_key_stays(config, events, profile);
            },
            AddStepView::Fail(_) => {},
        }
    }
}

proof fn lemma_key_stays(config: ConfigView, events: Seq<AddEvent>, profile: ProfileView)
    requires
        events.len() > 0,
        exists|key: Seq<char>| has_key_of(config, events.drop_last(), profile, key),
    ensures
        exists|key: Seq<char>| has_key_of(config, events, profile, key),
{
    let key = choose|key: Seq<char>| has_key_of(config, events.drop_last(), profile, key);
    lemma_events_stay(config, events, key);
    assert(has_key_of(config, events, profile, key));
}

/// The key that the user gave is neither lost nor changed: a profile that a session ends with has
/// it, in the profile itself unless the keyring has taken just this key.
pub proof fn law_key_is_not_lost(config: ConfigView, events: Seq<AddEvent>)
    ensures
        session(config, events) matches AddStepView::Add(profile) ==> exists|key: Seq<char>|
            has_key_of(config, events, profile, key),
{
    lemma_key_follows(config, events);
}

/// A profile whose provider could not be reached is added only if the user then says yes.
pub proof fn law_unreachable_needs_consent(
    config: ConfigView,
    profile: ProfileView,
    outcome: ProbeOutcome,
    answer: Seq<char>,
)
    requires
        outcome is Err,
    ensures
        next_step(config, AddStepView::Probe(profile), AddEvent::Probe(outcome))
            == AddStepView::Ask(TopicView::AddAnyway(profile)),
        next_step(
            config,
            AddStepView::Ask(TopicView::AddAnyway(profile)),
            AddEvent::Answer(answer),
        ) == (if is_yes(answer) {
            AddStepView::Add(profile)
        } else {
            AddStepView::Fail(ProfileErrorView::Aborted)
        }),
{
}

/// How many more events a step can take at most before the session ends.
pub open spec fn events_left(step: AddStepView) -> nat {
    match step {
        AddStepView::Ask(TopicView::Draft(field, _)) => match field {
            Field::Name => 10,
            Field::Provider => 9,
            Field::BaseUrl => 8,
            Field::ApiKey => 7,
            Field::StoreKey => 6,
            Field::Model => 4,
            Field::Backups => 3,
        },
        AddStepView::Store(_) => 5,
        AddStepView::Probe(_) => 2,
        AddStepView::Ask(TopicView::AddAnyway(_)) => 1,
        AddStepView::Add(_) => 0,
        AddStepView::Fail(_) => 0,
    }
}

/// Whether a step waits for an event of this kind.
pub open spec fn waits_for(step: AddStepView, event: AddEvent) -> bool {
    match event {
        AddEvent::Answer(_) => step is Ask,
        AddEvent::Keyring(_) => step is Store,
        AddEvent::Probe(_) => step is Probe,
    }
}

/// A session does not go round in circles: each event that a step waits for brings it nearer to
/// its end, and it ends only by adding a profile or by failing.
pub proof fn law_session_comes_to_an_end(config: ConfigView, step: AddStepView, event: AddEvent)
    ensures
        waits_for(step, event) ==> events_left(next_step(config, step, event)) < events_left(step),
        events_left(step) == 0 <==> step is Add || step is Fail,
{
}

/// Whether the event at `at` is the answer `answer` to the question for `field`.
pub open spec fn answered_at(
    config: ConfigView,
    events: Seq<AddEvent>,
    field: Field,
    answer: Seq<char>,
    at: int,
) -> bool {
    &&& 0 <= at < events.len()
    &&& session(config, events.take(at)) matches AddStepView::Ask(TopicView::Draft(asked, _))
        && asked == field
    &&& events[at] == AddEvent::Answer(answer)
}

/// Whether `answer` was given to the question for `field`.
pub open spec fn was_answered(
    config: ConfigView,
    events: Seq<AddEvent>,
    field: Field,
    answer: Seq<char>,
) -> bool {
    exists|at: int| answered_at(config, events, field, answer, at)
}

/// Whether an answer to the question for the provider type was given that stands for
/// `provider_type`: `1` for the first, `3` for the last, and anything else for the one between.
pub open spec fn type_was_given(
    config: ConfigView,
    events: Seq<AddEvent>,
    provider_type: ProviderType,
) -> bool {
    exists|answer: Seq<char>| #[trigger]
        was_answered(config, events, Field::Provider, answer) && {
            &&& provider_type == ProviderType::DirectAnthropic <==> answer == seq!['1']
            &&& provider_type == ProviderType::OpenAIResponses <==> answer == seq!['3']
        }
}

/// Whether an answer to the question for the base URL was given that stands for `base_url`, among
/// the presets for `provider_type`.
pub open spec fn url_was_given(
    config: ConfigView,
    events: Seq<AddEvent>,
    provider_type: ProviderType,
    base_url: Seq<char>,
) -> bool {
    exists|answer: Seq<char>| #[trigger]
        was_answered(config, events, Field::BaseUrl, answer) && base_url == chosen_url(
            provider_type,
            answer,
        )
}

/// Whether an answer to the question for the backups was given that lists just these.
pub open spec fn backups_were_given(
    config: ConfigView,
    events: Seq<AddEvent>,
    backups: Seq<Seq<char>>,
) -> bool {
    exists|answer: Seq<char>| #[trigger]
        was_answered(config, events, Field::Backups, answer) && backups == comma_list(answer)
}

/// Whether the event at `at` is that the keyring took a key.
pub open spec fn keyring_took_at(config: ConfigView, events: Seq<AddEvent>, at: int) -> bool {
    &&& 0 <= at < events.len()
    &&& session(config, events.take(at)) is Store
    &&& events[at] matches AddEvent::Keyring(KeyringOutcome::Stored)
}

/// Whether the keyring took a key.
pub open spec fn keyring_took(config: ConfigView, events: Seq<AddEvent>) -> bool {
    exists|at: int| keyring_took_at(config, events, at)
}

/// Whether a profile says what was answered: its name, provider type, base URL, model and backups
/// are those that the answers to their questions stand for; it names a keyring entry, that of its
/// name, if and only if the keyring took the key; and it says no more than a blank profile besides.
pub open spec fn says_what_was_answered(
    config: ConfigView,
    events: Seq<AddEvent>,
    profile: ProfileView,
) -> bool {
    &&& was_answered(config, events, Field::Name, profile.name)
    &&& type_was_given(config, events, profile.provider_type)
    &&& url_was_given(config, events, profile.provider_type, profile.base_url)
    &&& was_answered(config, events, Field::Model, profile.default_model)
    &&& backups_were_given(config, events, profile.backup_providers)
    &&& profile.api_key_keyring is Some <==> keyring_took(config, events)
    &&& profile.api_key_keyring matches Some(entry) ==> entry == profile.name + "-api-key"@
    &&& profile.auth_type == blank_profile().auth_type
    &&& profile.oauth_provider == blank_profile().oauth_provider
    &&& profile.models == blank_profile().models
    &&& profile.custom_headers == blank_profile().custom_headers
    &&& profile.extra_env == blank_profile().extra_env
    &&& profile.priority == blank_profile().priority
    &&& profile.enabled == blank_profile().enabled
}

spec fn draft_follows(
    config: ConfigView,
    events: Seq<AddEvent>,
    left: nat,
    draft: DraftView,
) -> bool {
    &&& left < 10 ==> was_answered(config, events, Field::Name, draft.name)
    &&& left < 9 ==> type_was_given(config, events, draft.provider_type)
    &&& left < 8 ==> url_was_given(config, events, draft.provider_type, draft.base_url)
    &&& left < 4 ==> was_answered(config, events, Field::Model, draft.model)
    &&& draft.keyring is Some <==> keyring_took(config, events)
    &&& draft.keyring matches Some(entry) ==> entry == draft.name + "-api-key"@
}

spec fn step_follows(config: ConfigView, events: Seq<AddEvent>, step: AddStepView) -> bool {
    match step {
        AddStepView::Ask(TopicView::Draft(field, draft)) => draft_follows(
            config,
            events,
            events_left(step),
            draft,
        ),
        AddStepView::Store(draft) => draft_follows(config, events, events_left(step), draft),
        AddStepView::Ask(TopicView::AddAnyway(profile)) => says_what_was_answered(
            config,
            events,
            profile,
        ),
        AddStepView::Probe(profile) => says_what_was_answered(config, events, profile),
        AddStepView::Add(profile) => says_what_was_answered(config, events, profile),
        AddStepView::Fail(_) => true,
    }
}

proof fn lemma_answer_stays(
    config: ConfigView,
    events: Seq<AddEvent>,
    field: Field,
    answer: Seq<char>,
)
    requires
        events.len() > 0,
        was_answered(config, events.drop_last(), field, answer),
    ensures
        was_answered(config, events, field, answer),
{
    let before = events.drop_last();
    let at = choose|at: int| answered_at(config, before, field, answer, at);
    assert(before.take(at) =~= events.take(at));
    assert(answered_at(config, events, field, answer, at));
}

proof fn lemma_type_stays(config: ConfigView, events: Seq<AddEvent>, provider_type: ProviderType)
    requires
        events.len() > 0,
        type_was_given(config, events.drop_last(), provider_type),
    ensures
        type_was_given(config, events, provider_type),
{
    let answer = choose|answer: Seq<char>| #[trigger]
        was_answered(config, events.drop_last(), Field::Provider, answer) && {
            &&& provider_type == ProviderType::DirectAnthropic <==> answer == seq!['1']
            &&& provider_type == ProviderType::OpenAIResponses <==> answer == seq!['3']
        };
    lemma_answer_stays(config, events, Field::Provider, answer);
}

proof fn lemma_url_stays(
    config: ConfigView,
    events: Seq<AddEvent>,
    provider_type: ProviderType,
    base_url: Seq<char>,
)
    requires
        events.len() > 0,
        url_was_given(config, events.drop_last(), provider_type, base_url),
    ensures
        url_was_given(config, events, provider_type, base_url),
{
    let answer = choose|answer: Seq<char>| #[trigger]
        was_answered(config, events.drop_last(), Field::BaseUrl, answer) && base_url == chosen_url(
            provider_type,
            answer,
        );
    lemma_answer_stays(config, events, Field::BaseUrl, answer);
}

proof fn lemma_backups_stay(config: ConfigView, events: Seq<AddEvent>, backups: Seq<Seq<char>>)
    requires
        events.len() > 0,
        backups_were_given(config, events.drop_last(), backups),
    ensures
        backups_were_given(config, events, backups),
{
    let answer = choose|answer: Seq<char>| #[trigger]
        was_answered(config, events.drop_last(), Field::Backups, answer) && backups == comma_list(
            answer,
        );
    lemma_answer_stays(config, events, Field::Backups, answer);
}

/// The keyring took a key with the last event, or had before.
proof fn lemma_keyring_took(config: ConfigView, events: Seq<AddEvent>)
    requires
        events.len() > 0,
    ensures
        keyring_took(config, events) <==> keyring_took(config, events.drop_last()) || (session(
            config,
            events.drop_last(),
        ) is Store && (events.last() matches AddEvent::Keyring(KeyringOutcome::Stored))),
{
    let before = events.drop_last();
    let last = events.len() - 1;
    assert(events.take(last) =~= before);
    if keyring_took(config, before) {
        let at = choose|at: int| keyring_took_at(config, before, at);
        assert(before.take(at) =~= events.take(at));
        assert(keyring_took_at(config, events, at));
    }
    if session(config, before) is Store && (events.last() matches AddEvent::Keyring(
        KeyringOutcome::Stored,
    )) {
        assert(keyring_took_at(config, events, last));
    }
    if keyring_took(config, events) {
        let at = choose|at: int| keyring_took_at(config, events, at);
        if at < last {
            assert(before.take(at) =~= events.take(at));
            assert(keyring_took_at(config, before, at));
        }
    }
}

proof fn lemma_draft_stays(
    config: ConfigView,
    events: Seq<AddEvent>,
    left: nat,
    draft: DraftView,
)
    requires
        events.len() > 0,
        draft_follows(config, events.drop_last(), left, draft),
        keyring_took(config, events) == keyring_took(config, events.drop_last()),
    ensures
        draft_follows(config, events, left, draft),
{
    if left < 10 {
        lemma_answer_stays(config, events, Field::Name, draft.name);
    }
    if left < 9 {
        lemma_type_stays(config, events, draft.provider_type);
    }
    if left < 8 {
        lemma_url_stays(config, events, draft.provider_type, draft.base_url);
    }
    if left < 4 {
        lemma_answer_stays(config, events, Field::Model, draft.model);
    }
}

proof fn lemma_profile_stays(config: ConfigView, events: Seq<AddEvent>, profile: ProfileView)
    requires
        events.len() > 0,
        says_what_was_answered(config, events.drop_last(), profile),
        !(session(config, events.drop_last()) is Store),
    ensures
        says_what_was_answered(config, events, profile),
{
    lemma_keyring_took(config, events);
    lemma_answer_stays(config, events, Field::Name, profile.name);
    lemma_type_stays(config, events, profile.provider_type);
    lemma_url_stays(config, events, profile.provider_type, profile.base_url);
    lemma_answer_stays(config, events, Field::Model, profile.default_model);
    lemma_backups_stay(config, events, profile.backup_providers);
}

proof fn lemma_digit_answers()
    ensures
        "1"@ == seq!['1'],
        "2"@ == seq!['2'],
        "3"@ == seq!['3'],
{
    reveal_strlit("1");
    reveal_strlit("2");
    reveal_strlit("3");
    assert("1"@ =~= seq!['1']);
    assert("2"@ =~= seq!['2']);
    assert("3"@ =~= seq!['3']);
}

proof fn lemma_answer_follows(
    config: ConfigView,
    events: Seq<AddEvent>,
    field: Field,
    draft: DraftView,
    answer: Seq<char>,
)
    requires
        events.len() > 0,
        session(config, events.drop_last()) == AddStepView::Ask(TopicView::Draft(field, draft)),
        step_follows(config, events.drop_last(), session(config, events.drop_last())),
        events.last() == AddEvent::Answer(answer),
    ensures
        step_follows(config, events, session(config, events)),
{
    let before = events.drop_last();
    let last = events.len() - 1;
    let step = session(config, before);
    lemma_keyring_took(config, events);
    lemma_draft_stays(config, events, events_left(step), draft);
    assert(events.take(last) =~= before);
    assert(answered_at(config, events, field, answer, last));
    assert(was_answered(config, events, field, answer));
    lemma_session_holds(config, before);
    match field {
        Field::Name => {
            if let AddStepView::Ask(TopicView::Draft(_, after)) = session(config, events) {
                assert(after.name == answer);
                assert(draft.keyring is None);
            }
        },
        Field::Provider => {
            lemma_digit_answers();
            assert(seq!['1'][0] != seq!['3'][0]);
            assert(seq!['1'][0] != seq!['2'][0]);
            assert(seq!['2'][0] != seq!['3'][0]);
            if let AddStepView::Ask(TopicView::Draft(_, after)) = session(config, events) {
                assert(after.name == draft.name);
                assert(type_was_given(config, events, after.provider_type));
            }
        },
        Field::BaseUrl => {
            assert(url_was_given(
                config,
                events,
                draft.provider_type,
                chosen_url(draft.provider_type, answer),
            ));
        },
        Field::Backups => {
            assert(backups_were_given(config, events, comma_list(answer)));
        },
        _ => {},
    }
}

proof fn lemma_step_follows(config: ConfigView, events: Seq<AddEvent>)
    ensures
        step_follows(config, events, session(config, events)),
    decreases events.len(),
{
    if events.len() == 0 {
        assert(!keyring_took(config, events));
    } else {
        let before = events.drop_last();
        let step = session(config, before);
        lemma_step_follows(config, before);
        lemma_keyring_took(config, events);
        lemma_session_holds(config, before);
        match step {
            AddStepView::Ask(TopicView::Draft(field, draft)) => {
                if let AddEvent::Answer(answer) = events.last() {
                    lemma_answer_follows(config, events, field, draft, answer);
                } else {
                    lemma_draft_stays(config, events, events_left(step), draft);
                }
            },
            AddStepView::Store(draft) => {
                assert(draft.keyring is None);
                if let AddEvent::Keyring(KeyringOutcome::Stored) = events.last() {
                    lemma_answer_stays(config, events, Field::Name, draft.name);
                    lemma_type_stays(config, events, draft.provider_type);
                    lemma_url_stays(config, events, draft.provider_type, draft.base_url);
                } else {
                    lemma_draft_stays(config, events, events_left(step), draft);
                }
            },
            AddStepView::Ask(TopicView::AddAnyway(profile)) => {
                lemma_profile_stays(config, events, profile);
            },
            AddStepView::Probe(profile) => {
                lemma_profile_stays(config, events, profile);
            },
            AddStepView::Add(profile) => {
                lemma_profile_stays(config, events, profile);
            },
            AddStepView::Fail(_) => {},
        }
    }
}

/// Whatever the row of events: a profile that a session ends with, and the one that it probes before
/// that, says what was answered, no less and no more.
pub proof fn law_profile_says_what_was_answered(config: ConfigView, events: Seq<AddEvent>)
    ensures
        session(config, events) matches AddStepView::Add(profile) ==> says_what_was_answered(
            config,
            events,
            profile,
        ),
        session(config, events) matches AddStepView::Probe(profile) ==> says_what_was_answered(
            config,
            events,
            profile,
        ),
{
    lemma_step_follows(config, events);
}

proof fn lemma_less_is_left(config: ConfigView, events: Seq<AddEvent>, at: int)
    requires
        0 <= at < events.len(),
    ensures
        events_left(session(config, events)) <= events_left(session(config, events.take(at))),
        waits_for(session(config, events.take(at)), events[at]) ==> events_left(
            session(config, events),
        ) < events_left(session(config, events.take(at))),
    decreases events.len(),
{
    let before = events.drop_last();
    let step = session(config, before);
    if waits_for(step, events.last()) {
        law_session_comes_to_an_end(config, step, events.last());
    } else {
        assert(session(config, events) == step);
    }
    if at == events.len() - 1 {
        assert(events.take(at) =~= before);
    } else {
        lemma_less_is_left(config, before, at);
        assert(before.take(at) =~= events.take(at));
    }
}

/// No question of a session is answered twice, so that each has one answer.
pub proof fn law_question_is_answered_once(
    config: ConfigView,
    events: Seq<AddEvent>,
    field: Field,
    one: Seq<char>,
    other: Seq<char>,
)
    requires
        was_answered(config, events, field, one),
        was_answered(config, events, field, other),
    ensures
        one == other,
{
    let i = choose|at: int| answered_at(config, events, field, one, at);
    let j = choose|at: int| answered_at(config, events, field, other, at);
    if i < j {
        lemma_less_is_left(config, events.take(j), i);
        assert(events.take(j).take(i) =~= events.take(i));
    } else if j < i {
        lemma_less_is_left(config, events.take(i), j);
        assert(events.take(i).take(j) =~= events.take(j));
    }
}

/// What happens in a session in which every question is answered: the name, the provider type, the
/// base URL and the key; where there is a key, whether to store it, and where the answer is yes,
/// what came of that; the model, the backups and the probe; and where that failed, whether to add
/// the profile anyway.
pub open spec fn full_session(
    name: Seq<char>,
    provider: Seq<char>,
    url: Seq<char>,
    key: Seq<char>,
    store: Seq<char>,
    keyring: KeyringOutcome,
    model: Seq<char>,
    backups: Seq<char>,
    outcome: ProbeOutcome,
    consent: Seq<char>,
) -> Seq<AddEvent> {
    let start = Seq::empty().push(AddEvent::Answer(name)).push(AddEvent::Answer(provider)).push(
        AddEvent::Answer(url),
    ).push(AddEvent::Answer(key));
    let kept = if key.len() == 0 {
        start
    } else if store == seq!['y'] || store == seq!['Y'] {
        start.push(AddEvent::Answer(store)).push(AddEvent::Keyring(keyring))
    } else {
        start.push(AddEvent::Answer(store))
    };
    let probed = kept.push(AddEvent::Answer(model)).push(AddEvent::Answer(backups)).push(
        AddEvent::Probe(outcome),
    );
    if outcome is Ok {
        probed
    } else {
        probed.push(AddEvent::Answer(consent))
    }
}

proof fn lemma_session_push(config: ConfigView, events: Seq<AddEvent>, event: AddEvent)
    ensures
        session(config, events.push(event)) == next_step(config, session(config, events), event),
{
    assert(events.push(event).drop_last() =~= events);
}

/// A session in which every question is answered, with a name that is free and a model, adds a
/// profile if the provider was reached or the user wants it anyway, and is else broken off. The
/// profile has the key, unless the user had it stored and the keyring took it: it then names the
/// entry.
pub proof fn law_full_session(
    config: ConfigView,
    name: Seq<char>,
    provider: Seq<char>,
    url: Seq<char>,
    key: Seq<char>,
    store: Seq<char>,
    keyring: KeyringOutcome,
    model: Seq<char>,
    backups: Seq<char>,
    outcome: ProbeOutcome,
    consent: Seq<char>,
)
    requires
        name.len() > 0,
        forall|at: int| 0 <= at < config.profiles.len() ==> config.profiles[at].name != name,
        model.len() > 0,
    ensures
        ({
            let end = session(
                config,
                full_session(
                    name,
                    provider,
                    url,
                    key,
                    store,
                    keyring,
                    model,
                    backups,
                    outcome,
                    consent,
                ),
            );
            let stored = key.len() > 0 && (store == seq!['y'] || store == seq!['Y']) && keyring
                is Stored;
            let wanted = outcome is Ok || consent == seq!['y'] || consent == seq!['Y'];
            &&& !wanted ==> end == AddStepView::Fail(ProfileErrorView::Aborted)
            &&& wanted ==> {
                &&& end matches AddStepView::Add(profile) && {
                    &&& profile.name == name
                    &&& profile.provider_type == (if provider == seq!['1'] {
                        ProviderType::DirectAnthropic
                    } else if provider == seq!['3'] {
                        ProviderType::OpenAIResponses
                    } else {
                        ProviderType::OpenAICompatible
                    })
                    &&& profile.base_url == chosen_url(profile.provider_type, url)
                    &&& profile.default_model == model
                    &&& profile.backup_providers == comma_list(backups)
                    &&& stored ==> profile.api_key.len() == 0 && profile.api_key_keyring == Some(
                        name + "-api-key"@,
                    )
                    &&& !stored ==> profile.api_key == key && profile.api_key_keyring is None
                }
            }
        }),
{
    lemma_digit_answers();
    law_yes_is_one_letter(store);
    law_yes_is_one_letter(consent);
    assert(store.len() == 1 && store[0] == 'y' ==> store =~= seq!['y']);
    assert(store.len() == 1 && store[0] == 'Y' ==> store =~= seq!['Y']);
    assert(consent.len() == 1 && consent[0] == 'y' ==> consent =~= seq!['y']);
    assert(consent.len() == 1 && consent[0] == 'Y' ==> consent =~= seq!['Y']);
    assert(seq!['1'][0] != seq!['3'][0]);
    assert(seq!['1'][0] != seq!['2'][0]);
    assert(seq!['2'][0] != seq!['3'][0]);
    let none = Seq::<AddEvent>::empty();
    let one = none.push(AddEvent::Answer(name));
    let two = one.push(AddEvent::Answer(provider));
    let three = two.push(AddEvent::Answer(url));
    let start = three.push(AddEvent::Answer(key));
    lemma_session_push(config, none, AddEvent::Answer(name));
    lemma_session_push(config, one, AddEvent::Answer(provider));
    lemma_session_push(config, two, AddEvent::Answer(url));
    lemma_session_push(config, three, AddEvent::Answer(key));
    let asked = start.push(AddEvent::Answer(store));
    lemma_session_push(config, start, AddEvent::Answer(store));
    lemma_session_push(config, asked, AddEvent::Keyring(keyring));
    let kept = if key.len() == 0 {
        start
    } else if is_yes(store) {
        asked.push(AddEvent::Keyring(keyring))
    } else {
        asked
    };
    let modelled = kept.push(AddEvent::Answer(model));
    let listed = modelled.push(AddEvent::Answer(backups));
    let probed = listed.push(AddEvent::Probe(outcome));
    lemma_session_push(config, kept, AddEvent::Answer(model));
    lemma_session_push(config, modelled, AddEvent::Answer(backups));
    lemma_session_push(config, listed, AddEvent::Probe(outcome));
    lemma_session_push(config, probed, AddEvent::Answer(consent));
    assert(session(config, none) == first_turn().step);
    assert(!has_profile(config.profiles, name));
}

/// A name that is empty or taken, and a model that is empty, end the session with an error that says
/// so.
pub proof fn law_bad_answers_are_refused(
    config: ConfigView,
    draft: DraftView,
    name: Seq<char>,
    at: int,
)
    ensures
        after_answer(config, TopicView::Draft(Field::Name, draft), Seq::empty()).step
            == AddStepView::Fail(ProfileErrorView::EmptyName),
        name.len() > 0 && 0 <= at < config.profiles.len() && config.profiles[at].name == name
            ==> after_answer(config, TopicView::Draft(Field::Name, draft), name).step
            == AddStepView::Fail(ProfileErrorView::AlreadyExists(name)),
        after_answer(config, TopicView::Draft(Field::Model, draft), Seq::empty()).step
            == AddStepView::Fail(ProfileErrorView::EmptyModel),
{
    if 0 <= at < config.profiles.len() && config.profiles[at].name == name {
        assert(named(config.profiles, name, at));
    }
}

/// A session stores the key that was given under the name of the profile, in the entries of this
/// program.
pub proof fn law_keyring_entry(name: Seq<char>)
    ensures
        keyring_service() == "claudex"@,
        entry_of(name).take(name.len() as int) == name,
        entry_of(name).skip(name.len() as int) == "-api-key"@,
{
    assert(entry_of(name).take(name.len() as int) =~= name);
    assert(entry_of(name).skip(name.len() as int) =~= "-api-key"@);
}

/// What the user is shown before a question: the headings and menus with the questions that they
/// belong to, a notice where an answer was no choice, and what came of the keyring and of the probe.
/// Nothing is shown besides.
pub proof fn law_shown_lines(
    config: ConfigView,
    field: Field,
    draft: DraftView,
    answer: Seq<char>,
    keyring: KeyringOutcome,
    profile: ProfileView,
    outcome: ProbeOutcome,
)
    ensures
        first_turn().lines == seq!["=== Add New Profile ===\n"@],
        ({
            let turn = after_answer(config, TopicView::Draft(field, draft), answer);
            let picked = answer == seq!['1'] || answer == seq!['2'] || answer == seq!['3'];
            &&& field == Field::Name && turn.step is Ask ==> turn.lines == seq![
                "\nProvider type:"@,
                "  1) DirectAnthropic  (Anthropic, MiniMax, OpenRouter)"@,
                "  2) OpenAICompatible (Grok, OpenAI, DeepSeek, Kimi, GLM, Ollama)"@,
                "  3) OpenAIResponses  (ChatGPT/Codex subscription)"@,
            ]
            &&& field == Field::Provider && answer == seq!['1'] ==> turn.lines == preset_menu(
                ProviderType::DirectAnthropic,
            )
            &&& field == Field::Provider && answer == seq!['2'] ==> turn.lines == preset_menu(
                ProviderType::OpenAICompatible,
            )
            &&& field == Field::Provider && answer == seq!['3'] ==> turn.lines == preset_menu(
                ProviderType::OpenAIResponses,
            )
            &&& field == Field::Provider && !picked ==> turn.lines == seq![
                "Invalid choice, defaulting to OpenAICompatible"@,
            ] + preset_menu(ProviderType::OpenAICompatible)
            &&& turn.step is Fail || !(field == Field::Name || field == Field::Provider)
                ==> turn.lines.len() == 0
        }),
        ({
            let lines = after_stored(draft, keyring).lines;
            match keyring {
                KeyringOutcome::Stored => lines == seq![
                    "Stored in keyring as '"@ + (draft.name + "-api-key"@) + "'"@,
                ],
                KeyringOutcome::Refused(text) => lines == seq![
                    "Warning: failed to store in keyring: "@ + text@,
                ],
                KeyringOutcome::Unavailable(text) => lines == seq![
                    "Warning: keyring not available: "@ + text@,
                ],
            }
        }),
        after_probe(profile, outcome).lines == seq![outcome_text(outcome)],
        after_answer(config, TopicView::AddAnyway(profile), answer).lines.len() == 0,
{
    lemma_digit_answers();
    assert(seq!['1'][0] != seq!['3'][0]);
    assert(seq!['1'][0] != seq!['2'][0]);
    assert(seq!['2'][0] != seq!['3'][0]);
}

/// The words of each question.
pub proof fn law_question_labels(topic: TopicView)
    ensures
        match topic {
            TopicView::Draft(field, _) => {
                let label = AddQuestion::label_text(topic);
                &&& field == Field::Name ==> label == "Profile name"@
                &&& field == Field::Provider ==> label == "Select [1/2/3]"@
                &&& field == Field::BaseUrl ==> label == "Base URL"@
                &&& field == Field::ApiKey ==> label == "API Key (leave empty for none)"@
                &&& field == Field::StoreKey ==> label == "Store API key in system keyring? [y/N]"@
                &&& field == Field::Model ==> label == "Default model"@
                &&& field == Field::Backups ==> label
                    == "Backup providers (comma-separated, or empty)"@
            },
            TopicView::AddAnyway(_) => AddQuestion::label_text(topic) == "Add anyway? [y/N]"@,
        },
{
}

} // verus!
