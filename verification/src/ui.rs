//! The launcher's interactive state machine: the profile list, the add-account wizard (two
//! pasted redirect URLs, then a label), and the character picker.
//!
//! [`App::update`] takes the state and a [`Message`] (a user action, or the result of work the
//! caller did) to the next state and an [`Effect`]: the work the caller is to do next (network
//! requests, file and credential-store writes, opening the browser, starting the client). The
//! caller reports the outcome of that work back as another message.

use vstd::prelude::*;
use crate::accounts::{has_id, lemma_removed_id_absent, without_id, Profile, ProfileRegistry};
use crate::auth::{
    is_state, login_url, AuthError, LoginFlow, LoginFlowError, LoginOutcome, LOGIN_REDIRECT_URI,
};
use crate::characters::{Character, CharacterError};
use crate::request::HTTP_UNAUTHORIZED;
use crate::launcher::{launch_command, LaunchCommand, LaunchTarget};
use crate::news::NewsItem;
use crate::session::LaunchSession;
use crate::text::{concat3_str, concat_str};

verus! {

/// How many news items the launcher shows.
pub const NEWS_ITEM_COUNT: usize = 2;

/// The step of the add-account wizard.
pub enum AddAccountStep {
    /// Waiting for the URL the login page redirected to.
    EnteringLoginRedirect { flow: LoginFlow, login_url: String, input: String },
    /// Waiting for the URL the consent page redirected to.
    EnteringConsentRedirect { flow: LoginFlow, consent_url: String, input: String },
    /// Waiting for the user's label for the new profile.
    EnteringDisplayName { outcome: LoginOutcome, input: String },
}

/// What the launcher shows.
pub enum Screen {
    ProfileList,
    /// Work is under way; the text says what.
    Busy(String),
    AddAccount(AddAccountStep),
    CharacterPicker { profile_id: u128, session_id: String, characters: Vec<Character> },
}

/// User actions, and the outcomes of the work asked for by [`Effect`]s.
pub enum Message {
    StartAddAccount,
    CancelAddAccount,
    OpenUrl(String),
    /// Opening the browser failed; the text says why.
    OpenUrlFailed(String),
    LoginRedirectInputChanged(String),
    SubmitLoginRedirect,
    LoginStepDone(Result<(LoginFlow, String), String>),
    ConsentRedirectInputChanged(String),
    SubmitConsentRedirect,
    ConsentStepDone(Result<LoginOutcome, String>),
    DisplayNameInputChanged(String),
    SubmitDisplayName,
    /// Saving a new profile finished: its label, or why it failed.
    ProfileSaved(Result<String, String>),
    LaunchProfile(u128),
    ReconnectDone(u128, Result<(String, Vec<Character>), ReconnectFailure>),
    /// Log in again for a profile whose stored session has expired.
    LogInAgain(u128),
    /// Storing the new refresh token of a profile that logged in again finished.
    LoginSaved(Result<(), String>),
    RemoveProfile(u128),
    /// Persisting a removal finished.
    ProfileRemoved(Result<(), String>),
    CopySettingsFromDefault(u128),
    /// Copying the default settings finished.
    SettingsCopied(Result<(), String>),
    LaunchCharacter(usize),
    /// Starting the client finished: the character's name, or why it failed.
    Launched(Result<String, String>),
    NewsFetched(Result<Vec<NewsItem>, String>),
    NewsImageFetched(String, Result<Vec<u8>, String>),
}

/// Why reconnecting a profile failed: the description, and whether the service refused the
/// profile's session as unauthorized (HTTP 401), so that the user has to log in again.
#[derive(Debug, Clone, PartialEq, Eq)]
pub struct ReconnectFailure {
    pub message: String,
    pub session_expired: bool,
}

impl ReconnectFailure {
    /// The failure of a reconnection step: its description, and whether the service answered
    /// with HTTP 401, which means that the stored session has expired.
    pub fn from_error(e: &LoginFlowError) -> (r: ReconnectFailure)
        ensures
            r.message@ == match e {
                LoginFlowError::Auth(a) => crate::auth::auth_error_text(*a),
                LoginFlowError::Character(c) => crate::characters::character_error_text(*c),
                LoginFlowError::WrongStep => "this method isn't valid for the login flow's current step"@,
            },
            r.session_expired == match e {
                LoginFlowError::Auth(AuthError::Request(f)) => f.status == Some(HTTP_UNAUTHORIZED),
                LoginFlowError::Character(CharacterError::Request(f)) => f.status == Some(
                    HTTP_UNAUTHORIZED,
                ),
                _ => false,
            },
    {
        let session_expired = match e {
            LoginFlowError::Auth(AuthError::Request(f)) => match f.status {
                Some(code) => code == HTTP_UNAUTHORIZED,
                None => false,
            },
            LoginFlowError::Character(c) => c.is_unauthorized(),
            _ => false,
        };
        ReconnectFailure { message: e.message(), session_expired }
    }
}

/// Work for the caller to do.
pub enum Effect {
    /// No work.
    Nothing,
    /// Fetch up to this many news items.
    FetchNews(usize),
    /// Download these thumbnail images.
    FetchImages(Vec<String>),
    /// Keep this downloaded thumbnail for the given URL.
    StoreImage(String, Vec<u8>),
    OpenUrl(String),
    /// Run the login leg's token exchange for this flow and pasted URL.
    SubmitLogin { flow: LoginFlow, redirect_url: String },
    /// Run the consent leg (session creation, character list) for this flow and pasted URL.
    SubmitConsent { flow: LoginFlow, redirect_url: String },
    /// Persist the registry, which now holds `profile`, and store the login's refresh token for
    /// it.
    SaveNewProfile { profile: Profile, refresh_token: String, session_id: String },
    /// Reconnect the profile: refresh its tokens, open a session and list its characters.
    Reconnect(u128),
    /// Store this refresh token for an existing profile that logged in again.
    SaveLogin { id: u128, refresh_token: String },
    /// Persist the registry after removing this profile, and delete its stored token.
    SaveRemoval(u128),
    /// Copy the client's default settings onto this profile's.
    CopySettingsFromDefault(u128),
    /// Start the client.
    Launch { command: LaunchCommand, display_name: String },
}

/// The launcher's state.
pub struct App {
    pub registry: ProfileRegistry,
    /// Where the client's launcher executable was found, if it was.
    pub runelite_path: Option<String>,
    pub screen: Screen,
    pub status: Option<String>,
    pub news: Vec<NewsItem>,
    pub news_error: Option<String>,
    /// The profiles whose last reconnection was refused as unauthorized: their stored session
    /// has expired and they offer to log in again.
    pub expired: Vec<u128>,
    /// The profile that the open add-account wizard logs in again, when it was opened for that.
    pub relogin: Option<u128>,
}

// ---------------------------------------------------------------------------------------------
// The transition relation
// ---------------------------------------------------------------------------------------------

/// `o` is some text equal to `t`.
pub open spec fn text_is(o: Option<String>, t: Seq<char>) -> bool {
    o matches Some(s) && s@ == t
}

/// The screen is the busy screen showing `t`.
pub open spec fn busy_with(s: Screen, t: Seq<char>) -> bool {
    s matches Screen::Busy(b) && b@ == t
}

/// The profiles, the client's location, the news and the expired sessions are those of `old`.
pub open spec fn keeps_lists(old: App, new: App) -> bool {
    &&& new.registry == old.registry
    &&& new.runelite_path == old.runelite_path
    &&& new.news == old.news
    &&& new.news_error == old.news_error
    &&& new.expired == old.expired
}

/// All but the screen and the status are those of `old`.
pub open spec fn keeps_data(old: App, new: App) -> bool {
    keeps_lists(old, new) && new.relogin == old.relogin
}

/// The ids of `s` other than `id`, in order.
pub open spec fn drop_id(s: Seq<u128>, id: u128) -> Seq<u128>
    decreases s.len(),
{
    if s.len() == 0 {
        s
    } else {
        let rest = drop_id(s.drop_last(), id);
        if s.last() == id {
            rest
        } else {
            rest.push(s.last())
        }
    }
}

/// `s` with `id` added at the end, unless it is there already.
pub open spec fn with_id(s: Seq<u128>, id: u128) -> Seq<u128> {
    if s.contains(id) {
        s
    } else {
        s.push(id)
    }
}

/// Only the screen changed.
pub open spec fn only_screen_changed(old: App, new: App) -> bool {
    keeps_data(old, new) && new.status == old.status
}

/// Only the status changed, to the text `t`.
pub open spec fn only_status_set(old: App, new: App, t: Seq<char>) -> bool {
    keeps_data(old, new) && new.screen == old.screen && text_is(new.status, t)
}

/// Back on the profile list with the status `t`.
pub open spec fn back_to_list_with(old: App, new: App, t: Seq<char>) -> bool {
    keeps_data(old, new) && new.screen is ProfileList && text_is(new.status, t)
}

/// A fresh add-account wizard: its login flow just started, with an empty input.
pub open spec fn wizard_started(s: Screen) -> bool {
    match s {
        Screen::AddAccount(AddAccountStep::EnteringLoginRedirect { flow, login_url: url, input }) => {
            &&& input@.len() == 0
            &&& match flow {
                LoginFlow::AwaitingLogin { pkce, state } => {
                    &&& pkce.is_valid()
                    &&& is_state(state@)
                    &&& url@ == login_url(LOGIN_REDIRECT_URI@, state@, pkce.challenge@)
                },
                _ => false,
            }
        },
        _ => false,
    }
}

/// The status after the launch decision for character `index`, when the client cannot be
/// started, or `None` when it can.
pub open spec fn launch_refusal(app: App, index: usize) -> Option<Seq<char>> {
    match app.screen {
        Screen::CharacterPicker { profile_id, characters, .. } => {
            if index >= characters.len() {
                Some("No character at that index."@)
            } else if !(exists|i: int|
                0 <= i < app.registry.profiles@.len() && #[trigger] app.registry.profiles@[i].id
                    == profile_id) {
                Some("Profile no longer exists."@)
            } else if app.runelite_path is None {
                Some("RuneLite not found in the default install location."@)
            } else {
                None
            }
        },
        _ => Some("No character picker was active."@),
    }
}

/// The command that launching character `index` runs, for the first profile with the picker's
/// id, through the client's launcher executable.
pub open spec fn launch_matches(app: App, index: usize, command: LaunchCommand, name: Seq<char>) -> bool {
    match app.screen {
        Screen::CharacterPicker { profile_id, session_id, characters } => {
            let character = characters@[index as int];
            &&& name == character.display_name@
            &&& exists|i: int|
                0 <= i < app.registry.profiles@.len() && app.registry.profiles@[i].id == profile_id
                    && (forall|j: int| 0 <= j < i ==> app.registry.profiles@[j].id != profile_id)
                    && launch_command_post(
                    app.runelite_path->0@,
                    #[trigger] app.registry.profiles@[i],
                    session_id@,
                    character,
                    command,
                )
        },
        _ => false,
    }
}

/// `command` is the launch command of the executable at `path` for `profile`, logged into
/// `character` under the session `session_id`.
pub open spec fn launch_command_post(
    path: Seq<char>,
    profile: Profile,
    session_id: Seq<char>,
    character: Character,
    command: LaunchCommand,
) -> bool {
    &&& command.program@ == path
    &&& crate::launcher::strings_view(command.args@) == seq![
        "--profile="@ + crate::accounts::uuid_text(profile.id),
    ]
    &&& crate::launcher::pairs_view(command.envs@) == seq![
        ("JX_SESSION_ID"@, session_id),
        ("JX_CHARACTER_ID"@, character.account_id@),
        ("JX_DISPLAY_NAME"@, character.display_name@),
    ]
}

/// The image URLs of the news items, in order, skipping items without one.
pub open spec fn image_urls(items: Seq<NewsItem>) -> Seq<Seq<char>>
    decreases items.len(),
{
    if items.len() == 0 {
        Seq::empty()
    } else {
        let prev = image_urls(items.drop_last());
        match items.last().image_url {
            Some(u) => prev.push(u@),
            None => prev,
        }
    }
}

/// How each message changes the state, and the work it asks for.
pub open spec fn transition(old: App, msg: Message, new: App, effect: Effect) -> bool {
    match msg {
        Message::StartAddAccount => {
            &&& keeps_lists(old, new)
            &&& new.relogin is None
            &&& new.status is None
            &&& wizard_started(new.screen)
            &&& (effect is Nothing)
        },
        Message::LogInAgain(id) => {
            &&& keeps_lists(old, new)
            &&& new.relogin == Some(id)
            &&& new.status is None
            &&& wizard_started(new.screen)
            &&& (effect is Nothing)
        },
        Message::LoginSaved(res) => (effect is Nothing) && match res {
            Ok(()) => only_status_set(old, new, "Logged in again."@),
            Err(e) => only_status_set(old, new, "Failed to save login: "@ + e@),
        },
        Message::CancelAddAccount => only_screen_changed(old, new) && new.screen is ProfileList
            && (effect is Nothing),
        Message::OpenUrl(url) => new == old && effect == Effect::OpenUrl(url),
        Message::OpenUrlFailed(e) => only_status_set(old, new, "Couldn't open browser: "@ + e@)
            && (effect is Nothing),
        Message::LoginRedirectInputChanged(v) => only_screen_changed(old, new) && (effect is Nothing)
            && match old.screen {
            Screen::AddAccount(AddAccountStep::EnteringLoginRedirect { flow, login_url, .. }) => {
                new.screen == Screen::AddAccount(
                    AddAccountStep::EnteringLoginRedirect { flow, login_url, input: v },
                )
            },
            _ => new.screen == old.screen,
        },
        Message::ConsentRedirectInputChanged(v) => only_screen_changed(old, new) && (effect is Nothing)
            && match old.screen {
            Screen::AddAccount(AddAccountStep::EnteringConsentRedirect { flow, consent_url, .. }) => {
                new.screen == Screen::AddAccount(
                    AddAccountStep::EnteringConsentRedirect { flow, consent_url, input: v },
                )
            },
            _ => new.screen == old.screen,
        },
        Message::DisplayNameInputChanged(v) => only_screen_changed(old, new) && (effect is Nothing)
            && match old.screen {
            Screen::AddAccount(AddAccountStep::EnteringDisplayName { outcome, .. }) => {
                new.screen == Screen::AddAccount(
                    AddAccountStep::EnteringDisplayName { outcome, input: v },
                )
            },
            _ => new.screen == old.screen,
        },
        Message::SubmitLoginRedirect => match old.screen {
            Screen::AddAccount(AddAccountStep::EnteringLoginRedirect { flow, input, .. }) => {
                &&& only_screen_changed(old, new)
                &&& busy_with(new.screen, "Logging in..."@)
                &&& effect == Effect::SubmitLogin { flow, redirect_url: input }
            },
            _ => new == old && (effect is Nothing),
        },
        Message::LoginStepDone(res) => match res {
            Ok((flow, consent_url)) => {
                &&& only_screen_changed(old, new)
                &&& match new.screen {
                    Screen::AddAccount(
                        AddAccountStep::EnteringConsentRedirect { flow: f, consent_url: u, input },
                    ) => f == flow && u == consent_url && input@.len() == 0,
                    _ => false,
                }
                &&& (effect is Nothing)
            },
            Err(e) => back_to_list_with(old, new, "Login failed: "@ + e@) && (effect is Nothing),
        },
        Message::SubmitConsentRedirect => match old.screen {
            Screen::AddAccount(AddAccountStep::EnteringConsentRedirect { flow, input, .. }) => {
                &&& only_screen_changed(old, new)
                &&& busy_with(new.screen, "Finishing login..."@)
                &&& effect == Effect::SubmitConsent { flow, redirect_url: input }
            },
            _ => new == old && (effect is Nothing),
        },
        Message::ConsentStepDone(res) => match res {
            Ok(outcome) => match old.relogin {
                None => {
                    &&& only_screen_changed(old, new)
                    &&& match new.screen {
                        Screen::AddAccount(
                            AddAccountStep::EnteringDisplayName { outcome: o, input },
                        ) => o == outcome && input@.len() == 0,
                        _ => false,
                    }
                    &&& (effect is Nothing)
                },
                Some(id) => {
                    &&& new.registry == old.registry
                    &&& new.runelite_path == old.runelite_path
                    &&& new.news == old.news
                    &&& new.news_error == old.news_error
                    &&& new.status == old.status
                    &&& new.screen is ProfileList
                    &&& new.relogin is None
                    &&& new.expired@ == drop_id(old.expired@, id)
                    &&& effect == Effect::SaveLogin { id, refresh_token: outcome.refresh_token }
                },
            },
            Err(e) => back_to_list_with(old, new, "Consent step failed: "@ + e@) && (effect is Nothing),
        },
        Message::SubmitDisplayName => match old.screen {
            Screen::AddAccount(AddAccountStep::EnteringDisplayName { outcome, input }) => {
                &&& new.expired == old.expired
                &&& new.relogin == old.relogin
                &&& new.runelite_path == old.runelite_path
                &&& new.news == old.news
                &&& new.news_error == old.news_error
                &&& new.status == old.status
                &&& new.screen is ProfileList
                &&& match effect {
                    Effect::SaveNewProfile { profile, refresh_token, session_id } => {
                        &&& new.registry@ == old.registry@.push(profile@)
                        &&& profile.display_name@ == input@
                        &&& refresh_token == outcome.refresh_token
                        &&& session_id == outcome.session_id
                    },
                    _ => false,
                }
            },
            _ => back_to_list_with(old, new, "Add-account flow was in an unexpected state."@)
                && (effect is Nothing),
        },
        Message::ProfileSaved(res) => (effect is Nothing) && match res {
            Ok(name) => only_status_set(old, new, "Added profile \""@ + name@ + "\"."@),
            Err(e) => only_status_set(old, new, "Failed to save profile: "@ + e@),
        },
        Message::LaunchProfile(id) => {
            &&& keeps_data(old, new)
            &&& busy_with(new.screen, "Reconnecting..."@)
            &&& new.status is None
            &&& effect == Effect::Reconnect(id)
        },
        Message::ReconnectDone(id, res) => {
            &&& new.registry == old.registry
            &&& new.runelite_path == old.runelite_path
            &&& new.news == old.news
            &&& new.news_error == old.news_error
            &&& new.relogin == old.relogin
            &&& (effect is Nothing)
            &&& match res {
                Ok((session_id, characters)) => {
                    &&& new.status == old.status
                    &&& new.screen == Screen::CharacterPicker {
                        profile_id: id,
                        session_id,
                        characters,
                    }
                    &&& new.expired@ == drop_id(old.expired@, id)
                },
                Err(f) => {
                    &&& new.screen is ProfileList
                    &&& text_is(
                        new.status,
                        "Couldn't reconnect (you may need to log in again): "@ + f.message@,
                    )
                    &&& new.expired@ == if f.session_expired {
                        with_id(old.expired@, id)
                    } else {
                        old.expired@
                    }
                },
            }
        },
        Message::RemoveProfile(id) => {
            &&& new.registry@ == without_id(old.registry@, id)
            &&& new.expired == old.expired
            &&& new.relogin == old.relogin
            &&& new.runelite_path == old.runelite_path
            &&& new.news == old.news
            &&& new.news_error == old.news_error
            &&& new.screen == old.screen
            &&& new.status == old.status
            &&& effect == Effect::SaveRemoval(id)
        },
        Message::ProfileRemoved(res) => (effect is Nothing) && match res {
            Ok(()) => only_status_set(old, new, "Profile removed."@),
            Err(e) => only_status_set(old, new, "Failed to remove profile: "@ + e@),
        },
        Message::CopySettingsFromDefault(id) => new == old && effect
            == Effect::CopySettingsFromDefault(id),
        Message::SettingsCopied(res) => (effect is Nothing) && match res {
            Ok(()) => only_status_set(
                old,
                new,
                "Copied Default's plugin settings into this profile. Restart RuneLite for this profile to see the change."@,
            ),
            Err(e) => only_status_set(
                old,
                new,
                "Couldn't copy settings (make sure RuneLite isn't running for this profile, and that it's been launched at least once): "@
                    + e@,
            ),
        },
        Message::LaunchCharacter(index) => {
            &&& keeps_data(old, new)
            &&& new.screen is ProfileList
            &&& match launch_refusal(old, index) {
                Some(t) => text_is(new.status, t) && (effect is Nothing),
                None => new.status == old.status && match effect {
                    Effect::Launch { command, display_name } => launch_matches(
                        old,
                        index,
                        command,
                        display_name@,
                    ),
                    _ => false,
                },
            }
        },
        Message::Launched(res) => (effect is Nothing) && match res {
            Ok(name) => only_status_set(old, new, "Launched RuneLite as \""@ + name@ + "\"."@),
            Err(e) => only_status_set(old, new, "Failed to launch RuneLite: "@ + e@),
        },
        Message::NewsFetched(res) => match res {
            Ok(items) => {
                &&& new.registry == old.registry
                &&& new.expired == old.expired
                &&& new.relogin == old.relogin
                &&& new.runelite_path == old.runelite_path
                &&& new.screen == old.screen
                &&& new.status == old.status
                &&& new.news == items
                &&& new.news_error is None
                &&& match effect {
                    Effect::FetchImages(urls) => crate::launcher::strings_view(urls@)
                        == image_urls(items@),
                    _ => false,
                }
            },
            Err(e) => {
                &&& new.registry == old.registry
                &&& new.expired == old.expired
                &&& new.relogin == old.relogin
                &&& new.runelite_path == old.runelite_path
                &&& new.screen == old.screen
                &&& new.status == old.status
                &&& new.news == old.news
                &&& new.news_error == Some(e)
                &&& (effect is Nothing)
            },
        },
        Message::NewsImageFetched(url, res) => new == old && match res {
            Ok(bytes) => effect == Effect::StoreImage(url, bytes),
            Err(_) => (effect is Nothing),
        },
    }
}


// ---------------------------------------------------------------------------------------------
// Laws
// ---------------------------------------------------------------------------------------------

/// Only naming a new profile and removing one change the profiles: every other message leaves
/// them as they were.
pub proof fn lemma_profiles_change_only_by_add_or_remove(
    old: App,
    msg: Message,
    new: App,
    effect: Effect,
)
    requires
        transition(old, msg, new, effect),
        !(msg is SubmitDisplayName),
        !(msg is RemoveProfile),
    ensures
        new.registry == old.registry,
{
}

/// After a profile is removed, no profile has its id, the others keep their order, and the
/// removal is persisted.
pub proof fn lemma_removal_drops_profile(old: App, id: u128, new: App, effect: Effect)
    requires
        transition(old, Message::RemoveProfile(id), new, effect),
    ensures
        !has_id(new.registry@, id),
        new.registry@ == without_id(old.registry@, id),
        effect == Effect::SaveRemoval(id),
{
    lemma_removed_id_absent(old.registry@, id);
}

/// Naming the new profile at the end of the wizard adds exactly one profile, labelled with
/// what the user typed, after the existing ones, and hands the login's refresh token on to be
/// stored for it.
pub proof fn lemma_naming_adds_one_profile(
    old: App,
    outcome: LoginOutcome,
    input: String,
    new: App,
    effect: Effect,
)
    requires
        old.screen == Screen::AddAccount(AddAccountStep::EnteringDisplayName { outcome, input }),
        transition(old, Message::SubmitDisplayName, new, effect),
    ensures
        new.registry@.len() == old.registry@.len() + 1,
        new.registry@.drop_last() == old.registry@,
        new.registry@.last().display_name == input@,
        effect matches Effect::SaveNewProfile { profile, refresh_token, .. } && new.registry@.last()
            == profile@ && refresh_token == outcome.refresh_token,
{
    assert(old.registry@.push(new.registry@.last()).drop_last() =~= old.registry@);
}

/// Submitting a redirect hands on exactly the URL the user pasted into that step's field,
/// together with the step's flow: the login leg gets the login step's input, the consent leg the
/// consent step's input.
pub proof fn lemma_submit_hands_on_pasted_url(old: App, msg: Message, new: App, effect: Effect)
    requires
        transition(old, msg, new, effect),
    ensures
        match (msg, old.screen) {
            (
                Message::SubmitLoginRedirect,
                Screen::AddAccount(AddAccountStep::EnteringLoginRedirect { flow, input, .. }),
            ) => effect matches Effect::SubmitLogin { flow: f, redirect_url } && redirect_url
                == input && f == flow,
            (
                Message::SubmitConsentRedirect,
                Screen::AddAccount(AddAccountStep::EnteringConsentRedirect { flow, input, .. }),
            ) => effect matches Effect::SubmitConsent { flow: f, redirect_url } && redirect_url
                == input && f == flow,
            _ => true,
        },
{
}

/// What the user types into a redirect field is what is submitted: after the consent step's
/// field is set to `v`, submitting hands `v` to the consent leg, and likewise for the login step.
pub proof fn lemma_typed_url_is_submitted(
    a: App,
    v: String,
    b: App,
    e1: Effect,
    c: App,
    e2: Effect,
)
    requires
        a.screen matches Screen::AddAccount(AddAccountStep::EnteringConsentRedirect { .. }),
        transition(a, Message::ConsentRedirectInputChanged(v), b, e1),
        transition(b, Message::SubmitConsentRedirect, c, e2),
    ensures
        e2 matches Effect::SubmitConsent { redirect_url, .. } && redirect_url == v,
{
}

/// Likewise for the login step: after its field is set to `v`, submitting hands `v` to the login
/// leg.
pub proof fn lemma_typed_login_url_is_submitted(
    a: App,
    v: String,
    b: App,
    e1: Effect,
    c: App,
    e2: Effect,
)
    requires
        a.screen matches Screen::AddAccount(AddAccountStep::EnteringLoginRedirect { .. }),
        transition(a, Message::LoginRedirectInputChanged(v), b, e1),
        transition(b, Message::SubmitLoginRedirect, c, e2),
    ensures
        e2 matches Effect::SubmitLogin { redirect_url, .. } && redirect_url == v,
{
}

/// Launching character `index` of the picker starts the client for that very character: the
/// command logs into `characters[index]` under the picker's session, for the picker's profile,
/// and the name reported back is that character's.
pub proof fn lemma_launch_uses_picked_character(
    old: App,
    index: usize,
    new: App,
    command: LaunchCommand,
    display_name: String,
)
    requires
        transition(old, Message::LaunchCharacter(index), new, Effect::Launch { command, display_name }),
    ensures
        old.screen matches Screen::CharacterPicker { profile_id, session_id, characters } && {
            &&& index < characters@.len()
            &&& display_name@ == characters@[index as int].display_name@
            &&& crate::launcher::pairs_view(command.envs@) == seq![
                ("JX_SESSION_ID"@, session_id@),
                ("JX_CHARACTER_ID"@, characters@[index as int].account_id@),
                ("JX_DISPLAY_NAME"@, characters@[index as int].display_name@),
            ]
            &&& crate::launcher::strings_view(command.args@) == seq![
                "--profile="@ + crate::accounts::uuid_text(profile_id),
            ]
            &&& old.runelite_path matches Some(p) && command.program@ == p@
        },
{
}

/// Adding an account never logs in again for an existing profile: the wizard that
/// `StartAddAccount` opens has no profile to log in again, while `LogInAgain(id)` opens one for
/// `id`; the wizard's steps keep that choice until the consent step finishes.
pub proof fn lemma_wizard_target(old: App, msg: Message, new: App, effect: Effect)
    requires
        transition(old, msg, new, effect),
    ensures
        msg is StartAddAccount ==> new.relogin is None,
        msg matches Message::LogInAgain(id) ==> new.relogin == Some(id),
        !(msg is StartAddAccount) && !(msg is LogInAgain) && !(msg is ConsentStepDone)
            ==> new.relogin == old.relogin,
{
}

/// A finished consent step of an Add-Account wizard (no profile to log in again) asks for the
/// new profile's label, with the login's outcome, and saves nothing yet; of a Log-in-again
/// wizard, it stores the new refresh token for that profile and adds none.
pub proof fn lemma_consent_done_target(
    old: App,
    outcome: LoginOutcome,
    new: App,
    effect: Effect,
)
    requires
        transition(old, Message::ConsentStepDone(Ok(outcome)), new, effect),
    ensures
        old.relogin is None ==> {
            &&& new.screen matches Screen::AddAccount(
                AddAccountStep::EnteringDisplayName { outcome: o, .. },
            ) && o == outcome
            &&& effect is Nothing
            &&& new.registry == old.registry
        },
        old.relogin matches Some(id) ==> {
            &&& effect matches Effect::SaveLogin { id: target, refresh_token } && target == id
                && refresh_token == outcome.refresh_token
            &&& new.registry == old.registry
            &&& new.relogin is None
        },
{
}

/// Where each message leads: starting the wizard (to add an account or to log in again) opens
/// the login step with an empty field; a finished login leg opens the consent step with the
/// consent URL it produced and an empty field; a finished consent leg of an Add-Account wizard
/// asks for the new profile's label; cancelling, naming the profile, a failed leg and launching
/// a character return to the profile list; launching a profile waits for the reconnection,
/// whose characters then fill the picker; typing into a step's field keeps its flow and URL.
pub proof fn lemma_wizard_navigation(old: App, msg: Message, new: App, effect: Effect)
    requires
        transition(old, msg, new, effect),
    ensures
        match msg {
            Message::StartAddAccount | Message::LogInAgain(_) => {
                &&& new.screen matches Screen::AddAccount(
                    AddAccountStep::EnteringLoginRedirect { input, flow, .. },
                ) && input@.len() == 0 && flow is AwaitingLogin
                &&& new.status is None
                &&& new.registry == old.registry
            },
            Message::LoginStepDone(Ok((flow, url))) => new.screen matches Screen::AddAccount(
                AddAccountStep::EnteringConsentRedirect { flow: f, consent_url: u, input },
            ) && f == flow && u == url && input@.len() == 0,
            Message::ConsentStepDone(Ok(outcome)) => old.relogin is None ==> (new.screen matches Screen::AddAccount(
                AddAccountStep::EnteringDisplayName { outcome: o, input },
            ) && o == outcome && input@.len() == 0),
            Message::CancelAddAccount | Message::SubmitDisplayName | Message::LaunchCharacter(_)
            | Message::LoginStepDone(Err(_)) | Message::ConsentStepDone(Err(_)) => new.screen is ProfileList,
            Message::LaunchProfile(id) => new.screen is Busy && effect == Effect::Reconnect(id),
            Message::ReconnectDone(id, Ok((session_id, characters))) => new.screen
                == Screen::CharacterPicker { profile_id: id, session_id, characters },
            Message::LoginRedirectInputChanged(v) => match old.screen {
                Screen::AddAccount(
                    AddAccountStep::EnteringLoginRedirect { flow, login_url, .. },
                ) => new.screen == Screen::AddAccount(
                    AddAccountStep::EnteringLoginRedirect { flow, login_url, input: v },
                ),
                _ => new.screen == old.screen,
            },
            Message::ConsentRedirectInputChanged(v) => match old.screen {
                Screen::AddAccount(
                    AddAccountStep::EnteringConsentRedirect { flow, consent_url, .. },
                ) => new.screen == Screen::AddAccount(
                    AddAccountStep::EnteringConsentRedirect { flow, consent_url, input: v },
                ),
                _ => new.screen == old.screen,
            },
            Message::DisplayNameInputChanged(v) => match old.screen {
                Screen::AddAccount(AddAccountStep::EnteringDisplayName { outcome, .. }) => new.screen
                    == Screen::AddAccount(AddAccountStep::EnteringDisplayName { outcome, input: v }),
                _ => new.screen == old.screen,
            },
            _ => true,
        },
{
}

/// Every failed step of the wizard or of a reconnection returns to the profile list with a
/// status that says what failed.
pub proof fn lemma_failures_return_to_list(old: App, msg: Message, new: App, effect: Effect)
    requires
        transition(old, msg, new, effect),
        msg matches Message::LoginStepDone(Err(_)) || msg matches Message::ConsentStepDone(Err(_))
            || msg matches Message::ReconnectDone(_, Err(_)),
    ensures
        new.screen is ProfileList,
        new.status is Some,
        new.registry == old.registry,
        effect is Nothing,
{
}

/// After dropping `id`, the ids hold no `id`, and every other id they held is still there.
pub proof fn lemma_drop_id(s: Seq<u128>, id: u128)
    ensures
        !drop_id(s, id).contains(id),
        forall|x: u128| x != id && s.contains(x) ==> drop_id(s, id).contains(x),
    decreases s.len(),
{
    if s.len() > 0 {
        lemma_drop_id(s.drop_last(), id);
        let rest = drop_id(s.drop_last(), id);
        assert forall|x: u128| x != id && s.contains(x) implies drop_id(s, id).contains(x) by {
            let k = choose|k: int| 0 <= k < s.len() && s[k] == x;
            if k < s.len() - 1 {
                assert(s.drop_last()[k] == x);
                assert(s.drop_last().contains(x));
                assert(rest.contains(x));
                if s.last() != id {
                    let m = choose|m: int| 0 <= m < rest.len() && rest[m] == x;
                    assert(rest.push(s.last())[m] == x);
                }
            } else {
                assert(rest.push(s.last())[rest.len() as int] == x);
            }
        }
        if s.last() != id {
            assert forall|m: int| 0 <= m < rest.push(s.last()).len() implies rest.push(s.last())[m]
                != id by {
                if m < rest.len() {
                    assert(rest[m] != id);
                }
            }
        }
    }
}

/// A profile offers to log in again exactly while its last reconnection was refused as
/// unauthorized: such a refusal marks it, a successful reconnection unmarks it, and so does
/// logging in again for it, which stores the new refresh token for that same profile.
pub proof fn lemma_log_in_again_marks(old: App, msg: Message, new: App, effect: Effect)
    requires
        transition(old, msg, new, effect),
    ensures
        match msg {
            Message::ReconnectDone(id, Err(f)) => if f.session_expired {
                new.expired@.contains(id)
            } else {
                new.expired@ == old.expired@
            },
            Message::ReconnectDone(id, Ok(_)) => !new.expired@.contains(id),
            Message::ConsentStepDone(Ok(outcome)) => match old.relogin {
                Some(id) => {
                    &&& !new.expired@.contains(id)
                    &&& new.registry == old.registry
                    &&& effect == Effect::SaveLogin { id, refresh_token: outcome.refresh_token }
                },
                None => true,
            },
            _ => true,
        },
{
    match msg {
        Message::ReconnectDone(id, res) => {
            lemma_drop_id(old.expired@, id);
            if let Err(f) = res {
                if f.session_expired && !old.expired@.contains(id) {
                    assert(old.expired@.push(id)[old.expired@.len() as int] == id);
                }
            }
        },
        Message::ConsentStepDone(_) => {
            if let Some(id) = old.relogin {
                lemma_drop_id(old.expired@, id);
            }
        },
        _ => {},
    }
}

// ---------------------------------------------------------------------------------------------
// The machine
// ---------------------------------------------------------------------------------------------

/// `ids` with `id` added at the end, unless it is there already.
fn with_id_exec(ids: &Vec<u128>, id: u128) -> (r: Vec<u128>)
    ensures
        r@ == with_id(ids@, id),
{
    let mut k: usize = 0;
    while k < ids.len()
        invariant
            k <= ids.len(),
            forall|j: int| 0 <= j < k ==> ids@[j] != id,
        decreases ids.len() - k,
    {
        if ids[k] == id {
            assert(ids@.contains(id)) by {
                assert(ids@[k as int] == id);
            }
            return ids.clone();
        }
        k += 1;
    }
    let mut r = ids.clone();
    r.push(id);
    r
}

/// The ids of `ids` other than `id`, in order.
fn drop_id_exec(ids: &Vec<u128>, id: u128) -> (r: Vec<u128>)
    ensures
        r@ == drop_id(ids@, id),
{
    let mut r: Vec<u128> = Vec::new();
    let mut k: usize = 0;
    assert(ids@.take(0) =~= Seq::<u128>::empty());
    while k < ids.len()
        invariant
            k <= ids.len(),
            r@ == drop_id(ids@.take(k as int), id),
        decreases ids.len() - k,
    {
        assert(ids@.take(k + 1).drop_last() =~= ids@.take(k as int));
        assert(ids@.take(k + 1).last() == ids@[k as int]);
        if ids[k] != id {
            r.push(ids[k]);
        }
        k += 1;
    }
    assert(ids@.take(k as int) =~= ids@);
    r
}

impl App {
    /// The launcher's starting state for a loaded registry and the client's location, if known:
    /// the profile list, with the news still to be fetched.
    pub fn new(registry: ProfileRegistry, runelite_path: Option<String>) -> (r: (App, Effect))
        ensures
            r.0.registry == registry,
            r.0.runelite_path == runelite_path,
            r.0.screen is ProfileList,
            r.0.status is None,
            r.0.news@.len() == 0,
            r.0.news_error is None,
            r.0.expired@.len() == 0,
            r.0.relogin is None,
            r.1 == Effect::FetchNews(NEWS_ITEM_COUNT),
    {
        (
            App {
                registry,
                runelite_path,
                screen: Screen::ProfileList,
                status: None,
                news: Vec::new(),
                news_error: None,
                expired: Vec::new(),
                relogin: None,
            },
            Effect::FetchNews(NEWS_ITEM_COUNT),
        )
    }

    /// Takes the screen out, leaving `placeholder` in its place.
    fn take_screen(&mut self, placeholder: Screen) -> (r: Screen)
        ensures
            r == old(self).screen,
            final(self).screen == placeholder,
            final(self).registry == old(self).registry,
            final(self).runelite_path == old(self).runelite_path,
            final(self).status == old(self).status,
            final(self).news == old(self).news,
            final(self).news_error == old(self).news_error,
            final(self).expired == old(self).expired,
            final(self).relogin == old(self).relogin,
    {
        let mut screen = placeholder;
        std::mem::swap(&mut self.screen, &mut screen);
        screen
    }

    /// The index of the first profile with id `id`.
    fn profile_index(&self, id: u128) -> (r: Option<usize>)
        ensures
            match r {
                Some(k) => k < self.registry.profiles@.len() && self.registry.profiles@[k as int].id
                    == id && forall|j: int| 0 <= j < k ==> self.registry.profiles@[j].id != id,
                None => forall|j: int|
                    0 <= j < self.registry.profiles@.len() ==> self.registry.profiles@[j].id != id,
            },
    {
        let mut k: usize = 0;
        while k < self.registry.profiles.len()
            invariant
                k <= self.registry.profiles@.len(),
                forall|j: int| 0 <= j < k ==> self.registry.profiles@[j].id != id,
            decreases self.registry.profiles.len() - k,
        {
            if self.registry.profiles[k].id == id {
                return Some(k);
            }
            k += 1;
        }
        None
    }

    /// The decision to start the client for character `index` of the picker: the command to run
    /// and the character's name, or the status that says why it cannot be started.
    pub fn try_launch_character(&self, index: usize) -> (r: Result<(LaunchCommand, String), String>)
        ensures
            match launch_refusal(*self, index) {
                Some(t) => r matches Err(m) && m@ == t,
                None => r matches Ok((c, n)) && launch_matches(*self, index, c, n@),
            },
            match (r, self.screen) {
                (Ok((c, n)), Screen::CharacterPicker { session_id, characters, .. }) => {
                    &&& index < characters@.len()
                    &&& n@ == characters@[index as int].display_name@
                    &&& crate::launcher::pairs_view(c.envs@) == seq![
                        ("JX_SESSION_ID"@, session_id@),
                        ("JX_CHARACTER_ID"@, characters@[index as int].account_id@),
                        ("JX_DISPLAY_NAME"@, characters@[index as int].display_name@),
                    ]
                },
                (Ok(_), _) => false,
                (Err(_), _) => true,
            },
    {
        match &self.screen {
            Screen::CharacterPicker { profile_id, session_id, characters } => {
                if index >= characters.len() {
                    return Err(String::from_str("No character at that index."));
                }
                let character = &characters[index];
                let k = match self.profile_index(*profile_id) {
                    None => {
                        return Err(String::from_str("Profile no longer exists."));
                    },
                    Some(k) => k,
                };
                let path = match &self.runelite_path {
                    None => {
                        return Err(
                            String::from_str("RuneLite not found in the default install location."),
                        );
                    },
                    Some(p) => p,
                };
                let session = LaunchSession::for_character(session_id.clone(), character);
                let profile = &self.registry.profiles[k];
                let command = launch_command(LaunchTarget::WindowsExe(path.clone()), profile, &session);
                assert(crate::launcher::strings_view(command.args@) =~= seq![
                    "--profile="@ + crate::accounts::uuid_text(profile.id),
                ]);
                assert(launch_command_post(
                    path@,
                    self.registry.profiles@[k as int],
                    session_id@,
                    *character,
                    command,
                ));
                Ok((command, session.display_name))
            },
            _ => Err(String::from_str("No character picker was active.")),
        }
    }

    /// The image URLs of `items`.
    fn image_urls_of(items: &Vec<NewsItem>) -> (r: Vec<String>)
        ensures
            crate::launcher::strings_view(r@) == image_urls(items@),
    {
        let mut urls: Vec<String> = Vec::new();
        let mut i: usize = 0;
        assert(items@.take(0) =~= Seq::<NewsItem>::empty());
        assert(crate::launcher::strings_view(urls@) =~= Seq::<Seq<char>>::empty());
        while i < items.len()
            invariant
                i <= items.len(),
                crate::launcher::strings_view(urls@) == image_urls(items@.take(i as int)),
            decreases items.len() - i,
        {
            assert(items@.take(i + 1).drop_last() =~= items@.take(i as int));
            assert(items@.take(i + 1).last() == items@[i as int]);
            match &items[i].image_url {
                Some(u) => {
                    let ghost before = urls@;
                    urls.push(u.clone());
                    assert(crate::launcher::strings_view(urls@) =~= crate::launcher::strings_view(
                        before,
                    ).push(u@));
                },
                None => {},
            }
            i += 1;
        }
        assert(items@.take(i as int) =~= items@);
        urls
    }

    /// One step of the launcher: the next state, and the work for the caller.
    pub fn update(&mut self, msg: Message) -> (effect: Effect)
        ensures
            transition(*old(self), msg, *final(self), effect),
    {
        match msg {
            Message::StartAddAccount => {
                let (flow, login_url) = LoginFlow::start();
                self.screen = Screen::AddAccount(
                    AddAccountStep::EnteringLoginRedirect { flow, login_url, input: String::new() },
                );
                self.status = None;
                self.relogin = None;
                Effect::Nothing
            },
            Message::LogInAgain(id) => {
                let (flow, login_url) = LoginFlow::start();
                self.screen = Screen::AddAccount(
                    AddAccountStep::EnteringLoginRedirect { flow, login_url, input: String::new() },
                );
                self.status = None;
                self.relogin = Some(id);
                Effect::Nothing
            },
            Message::LoginSaved(result) => {
                self.status = Some(
                    match result {
                        Ok(()) => String::from_str("Logged in again."),
                        Err(e) => concat_str("Failed to save login: ", e.as_str()),
                    },
                );
                Effect::Nothing
            },
            Message::CancelAddAccount => {
                self.screen = Screen::ProfileList;
                Effect::Nothing
            },
            Message::OpenUrl(url) => Effect::OpenUrl(url),
            Message::OpenUrlFailed(e) => {
                self.status = Some(concat_str("Couldn't open browser: ", e.as_str()));
                Effect::Nothing
            },
            Message::LoginRedirectInputChanged(value) => {
                let prev = self.take_screen(Screen::ProfileList);
                self.screen = match prev {
                    Screen::AddAccount(
                        AddAccountStep::EnteringLoginRedirect { flow, login_url, input: _ },
                    ) => Screen::AddAccount(
                        AddAccountStep::EnteringLoginRedirect { flow, login_url, input: value },
                    ),
                    other => other,
                };
                Effect::Nothing
            },
            Message::ConsentRedirectInputChanged(value) => {
                let prev = self.take_screen(Screen::ProfileList);
                self.screen = match prev {
                    Screen::AddAccount(
                        AddAccountStep::EnteringConsentRedirect { flow, consent_url, input: _ },
                    ) => Screen::AddAccount(
                        AddAccountStep::EnteringConsentRedirect { flow, consent_url, input: value },
                    ),
                    other => other,
                };
                Effect::Nothing
            },
            Message::DisplayNameInputChanged(value) => {
                let prev = self.take_screen(Screen::ProfileList);
                self.screen = match prev {
                    Screen::AddAccount(AddAccountStep::EnteringDisplayName { outcome, input: _ }) => {
                        Screen::AddAccount(AddAccountStep::EnteringDisplayName { outcome, input: value })
                    },
                    other => other,
                };
                Effect::Nothing
            },
            Message::SubmitLoginRedirect => {
                let prev = self.take_screen(Screen::Busy(String::from_str("Logging in...")));
                match prev {
                    Screen::AddAccount(AddAccountStep::EnteringLoginRedirect { flow, input, .. }) => {
                        Effect::SubmitLogin { flow, redirect_url: input }
                    },
                    other => {
                        self.screen = other;
                        Effect::Nothing
                    },
                }
            },
            Message::LoginStepDone(result) => {
                match result {
                    Ok((flow, consent_url)) => {
                        self.screen = Screen::AddAccount(
                            AddAccountStep::EnteringConsentRedirect {
                                flow,
                                consent_url,
                                input: String::new(),
                            },
                        );
                    },
                    Err(e) => {
                        self.screen = Screen::ProfileList;
                        self.status = Some(concat_str("Login failed: ", e.as_str()));
                    },
                }
                Effect::Nothing
            },
            Message::SubmitConsentRedirect => {
                let prev = self.take_screen(Screen::Busy(String::from_str("Finishing login...")));
                match prev {
                    Screen::AddAccount(
                        AddAccountStep::EnteringConsentRedirect { flow, input, .. },
                    ) => Effect::SubmitConsent { flow, redirect_url: input },
                    other => {
                        self.screen = other;
                        Effect::Nothing
                    },
                }
            },
            Message::ConsentStepDone(result) => {
                match result {
                    Ok(outcome) => match self.relogin {
                        None => {
                            self.screen = Screen::AddAccount(
                                AddAccountStep::EnteringDisplayName {
                                    outcome,
                                    input: String::new(),
                                },
                            );
                            Effect::Nothing
                        },
                        Some(id) => {
                            self.screen = Screen::ProfileList;
                            self.relogin = None;
                            self.expired = drop_id_exec(&self.expired, id);
                            Effect::SaveLogin { id, refresh_token: outcome.refresh_token }
                        },
                    },
                    Err(e) => {
                        self.screen = Screen::ProfileList;
                        self.status = Some(concat_str("Consent step failed: ", e.as_str()));
                        Effect::Nothing
                    },
                }
            },
            Message::SubmitDisplayName => {
                let prev = self.take_screen(Screen::ProfileList);
                match prev {
                    Screen::AddAccount(AddAccountStep::EnteringDisplayName { outcome, input }) => {
                        let added = self.registry.add(input);
                        let profile = Profile {
                            id: added.id,
                            display_name: added.display_name.clone(),
                        };
                        Effect::SaveNewProfile {
                            profile,
                            refresh_token: outcome.refresh_token,
                            session_id: outcome.session_id,
                        }
                    },
                    _ => {
                        self.status = Some(
                            String::from_str("Add-account flow was in an unexpected state."),
                        );
                        Effect::Nothing
                    },
                }
            },
            Message::ProfileSaved(result) => {
                self.status = Some(
                    match result {
                        Ok(name) => concat3_str("Added profile \"", name.as_str(), "\"."),
                        Err(e) => concat_str("Failed to save profile: ", e.as_str()),
                    },
                );
                Effect::Nothing
            },
            Message::LaunchProfile(id) => {
                self.screen = Screen::Busy(String::from_str("Reconnecting..."));
                self.status = None;
                Effect::Reconnect(id)
            },
            Message::ReconnectDone(profile_id, result) => {
                match result {
                    Ok((session_id, characters)) => {
                        self.screen = Screen::CharacterPicker { profile_id, session_id, characters };
                        self.expired = drop_id_exec(&self.expired, profile_id);
                    },
                    Err(f) => {
                        self.screen = Screen::ProfileList;
                        self.status = Some(
                            concat_str(
                                "Couldn't reconnect (you may need to log in again): ",
                                f.message.as_str(),
                            ),
                        );
                        if f.session_expired {
                            self.expired = with_id_exec(&self.expired, profile_id);
                        }
                    },
                }
                Effect::Nothing
            },
            Message::RemoveProfile(id) => {
                self.registry.remove(id);
                Effect::SaveRemoval(id)
            },
            Message::ProfileRemoved(result) => {
                self.status = Some(
                    match result {
                        Ok(()) => String::from_str("Profile removed."),
                        Err(e) => concat_str("Failed to remove profile: ", e.as_str()),
                    },
                );
                Effect::Nothing
            },
            Message::CopySettingsFromDefault(id) => Effect::CopySettingsFromDefault(id),
            Message::SettingsCopied(result) => {
                self.status = Some(
                    match result {
                        Ok(()) => String::from_str(
                            "Copied Default's plugin settings into this profile. Restart RuneLite for this profile to see the change.",
                        ),
                        Err(e) => concat_str(
                            "Couldn't copy settings (make sure RuneLite isn't running for this profile, and that it's been launched at least once): ",
                            e.as_str(),
                        ),
                    },
                );
                Effect::Nothing
            },
            Message::LaunchCharacter(index) => {
                let decision = self.try_launch_character(index);
                self.screen = Screen::ProfileList;
                match decision {
                    Err(t) => {
                        self.status = Some(t);
                        Effect::Nothing
                    },
                    Ok((command, display_name)) => Effect::Launch { command, display_name },
                }
            },
            Message::Launched(result) => {
                self.status = Some(
                    match result {
                        Ok(name) => concat3_str("Launched RuneLite as \"", name.as_str(), "\"."),
                        Err(e) => concat_str("Failed to launch RuneLite: ", e.as_str()),
                    },
                );
                Effect::Nothing
            },
            Message::NewsFetched(result) => {
                match result {
                    Ok(items) => {
                        let urls = Self::image_urls_of(&items);
                        self.news = items;
                        self.news_error = None;
                        Effect::FetchImages(urls)
                    },
                    Err(e) => {
                        self.news_error = Some(e);
                        Effect::Nothing
                    },
                }
            },
            Message::NewsImageFetched(url, result) => {
                match result {
                    Ok(bytes) => Effect::StoreImage(url, bytes),
                    Err(_) => Effect::Nothing,
                }
            },
        }
    }
}

// ---------------------------------------------------------------------------------------------
// What the screens show
// ---------------------------------------------------------------------------------------------

/// The decimal digit `d`.
pub open spec fn digit_char(d: nat) -> char {
    seq!['0', '1', '2', '3', '4', '5', '6', '7', '8', '9'][d as int]
}

/// The decimal text of `n`, without leading zeros.
pub open spec fn decimal(n: nat) -> Seq<char>
    decreases n,
{
    if n < 10 {
        seq![digit_char(n)]
    } else {
        decimal(n / 10).push(digit_char(n % 10))
    }
}

/// The decimal digits of `n`.
fn decimal_chars(n: usize) -> (r: Vec<char>)
    ensures
        r@ == decimal(n as nat),
    decreases n,
{
    let digits = vec!['0', '1', '2', '3', '4', '5', '6', '7', '8', '9'];
    assert(digits@ =~= seq!['0', '1', '2', '3', '4', '5', '6', '7', '8', '9']);
    if n < 10 {
        let r = vec![digits[n]];
        assert(r@ =~= seq![digit_char(n as nat)]);
        r
    } else {
        let mut r = decimal_chars(n / 10);
        r.push(digits[n % 10]);
        r
    }
}

/// The texts of one page of the add-account wizard.
pub struct WizardPage {
    pub heading: String,
    pub instruction: String,
    /// The label of the button that opens the page to visit, and that page's URL.
    pub link: Option<(String, String)>,
    /// The hint shown in the empty input field.
    pub placeholder: String,
    /// The label of the button that submits the input.
    pub submit: String,
}

/// `link` is the button with label `label` that opens `url`.
pub open spec fn link_is(link: Option<(String, String)>, label: Seq<char>, url: Seq<char>) -> bool {
    link matches Some((l, u)) && l@ == label && u@ == url
}

/// The texts of each wizard step.
pub open spec fn wizard_page_of(step: AddAccountStep, page: WizardPage) -> bool {
    match step {
        AddAccountStep::EnteringLoginRedirect { login_url, .. } => {
            &&& page.heading@ == "Step 1: Log in"@
            &&& page.instruction@ == "Open the login page, log in, then paste the URL it redirects to."@
            &&& link_is(page.link, "Open login page"@, login_url@)
            &&& page.placeholder@ == "Paste redirect URL here"@
            &&& page.submit@ == "Continue"@
        },
        AddAccountStep::EnteringConsentRedirect { consent_url, .. } => {
            &&& page.heading@ == "Step 2: Consent"@
            &&& page.instruction@
                == "Open the consent page, approve access, then paste the URL it redirects to (starts with http://localhost/#...)."@
            &&& link_is(page.link, "Open consent page"@, consent_url@)
            &&& page.placeholder@ == "Paste redirect URL here"@
            &&& page.submit@ == "Continue"@
        },
        AddAccountStep::EnteringDisplayName { outcome, .. } => {
            &&& page.heading@ == "Step 3: Name this profile"@
            &&& page.instruction@ == "Login succeeded — "@ + decimal(outcome.characters@.len())
                + " character(s) found."@
            &&& page.link is None
            &&& page.placeholder@ == "Profile label (your own name for it)"@
            &&& page.submit@ == "Save"@
        },
    }
}

/// The texts of a wizard step: its heading and instruction, the page to open (the login or
/// consent URL), the input's hint and the submit button's label.
pub fn wizard_page(step: &AddAccountStep) -> (r: WizardPage)
    ensures
        wizard_page_of(*step, r),
{
    match step {
        AddAccountStep::EnteringLoginRedirect { login_url, .. } => WizardPage {
            heading: String::from_str("Step 1: Log in"),
            instruction: String::from_str(
                "Open the login page, log in, then paste the URL it redirects to.",
            ),
            link: Some((String::from_str("Open login page"), login_url.clone())),
            placeholder: String::from_str("Paste redirect URL here"),
            submit: String::from_str("Continue"),
        },
        AddAccountStep::EnteringConsentRedirect { consent_url, .. } => WizardPage {
            heading: String::from_str("Step 2: Consent"),
            instruction: String::from_str(
                "Open the consent page, approve access, then paste the URL it redirects to (starts with http://localhost/#...).",
            ),
            link: Some((String::from_str("Open consent page"), consent_url.clone())),
            placeholder: String::from_str("Paste redirect URL here"),
            submit: String::from_str("Continue"),
        },
        AddAccountStep::EnteringDisplayName { outcome, .. } => {
            let mut instruction = String::from_str("Login succeeded — ");
            let count = decimal_chars(outcome.characters.len());
            let count_text = crate::text::string_of_all(&count);
            instruction.append(count_text.as_str());
            instruction.append(" character(s) found.");
            WizardPage {
                heading: String::from_str("Step 3: Name this profile"),
                instruction,
                link: None,
                placeholder: String::from_str("Profile label (your own name for it)"),
                submit: String::from_str("Save"),
            }
        },
    }
}

/// What the user does on a wizard page: edits the input, submits it, or cancels the wizard.
#[derive(Debug, Clone)]
pub enum WizardAction {
    Edit(String),
    Submit,
    Cancel,
}

/// The message that an action on the page of `step` sends: an edit or a submission of that
/// step's input, or the cancellation of the wizard.
pub fn wizard_message(step: &AddAccountStep, action: WizardAction) -> (r: Message)
    ensures
        match action {
            WizardAction::Cancel => r is CancelAddAccount,
            WizardAction::Edit(v) => match *step {
                AddAccountStep::EnteringLoginRedirect { .. } => r
                    == Message::LoginRedirectInputChanged(v),
                AddAccountStep::EnteringConsentRedirect { .. } => r
                    == Message::ConsentRedirectInputChanged(v),
                AddAccountStep::EnteringDisplayName { .. } => r
                    == Message::DisplayNameInputChanged(v),
            },
            WizardAction::Submit => match *step {
                AddAccountStep::EnteringLoginRedirect { .. } => r is SubmitLoginRedirect,
                AddAccountStep::EnteringConsentRedirect { .. } => r is SubmitConsentRedirect,
                AddAccountStep::EnteringDisplayName { .. } => r is SubmitDisplayName,
            },
        },
{
    match action {
        WizardAction::Cancel => Message::CancelAddAccount,
        WizardAction::Edit(v) => match step {
            AddAccountStep::EnteringLoginRedirect { .. } => Message::LoginRedirectInputChanged(v),
            AddAccountStep::EnteringConsentRedirect { .. } => Message::ConsentRedirectInputChanged(v),
            AddAccountStep::EnteringDisplayName { .. } => Message::DisplayNameInputChanged(v),
        },
        WizardAction::Submit => match step {
            AddAccountStep::EnteringLoginRedirect { .. } => Message::SubmitLoginRedirect,
            AddAccountStep::EnteringConsentRedirect { .. } => Message::SubmitConsentRedirect,
            AddAccountStep::EnteringDisplayName { .. } => Message::SubmitDisplayName,
        },
    }
}

impl App {
    /// What the news panel says instead of listing items: why the news could not be loaded, or
    /// that it is still loading; `None` once there are items to list.
    pub fn news_notice(&self) -> (r: Option<String>)
        ensures
            match self.news_error {
                Some(e) => text_is(r, "Couldn't load news: "@ + e@),
                None => if self.news@.len() == 0 {
                    text_is(r, "Loading news..."@)
                } else {
                    r is None
                },
            },
    {
        match &self.news_error {
            Some(e) => Some(concat_str("Couldn't load news: ", e.as_str())),
            None => if self.news.len() == 0 {
                Some(String::from_str("Loading news..."))
            } else {
                None
            },
        }
    }

    /// The notes under the profile list, in order: a warning when the client was not found,
    /// then the status, if any.
    pub fn profile_list_notes(&self) -> (r: Vec<String>)
        ensures
            crate::launcher::strings_view(r@) == (if self.runelite_path is None {
                seq!["Warning: RuneLite was not found in the default install location."@]
            } else {
                Seq::empty()
            }) + match self.status {
                Some(s) => seq![s@],
                None => Seq::empty(),
            },
    {
        let mut notes: Vec<String> = Vec::new();
        if self.runelite_path.is_none() {
            notes.push(
                String::from_str("Warning: RuneLite was not found in the default install location."),
            );
        }
        let ghost first = notes@;
        match &self.status {
            Some(s) => notes.push(s.clone()),
            None => {},
        }
        assert(crate::launcher::strings_view(notes@) =~= crate::launcher::strings_view(first)
            + match self.status {
            Some(s) => seq![s@],
            None => Seq::<Seq<char>>::empty(),
        });
        assert(crate::launcher::strings_view(first) =~= (if self.runelite_path is None {
            seq!["Warning: RuneLite was not found in the default install location."@]
        } else {
            Seq::<Seq<char>>::empty()
        }));
        notes
    }
}

// ---------------------------------------------------------------------------------------------
// Cards of the profile list, the news panel and the character picker
// ---------------------------------------------------------------------------------------------

/// One profile as its card on the profile list shows it: its label and the messages of its
/// buttons.
pub struct ProfileCard {
    pub label: String,
    pub launch: Message,
    pub copy_settings: Message,
    pub remove: Message,
    /// The "Log in again" button, shown for a profile whose stored session has expired.
    pub log_in_again: Option<Message>,
}

/// The card of `profile`, given the ids of the profiles whose session has expired.
pub open spec fn profile_card_of(profile: Profile, expired: Seq<u128>, card: ProfileCard) -> bool {
    &&& card.label@ == profile.display_name@
    &&& card.launch == Message::LaunchProfile(profile.id)
    &&& card.copy_settings == Message::CopySettingsFromDefault(profile.id)
    &&& card.remove == Message::RemoveProfile(profile.id)
    &&& card.log_in_again == if expired.contains(profile.id) {
        Some(Message::LogInAgain(profile.id))
    } else {
        None
    }
}

/// One news item as its card shows it.
pub struct NewsCard {
    pub category: String,
    pub title: String,
    pub description: String,
    /// The message of its "Read more" button: open the item's link.
    pub read_more: Message,
    /// The thumbnail shown above it: the item's image URL, once that image has been downloaded.
    pub thumbnail: Option<String>,
}

/// The card of `item`, given the URLs of the images downloaded so far.
pub open spec fn news_card_of(item: NewsItem, downloaded: Seq<Seq<char>>, card: NewsCard) -> bool {
    &&& card.category@ == item.category@
    &&& card.title@ == item.title@
    &&& card.description@ == item.description@
    &&& card.read_more matches Message::OpenUrl(u) && u@ == item.link@
    &&& match card.thumbnail {
        Some(u) => item.image_url matches Some(v) && v@ == u@ && downloaded.contains(u@),
        None => !(item.image_url matches Some(v) && downloaded.contains(v@)),
    }
}

/// One character of the picker: its name and the message of its "Launch" button.
pub struct CharacterRow {
    pub name: String,
    pub launch: Message,
}

/// Whether `a` and `b` hold the same text.
fn same_text(a: &String, b: &String) -> (r: bool)
    ensures
        r == (a@ == b@),
{
    let x = crate::text::chars_of(a.as_str());
    let y = crate::text::chars_of(b.as_str());
    if x.len() != y.len() {
        return false;
    }
    let mut i: usize = 0;
    while i < x.len()
        invariant
            i <= x.len() == y.len(),
            x@ == a@,
            y@ == b@,
            forall|j: int| 0 <= j < i ==> x@[j] == y@[j],
        decreases x.len() - i,
    {
        if x[i] != y[i] {
            return false;
        }
        i += 1;
    }
    assert(x@ =~= y@);
    true
}

/// Whether `list` holds the text `t`.
fn holds_text(list: &Vec<String>, t: &String) -> (r: bool)
    ensures
        r == crate::launcher::strings_view(list@).contains(t@),
{
    let ghost view = crate::launcher::strings_view(list@);
    let mut k: usize = 0;
    while k < list.len()
        invariant
            k <= list.len(),
            view == crate::launcher::strings_view(list@),
            forall|j: int| 0 <= j < k ==> view[j] != t@,
        decreases list.len() - k,
    {
        if same_text(&list[k], t) {
            assert(view[k as int] == t@);
            return true;
        }
        k += 1;
    }
    false
}

/// Whether `ids` holds `id`.
fn holds_id(ids: &Vec<u128>, id: u128) -> (r: bool)
    ensures
        r == ids@.contains(id),
{
    let mut k: usize = 0;
    while k < ids.len()
        invariant
            k <= ids.len(),
            forall|j: int| 0 <= j < k ==> ids@[j] != id,
        decreases ids.len() - k,
    {
        if ids[k] == id {
            assert(ids@[k as int] == id);
            return true;
        }
        k += 1;
    }
    false
}

impl App {
    /// The cards of the profile list: one per profile, in order, with its Launch, Copy-settings
    /// and Remove buttons, and a "Log in again" button for a profile whose session has expired.
    pub fn profile_cards(&self) -> (r: Vec<ProfileCard>)
        ensures
            r@.len() == self.registry.profiles@.len(),
            forall|i: int|
                0 <= i < r@.len() ==> profile_card_of(
                    self.registry.profiles@[i],
                    self.expired@,
                    #[trigger] r@[i],
                ),
    {
        let mut cards: Vec<ProfileCard> = Vec::new();
        let mut i: usize = 0;
        while i < self.registry.profiles.len()
            invariant
                i <= self.registry.profiles@.len(),
                cards@.len() == i,
                forall|j: int|
                    0 <= j < i ==> profile_card_of(
                        self.registry.profiles@[j],
                        self.expired@,
                        #[trigger] cards@[j],
                    ),
            decreases self.registry.profiles.len() - i,
        {
            let profile = &self.registry.profiles[i];
            let id = profile.id;
            let log_in_again = if holds_id(&self.expired, id) {
                Some(Message::LogInAgain(id))
            } else {
                None
            };
            let card = ProfileCard {
                label: profile.display_name.clone(),
                launch: Message::LaunchProfile(id),
                copy_settings: Message::CopySettingsFromDefault(id),
                remove: Message::RemoveProfile(id),
                log_in_again,
            };
            cards.push(card);
            i += 1;
        }
        cards
    }

    /// The cards of the news panel: none while it shows an error; otherwise one per item, in
    /// feed order, with its category, title, description, "Read more" link, and its thumbnail
    /// once the image at its URL is among `downloaded`.
    pub fn news_cards(&self, downloaded: &Vec<String>) -> (r: Vec<NewsCard>)
        ensures
            r@.len() == if self.news_error is None {
                self.news@.len()
            } else {
                0
            },
            forall|i: int|
                0 <= i < r@.len() ==> news_card_of(
                    self.news@[i],
                    crate::launcher::strings_view(downloaded@),
                    #[trigger] r@[i],
                ),
    {
        let mut cards: Vec<NewsCard> = Vec::new();
        if self.news_error.is_some() {
            return cards;
        }
        let ghost got = crate::launcher::strings_view(downloaded@);
        let mut i: usize = 0;
        while i < self.news.len()
            invariant
                i <= self.news@.len(),
                got == crate::launcher::strings_view(downloaded@),
                cards@.len() == i,
                forall|j: int|
                    0 <= j < i ==> news_card_of(self.news@[j], got, #[trigger] cards@[j]),
            decreases self.news.len() - i,
        {
            let item = &self.news[i];
            let thumbnail = match &item.image_url {
                Some(u) => if holds_text(downloaded, u) {
                    Some(u.clone())
                } else {
                    None
                },
                None => None,
            };
            let card = NewsCard {
                category: item.category.clone(),
                title: item.title.clone(),
                description: item.description.clone(),
                read_more: Message::OpenUrl(item.link.clone()),
                thumbnail,
            };
            cards.push(card);
            i += 1;
        }
        cards
    }

    /// The rows of the character picker: one per character, in order, with its name and the
    /// "Launch" button for its index; none on another screen.
    pub fn character_rows(&self) -> (r: Vec<CharacterRow>)
        ensures
            match self.screen {
                Screen::CharacterPicker { characters, .. } => {
                    &&& r@.len() == characters@.len()
                    &&& forall|i: int|
                        0 <= i < r@.len() ==> (#[trigger] r@[i]).name@ == characters@[i].display_name@
                            && r@[i].launch == Message::LaunchCharacter(i as usize)
                },
                _ => r@.len() == 0,
            },
    {
        let mut rows: Vec<CharacterRow> = Vec::new();
        match &self.screen {
            Screen::CharacterPicker { characters, .. } => {
                let mut i: usize = 0;
                while i < characters.len()
                    invariant
                        i <= characters@.len(),
                        rows@.len() == i,
                        forall|j: int|
                            0 <= j < i ==> (#[trigger] rows@[j]).name@
                                == characters@[j].display_name@ && rows@[j].launch
                                == Message::LaunchCharacter(j as usize),
                    decreases characters.len() - i,
                {
                    rows.push(
                        CharacterRow {
                            name: characters[i].display_name.clone(),
                            launch: Message::LaunchCharacter(i),
                        },
                    );
                    i += 1;
                }
            },
            _ => {},
        }
        rows
    }
}

/// A profile card's buttons act on that card's profile, and it offers to log in again exactly
/// when the profile's session has expired.
pub proof fn lemma_profile_card_buttons(profile: Profile, expired: Seq<u128>, card: ProfileCard)
    requires
        profile_card_of(profile, expired, card),
    ensures
        card.label@ == profile.display_name@,
        card.launch matches Message::LaunchProfile(id) && id == profile.id,
        card.copy_settings matches Message::CopySettingsFromDefault(id) && id == profile.id,
        card.remove matches Message::RemoveProfile(id) && id == profile.id,
        card.log_in_again is Some <==> expired.contains(profile.id),
        card.log_in_again matches Some(m) ==> m == Message::LogInAgain(profile.id),
{
}

/// A news card shows its item's texts and opens its item's link, and shows a thumbnail exactly
/// when the item's image has been downloaded, and then that image.
pub proof fn lemma_news_card_content(item: NewsItem, downloaded: Seq<Seq<char>>, card: NewsCard)
    requires
        news_card_of(item, downloaded, card),
    ensures
        card.title@ == item.title@,
        card.category@ == item.category@,
        card.description@ == item.description@,
        card.read_more matches Message::OpenUrl(u) && u@ == item.link@,
        card.thumbnail is Some <==> (item.image_url matches Some(v) && downloaded.contains(v@)),
        card.thumbnail matches Some(u) ==> (item.image_url matches Some(v) && v@ == u@),
{
}

} // verus!
