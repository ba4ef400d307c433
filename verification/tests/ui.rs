use runeroster_core::accounts::{Profile, ProfileRegistry};
use runeroster_core::auth::{AuthError, LoginFlow, LoginFlowError, LoginOutcome, ACCOUNT_ORIGIN};
use runeroster_core::characters::{Character, CharacterError};
use runeroster_core::request::RequestFailure;
use runeroster_core::news::NewsItem;
use runeroster_core::ui::{
    wizard_message, wizard_page, AddAccountStep, App, Effect, Message, ReconnectFailure, Screen,
    WizardAction, NEWS_ITEM_COUNT,
};

fn registry_with(id: u128, name: &str) -> ProfileRegistry {
    ProfileRegistry {
        profiles: vec![Profile {
            id,
            display_name: name.to_string(),
        }],
    }
}

fn zezima() -> Character {
    Character {
        account_id: "123".to_string(),
        display_name: "Zezima".to_string(),
    }
}

#[test]
fn new_app_shows_profiles_and_fetches_news() {
    let (app, effect) = App::new(ProfileRegistry::new(), None);
    assert!(matches!(app.screen, Screen::ProfileList));
    assert!(app.status.is_none());
    assert!(matches!(effect, Effect::FetchNews(n) if n == NEWS_ITEM_COUNT));
    assert_eq!(app.news_notice(), Some("Loading news...".to_string()));
    assert_eq!(
        app.profile_list_notes(),
        vec!["Warning: RuneLite was not found in the default install location.".to_string()]
    );
}

#[test]
fn wizard_walks_through_login_step() {
    let (mut app, _) = App::new(ProfileRegistry::new(), Some("rl.exe".to_string()));
    let effect = app.update(Message::StartAddAccount);
    assert!(matches!(effect, Effect::Nothing));
    match &app.screen {
        Screen::AddAccount(AddAccountStep::EnteringLoginRedirect {
            login_url, input, ..
        }) => {
            assert!(login_url.starts_with(ACCOUNT_ORIGIN));
            assert!(input.is_empty());
        }
        _ => panic!("wizard should start at the login step"),
    }
    app.update(Message::LoginRedirectInputChanged("https://x/?code=c&state=s".to_string()));
    let effect = app.update(Message::SubmitLoginRedirect);
    match effect {
        Effect::SubmitLogin { flow, redirect_url } => {
            assert_eq!(redirect_url, "https://x/?code=c&state=s");
            assert!(matches!(flow, LoginFlow::AwaitingLogin { .. }));
        }
        _ => panic!("submitting should ask for the login exchange"),
    }
    assert!(matches!(&app.screen, Screen::Busy(t) if t == "Logging in..."));
}

#[test]
fn failed_login_returns_to_list_with_status() {
    let (mut app, _) = App::new(ProfileRegistry::new(), None);
    app.update(Message::StartAddAccount);
    app.update(Message::LoginStepDone(Err("bad code".to_string())));
    assert!(matches!(app.screen, Screen::ProfileList));
    assert_eq!(app.status, Some("Login failed: bad code".to_string()));
}

#[test]
fn naming_profile_adds_it_and_asks_to_save() {
    let (mut app, _) = App::new(ProfileRegistry::new(), None);
    let outcome = LoginOutcome {
        refresh_token: "refresh".to_string(),
        session_id: "session".to_string(),
        characters: vec![zezima()],
    };
    app.update(Message::ConsentStepDone(Ok(outcome)));
    match &app.screen {
        Screen::AddAccount(step) => {
            let page = wizard_page(step);
            assert_eq!(page.heading, "Step 3: Name this profile");
            assert_eq!(page.instruction, "Login succeeded — 1 character(s) found.");
            assert!(page.link.is_none());
            assert_eq!(page.submit, "Save");
        }
        _ => panic!("should ask for a label"),
    }
    app.update(Message::DisplayNameInputChanged("Main".to_string()));
    let effect = app.update(Message::SubmitDisplayName);
    match effect {
        Effect::SaveNewProfile {
            profile,
            refresh_token,
            session_id,
        } => {
            assert_eq!(profile.display_name, "Main");
            assert_eq!(refresh_token, "refresh");
            assert_eq!(session_id, "session");
            assert_eq!(app.registry.profiles, vec![profile]);
        }
        _ => panic!("should ask to save the profile"),
    }
    assert!(matches!(app.screen, Screen::ProfileList));
    app.update(Message::ProfileSaved(Ok("Main".to_string())));
    assert_eq!(app.status, Some("Added profile \"Main\".".to_string()));
}

#[test]
fn submitting_name_outside_wizard_is_reported() {
    let (mut app, _) = App::new(registry_with(5, "Main"), None);
    let effect = app.update(Message::SubmitDisplayName);
    assert!(matches!(effect, Effect::Nothing));
    assert_eq!(
        app.status,
        Some("Add-account flow was in an unexpected state.".to_string())
    );
    assert_eq!(app.registry.profiles.len(), 1);
}

#[test]
fn remove_profile_drops_it_and_asks_to_persist() {
    let (mut app, _) = App::new(registry_with(5, "Main"), None);
    let effect = app.update(Message::RemoveProfile(5));
    assert!(matches!(effect, Effect::SaveRemoval(5)));
    assert!(app.registry.profiles.is_empty());
    app.update(Message::ProfileRemoved(Ok(())));
    assert_eq!(app.status, Some("Profile removed.".to_string()));
}

#[test]
fn launch_without_picker_is_refused() {
    let (mut app, _) = App::new(registry_with(5, "Main"), Some("rl.exe".to_string()));
    let effect = app.update(Message::LaunchCharacter(0));
    assert!(matches!(effect, Effect::Nothing));
    assert_eq!(app.status, Some("No character picker was active.".to_string()));
}

#[test]
fn launch_from_picker_builds_client_command() {
    let (mut app, _) = App::new(registry_with(5, "Main"), Some("rl.exe".to_string()));
    let effect = app.update(Message::LaunchProfile(5));
    assert!(matches!(effect, Effect::Reconnect(5)));
    app.update(Message::ReconnectDone(
        5,
        Ok(("SESSION".to_string(), vec![zezima()])),
    ));
    assert!(matches!(app.screen, Screen::CharacterPicker { .. }));
    assert_eq!(
        app.try_launch_character(1),
        Err("No character at that index.".to_string())
    );
    let effect = app.update(Message::LaunchCharacter(0));
    match effect {
        Effect::Launch {
            command,
            display_name,
        } => {
            assert_eq!(display_name, "Zezima");
            assert_eq!(command.program, "rl.exe");
            assert_eq!(
                command.args,
                vec!["--profile=00000000-0000-0000-0000-000000000005"]
            );
            assert_eq!(command.envs[0], ("JX_SESSION_ID".to_string(), "SESSION".to_string()));
        }
        _ => panic!("should launch"),
    }
    assert!(matches!(app.screen, Screen::ProfileList));
    app.update(Message::Launched(Ok("Zezima".to_string())));
    assert_eq!(app.status, Some("Launched RuneLite as \"Zezima\".".to_string()));
}

#[test]
fn launch_without_client_is_refused() {
    let (mut app, _) = App::new(registry_with(5, "Main"), None);
    app.update(Message::ReconnectDone(
        5,
        Ok(("SESSION".to_string(), vec![zezima()])),
    ));
    app.update(Message::LaunchCharacter(0));
    assert_eq!(
        app.status,
        Some("RuneLite not found in the default install location.".to_string())
    );
}

#[test]
fn launch_for_removed_profile_is_refused() {
    let (mut app, _) = App::new(ProfileRegistry::new(), Some("rl.exe".to_string()));
    app.update(Message::ReconnectDone(
        9,
        Ok(("SESSION".to_string(), vec![zezima()])),
    ));
    app.update(Message::LaunchCharacter(0));
    assert_eq!(app.status, Some("Profile no longer exists.".to_string()));
}

#[test]
fn failed_reconnect_suggests_logging_in_again() {
    let (mut app, _) = App::new(registry_with(5, "Main"), None);
    app.update(Message::LaunchProfile(5));
    assert!(matches!(&app.screen, Screen::Busy(t) if t == "Reconnecting..."));
    app.update(Message::ReconnectDone(
        5,
        Err(ReconnectFailure {
            message: "401".to_string(),
            session_expired: false,
        }),
    ));
    assert!(matches!(app.screen, Screen::ProfileList));
    assert_eq!(
        app.status,
        Some("Couldn't reconnect (you may need to log in again): 401".to_string())
    );
}

fn item(title: &str, image: Option<&str>) -> NewsItem {
    NewsItem {
        title: title.to_string(),
        link: "L".to_string(),
        pub_date: "D".to_string(),
        description: "x".to_string(),
        category: "C".to_string(),
        image_url: image.map(|s| s.to_string()),
    }
}

#[test]
fn fetched_news_asks_for_thumbnails() {
    let (mut app, _) = App::new(ProfileRegistry::new(), None);
    let items = vec![item("A", Some("https://img/a")), item("B", None), item("C", Some("https://img/c"))];
    let effect = app.update(Message::NewsFetched(Ok(items.clone())));
    match effect {
        Effect::FetchImages(urls) => {
            assert_eq!(urls, vec!["https://img/a".to_string(), "https://img/c".to_string()])
        }
        _ => panic!("should fetch thumbnails"),
    }
    assert_eq!(app.news, items);
    assert_eq!(app.news_notice(), None);
    let effect = app.update(Message::NewsImageFetched("https://img/a".to_string(), Ok(vec![1, 2])));
    assert!(matches!(effect, Effect::StoreImage(u, b) if u == "https://img/a" && b == vec![1, 2]));
}

#[test]
fn news_error_is_shown() {
    let (mut app, _) = App::new(ProfileRegistry::new(), None);
    app.update(Message::NewsFetched(Err("offline".to_string())));
    assert_eq!(app.news_notice(), Some("Couldn't load news: offline".to_string()));
}

#[test]
fn status_follows_warning_in_notes() {
    let (mut app, _) = App::new(ProfileRegistry::new(), None);
    app.update(Message::OpenUrlFailed("no browser".to_string()));
    assert_eq!(
        app.profile_list_notes(),
        vec![
            "Warning: RuneLite was not found in the default install location.".to_string(),
            "Couldn't open browser: no browser".to_string()
        ]
    );
}

#[test]
fn wizard_pages_name_their_links() {
    let (mut app, _) = App::new(ProfileRegistry::new(), None);
    app.update(Message::StartAddAccount);
    match &app.screen {
        Screen::AddAccount(step) => {
            let page = wizard_page(step);
            assert_eq!(page.heading, "Step 1: Log in");
            let (label, url) = page.link.unwrap();
            assert_eq!(label, "Open login page");
            assert!(url.starts_with(ACCOUNT_ORIGIN));
        }
        _ => panic!("wizard should be open"),
    }
    let outcome = LoginOutcome {
        refresh_token: String::new(),
        session_id: String::new(),
        characters: (0..12).map(|_| zezima()).collect(),
    };
    let step = AddAccountStep::EnteringDisplayName {
        outcome,
        input: String::new(),
    };
    assert_eq!(
        wizard_page(&step).instruction,
        "Login succeeded — 12 character(s) found."
    );
}

#[test]
fn wizard_actions_map_to_step_messages() {
    let (mut app, _) = App::new(ProfileRegistry::new(), None);
    app.update(Message::StartAddAccount);
    let msg = match &app.screen {
        Screen::AddAccount(step) => wizard_message(step, WizardAction::Edit("u".to_string())),
        _ => panic!("wizard should be open"),
    };
    assert!(matches!(&msg, Message::LoginRedirectInputChanged(v) if v == "u"));
    app.update(msg);
    let msg = match &app.screen {
        Screen::AddAccount(step) => wizard_message(step, WizardAction::Submit),
        _ => panic!("wizard should be open"),
    };
    assert!(matches!(msg, Message::SubmitLoginRedirect));
    let step = AddAccountStep::EnteringDisplayName {
        outcome: LoginOutcome {
            refresh_token: String::new(),
            session_id: String::new(),
            characters: Vec::new(),
        },
        input: String::new(),
    };
    assert!(matches!(
        wizard_message(&step, WizardAction::Submit),
        Message::SubmitDisplayName
    ));
    assert!(matches!(
        wizard_message(&step, WizardAction::Cancel),
        Message::CancelAddAccount
    ));
}

#[test]
fn expired_session_offers_log_in_again() {
    let (mut app, _) = App::new(registry_with(5, "Main"), None);
    assert!(app.profile_cards()[0].log_in_again.is_none());
    app.update(Message::LaunchProfile(5));
    app.update(Message::ReconnectDone(
        5,
        Err(ReconnectFailure {
            message: "HTTP 401".to_string(),
            session_expired: true,
        }),
    ));
    let cards = app.profile_cards();
    assert_eq!(cards.len(), 1);
    assert_eq!(cards[0].label, "Main");
    assert!(matches!(cards[0].launch, Message::LaunchProfile(5)));
    assert!(matches!(cards[0].copy_settings, Message::CopySettingsFromDefault(5)));
    assert!(matches!(cards[0].remove, Message::RemoveProfile(5)));
    assert!(matches!(cards[0].log_in_again, Some(Message::LogInAgain(5))));

    // Logging in again runs the wizard and stores the new token for the same profile.
    app.update(Message::LogInAgain(5));
    assert_eq!(app.relogin, Some(5));
    let outcome = LoginOutcome {
        refresh_token: "fresh".to_string(),
        session_id: "s".to_string(),
        characters: vec![zezima()],
    };
    let effect = app.update(Message::ConsentStepDone(Ok(outcome)));
    assert!(matches!(effect, Effect::SaveLogin { id: 5, refresh_token } if refresh_token == "fresh"));
    assert!(matches!(app.screen, Screen::ProfileList));
    assert_eq!(app.registry.profiles.len(), 1);
    assert!(app.profile_cards()[0].log_in_again.is_none());
    app.update(Message::LoginSaved(Ok(())));
    assert_eq!(app.status, Some("Logged in again.".to_string()));
}

#[test]
fn other_reconnect_failures_do_not_mark_expiry() {
    let (mut app, _) = App::new(registry_with(5, "Main"), None);
    app.update(Message::ReconnectDone(
        5,
        Err(ReconnectFailure {
            message: "offline".to_string(),
            session_expired: false,
        }),
    ));
    assert!(app.profile_cards()[0].log_in_again.is_none());
    app.update(Message::ReconnectDone(
        5,
        Err(ReconnectFailure {
            message: "HTTP 401".to_string(),
            session_expired: true,
        }),
    ));
    assert!(app.profile_cards()[0].log_in_again.is_some());
    app.update(Message::ReconnectDone(5, Ok(("S".to_string(), vec![zezima()]))));
    assert!(app.profile_cards()[0].log_in_again.is_none());
}

#[test]
fn reconnect_failure_detects_unauthorized() {
    let unauthorized = LoginFlowError::Character(CharacterError::Request(RequestFailure {
        status: Some(401),
        message: "HTTP 401".to_string(),
    }));
    let f = ReconnectFailure::from_error(&unauthorized);
    assert!(f.session_expired);
    assert_eq!(f.message, "network request failed: HTTP 401");
    let refused = LoginFlowError::Auth(AuthError::Request(RequestFailure {
        status: Some(401),
        message: "x".to_string(),
    }));
    assert!(ReconnectFailure::from_error(&refused).session_expired);
    let server = LoginFlowError::Auth(AuthError::Request(RequestFailure {
        status: Some(500),
        message: "x".to_string(),
    }));
    assert!(!ReconnectFailure::from_error(&server).session_expired);
    assert!(!ReconnectFailure::from_error(&LoginFlowError::WrongStep).session_expired);
}

#[test]
fn news_cards_show_downloaded_thumbnails() {
    let (mut app, _) = App::new(ProfileRegistry::new(), None);
    assert!(app.news_cards(&Vec::new()).is_empty());
    let items = vec![item("A", Some("https://img/a")), item("B", Some("https://img/b")), item("C", None)];
    app.update(Message::NewsFetched(Ok(items)));
    let cards = app.news_cards(&vec!["https://img/b".to_string()]);
    assert_eq!(cards.len(), 3);
    assert_eq!(cards[0].title, "A");
    assert_eq!(cards[0].category, "C");
    assert_eq!(cards[0].description, "x");
    assert!(matches!(&cards[0].read_more, Message::OpenUrl(u) if u == "L"));
    assert_eq!(cards[0].thumbnail, None);
    assert_eq!(cards[1].thumbnail, Some("https://img/b".to_string()));
    assert_eq!(cards[2].thumbnail, None);
    app.update(Message::NewsFetched(Err("offline".to_string())));
    assert!(app.news_cards(&Vec::new()).is_empty());
}

#[test]
fn character_rows_launch_by_index() {
    let (mut app, _) = App::new(registry_with(5, "Main"), None);
    assert!(app.character_rows().is_empty());
    let other = Character {
        account_id: "9".to_string(),
        display_name: "Lynx".to_string(),
    };
    app.update(Message::ReconnectDone(5, Ok(("S".to_string(), vec![zezima(), other]))));
    let rows = app.character_rows();
    assert_eq!(rows.len(), 2);
    assert_eq!(rows[1].name, "Lynx");
    assert!(matches!(rows[1].launch, Message::LaunchCharacter(1)));
}
