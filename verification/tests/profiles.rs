use runeroster_core::accounts::{profile_key, Profile, ProfileRegistry};
use runeroster_core::characters::{accounts_url, Character, CharacterError};
use runeroster_core::launcher::{launch_command, LaunchTarget};
use runeroster_core::request::RequestFailure;
use runeroster_core::runelite_config::{
    copy_profile_settings, copy_profile_settings_from_default, find_profile_file,
    RuneLiteConfigError,
};
use runeroster_core::session::LaunchSession;
use runeroster_core::store::TokenStore;

#[test]
fn add_and_remove_round_trip() {
    let mut registry = ProfileRegistry::default();
    let id = registry.add("Main".to_string()).id;
    assert_eq!(registry.profiles.len(), 1);
    registry.remove(id);
    assert!(registry.profiles.is_empty());
}

#[test]
fn add_keeps_order_and_label() {
    let mut registry = ProfileRegistry::new();
    let first = registry.add("Main".to_string()).id;
    let second = registry.add("Ironman alt".to_string()).id;
    assert_ne!(first, second);
    assert_eq!(registry.profiles[0].display_name, "Main");
    assert_eq!(registry.profiles[1].display_name, "Ironman alt");
    registry.remove(first);
    assert_eq!(registry.profiles.len(), 1);
    assert_eq!(registry.profiles[0].id, second);
}

#[test]
fn removing_unknown_id_changes_nothing() {
    let mut registry = ProfileRegistry::new();
    registry.add("Main".to_string());
    let before = registry.profiles.clone();
    let unknown = before[0].id.wrapping_add(1);
    registry.remove(unknown);
    assert_eq!(registry.profiles, before);
    registry.remove(unknown);
    assert_eq!(registry.profiles, before);
}

#[test]
fn new_profile_keeps_label() {
    let p = Profile::new("Label".to_string());
    assert_eq!(p.display_name, "Label");
}

#[test]
fn uuid_text_is_hyphenated_lowercase() {
    assert_eq!(TokenStore::entry_names(0).1, "00000000-0000-0000-0000-000000000000");
    assert_eq!(
        TokenStore::entry_names(0x0123_4567_89ab_cdef_0123_4567_89ab_cdef).1,
        "01234567-89ab-cdef-0123-456789abcdef"
    );
}

#[test]
fn token_entry_is_service_and_uuid() {
    let (service, user) = TokenStore::entry_names(0xff);
    assert_eq!(service, "RuneRoster");
    assert_eq!(user, "00000000-0000-0000-0000-0000000000ff");
}

#[test]
fn jar_target_builds_java_dash_jar_command() {
    let target = LaunchTarget::Jar("RuneLite.jar".to_string());
    let command = target.into_command();
    assert_eq!(command.program, "java");
    assert_eq!(command.args, vec!["-jar", "RuneLite.jar"]);
}

#[test]
fn exe_target_runs_executable_directly() {
    let target = LaunchTarget::WindowsExe(r"C:\RuneLite\RuneLite.exe".to_string());
    let command = target.into_command();
    assert_eq!(command.program, r"C:\RuneLite\RuneLite.exe");
    assert_eq!(command.args.len(), 0);
}

#[test]
fn launch_command_selects_profile_and_character() {
    let profile = Profile {
        id: 1,
        display_name: "Main".to_string(),
    };
    let character = Character {
        account_id: "123".to_string(),
        display_name: "Zezima".to_string(),
    };
    let session = LaunchSession::for_character("SESSION".to_string(), &character);
    assert_eq!(session.account_id, "123");
    assert_eq!(session.display_name, "Zezima");
    let command = launch_command(LaunchTarget::Jar("rl.jar".to_string()), &profile, &session);
    assert_eq!(command.program, "java");
    assert_eq!(
        command.args,
        vec![
            "-jar",
            "rl.jar",
            "--profile=00000000-0000-0000-0000-000000000001"
        ]
    );
    let envs: Vec<(String, String)> = vec![
        ("JX_SESSION_ID".into(), "SESSION".into()),
        ("JX_CHARACTER_ID".into(), "123".into()),
        ("JX_DISPLAY_NAME".into(), "Zezima".into()),
    ];
    assert_eq!(command.envs, envs);
}

#[test]
fn unauthorized_only_for_status_401() {
    let e = CharacterError::Request(RequestFailure {
        status: Some(401),
        message: "unauthorized".into(),
    });
    assert!(e.is_unauthorized());
    let e = CharacterError::Request(RequestFailure {
        status: Some(500),
        message: "server".into(),
    });
    assert!(!e.is_unauthorized());
    let e = CharacterError::Request(RequestFailure {
        status: None,
        message: "offline".into(),
    });
    assert!(!e.is_unauthorized());
}

#[test]
fn character_list_url() {
    assert_eq!(accounts_url(), "https://auth.jagex.com/game-session/v1/accounts");
}

fn names(list: &[&str]) -> Vec<String> {
    list.iter().map(|s| s.to_string()).collect()
}

#[test]
fn copies_source_content_onto_destination() {
    let files = names(&["default-0.properties", "abc123-999.properties"]);
    let plan = copy_profile_settings(&files, "default", "abc123").unwrap();
    assert_eq!(
        plan,
        (
            "default-0.properties".to_string(),
            "abc123-999.properties".to_string()
        )
    );
}

#[test]
fn errors_when_source_profile_missing() {
    let files = names(&["abc123-999.properties"]);
    let result = copy_profile_settings(&files, "default", "abc123");
    assert!(matches!(
        result,
        Err(RuneLiteConfigError::ProfileNotFound(key)) if key == "default"
    ));
}

#[test]
fn errors_when_destination_profile_missing() {
    let files = names(&["default-0.properties"]);
    let result = copy_profile_settings(&files, "default", "abc123");
    assert!(matches!(
        result,
        Err(RuneLiteConfigError::ProfileNotFound(key)) if key == "abc123"
    ));
}

#[test]
fn missing_source_is_reported_before_missing_destination() {
    let files = names(&["other-1.properties"]);
    let result = copy_profile_settings_from_default(&files, "abc123");
    assert_eq!(
        result,
        Err(RuneLiteConfigError::ProfileNotFound("default".to_string()))
    );
}

#[test]
fn profile_file_needs_prefix_and_suffix() {
    let files = names(&[
        "default.properties",
        "defaultx-1.properties",
        "default-1.json",
        "default-7.properties",
        "default-8.properties",
    ]);
    assert_eq!(
        find_profile_file(&files, "default"),
        Ok("default-7.properties".to_string())
    );
    assert_eq!(
        find_profile_file(&files, "abc"),
        Err(RuneLiteConfigError::ProfileNotFound("abc".to_string()))
    );
}

#[test]
fn error_texts_match_the_launcher_wording() {
    assert_eq!(
        RuneLiteConfigError::ProfileNotFound("abc".to_string()).message(),
        "no RuneLite profile file found for \"abc\" — has it been launched at least once?"
    );
    assert_eq!(
        RuneLiteConfigError::Io("denied".to_string()).message(),
        "failed to read RuneLite's profile directory: denied"
    );
    assert_eq!(
        runeroster_core::launcher::LaunchError::Spawn("not found".to_string()).message(),
        "failed to spawn RuneLite: not found"
    );
    let e = CharacterError::Request(RequestFailure {
        status: Some(401),
        message: "HTTP 401".into(),
    });
    assert_eq!(e.message(), "network request failed: HTTP 401");
}

#[test]
fn profile_key_is_the_uuid_text() {
    assert_eq!(profile_key(0xab), "00000000-0000-0000-0000-0000000000ab");
}
