use bcup::cli::{Cli, CliError, Effect};
use bcup::config::{AppConfig, Destination, Secrets};
use bcup::entry::{join_path, segment_is_valid};

fn loaded() -> (AppConfig, Secrets) {
    (AppConfig::default(), Secrets::default())
}

fn config_cmd(key: &str, value: Option<&str>) -> Cli {
    Cli::Config { key: key.to_string(), value: value.map(|v| v.to_string()) }
}

#[test]
fn add_path_appends_to_the_configured_paths() {
    let (mut c, mut s) = loaded();
    let r = config_cmd("add_path", Some("/test/path")).execute(&mut c, &mut s);
    assert_eq!(r, Ok(Effect::SaveConfig));
    assert_eq!(c.paths, vec!["/test/path".to_string()]);
    assert_eq!(c.destination, Destination::Telegram);
}

#[test]
fn token_is_stored_in_the_secrets() {
    let (mut c, mut s) = loaded();
    let cli = Cli::Run;
    let r = cli.handle_config("telegram_bot_token", &Some("test_token".to_string()), &mut c, &mut s);
    assert_eq!(r, Ok(Effect::SaveSecrets));
    assert_eq!(s.telegram_bot_token, Some("test_token".to_string()));
    assert_eq!(cli.run_backup(&c, &s), Ok("test_token".to_string()));
}

#[test]
fn destination_must_be_known() {
    let (mut c, mut s) = loaded();
    let cli = Cli::Run;
    assert_eq!(cli.handle_destination(&Some("telegram".to_string()), &mut c), Ok(()));
    assert_eq!(cli.handle_destination(&Some("email".to_string()), &mut c), Err(CliError::InvalidDestination));
    assert_eq!(cli.handle_destination(&None, &mut c), Err(CliError::MissingValue));
    assert_eq!(
        config_cmd("destination", Some("telegram")).execute(&mut c, &mut s),
        Ok(Effect::SaveConfig)
    );
}

#[test]
fn unknown_key_and_missing_value_change_nothing() {
    let (mut c, mut s) = loaded();
    let cli = Cli::Run;
    assert_eq!(cli.handle_config("colour", &Some("x".to_string()), &mut c, &mut s), Err(CliError::UnknownKey));
    assert_eq!(cli.handle_add_path(&None, &mut c), Err(CliError::MissingValue));
    assert_eq!(cli.handle_telegram_token(&None, &mut s), Err(CliError::MissingValue));
    assert!(c.paths.is_empty());
    assert_eq!(s.telegram_bot_token, None);
}

#[test]
fn init_stores_token_and_user() {
    let (mut c, mut s) = loaded();
    let cli = Cli::Init { bot_token: "123:abc".to_string(), user_id: 42 };
    assert_eq!(cli.execute(&mut c, &mut s), Ok(Effect::SaveSecrets));
    assert_eq!(s.telegram_bot_token, Some("123:abc".to_string()));
    assert_eq!(s.authorized_user_id, Some(42));
}

#[test]
fn backup_needs_a_token() {
    let (mut c, mut s) = loaded();
    assert_eq!(Cli::Run.execute(&mut c, &mut s), Ok(Effect::RunBackup));
    assert_eq!(Cli::Run.run_backup(&c, &s), Err(CliError::TokenNotConfigured));
}

#[test]
fn secrets_file_lives_in_the_config_dir() {
    assert_eq!(Secrets::secrets_path("/home/u/.config/bcup"), "/home/u/.config/bcup/secrets.toml");
    assert_eq!(Secrets::secrets_path("/cfg/"), "/cfg/secrets.toml");
    assert_eq!(Secrets::secrets_path(""), "secrets.toml");
}

#[test]
fn paths_join_with_forward_slashes() {
    let parts = vec!["docs".to_string(), "sub".to_string(), "b.txt".to_string()];
    assert_eq!(join_path(&parts), "docs/sub/b.txt");
    assert_eq!(join_path(&vec!["a.txt".to_string()]), "a.txt");
    assert!(segment_is_valid("..."));
    assert!(!segment_is_valid(".."));
    assert!(!segment_is_valid("."));
    assert!(!segment_is_valid(""));
    assert!(!segment_is_valid("a/b"));
}

#[test]
fn only_the_stored_user_is_authorized() {
    let mut s = Secrets::default();
    assert!(!s.is_authorized(42));
    s.authorized_user_id = Some(42);
    assert!(s.is_authorized(42));
    assert!(!s.is_authorized(43));
}
