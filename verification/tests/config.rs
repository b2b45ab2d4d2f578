use cardamom::config::{
    AccountConfig, ConfigError, DeserializedAccountConfig, DeserializedConfig, DEFAULT_PORT,
};
use cardamom::contact::Cmd;
use cardamom::output::PrintTableOpts;

fn account(default: Option<bool>, host: &str, port: Option<u16>) -> DeserializedAccountConfig {
    DeserializedAccountConfig {
        default,
        sync_dir: Some("~/contacts".to_string()),
        host: host.to_string(),
        port,
        login: "login".to_string(),
        passwd_cmd: "pass show contacts".to_string(),
    }
}

fn config() -> DeserializedConfig {
    DeserializedConfig {
        accounts: vec![
            ("work".to_string(), account(None, "work.example", Some(443))),
            ("home".to_string(), account(Some(true), "home.example", None)),
            ("club".to_string(), account(Some(false), "club.example", Some(5232))),
            ("other".to_string(), account(Some(true), "other.example", None)),
        ],
    }
}

#[test]
fn the_default_account_is_the_first_marked_one() {
    let config = config();
    assert_eq!(Ok(1), config.find_account(None));
    assert_eq!(Ok(1), config.find_account(Some("default")));
    assert_eq!(Ok(1), config.find_account(Some("")));
    assert_eq!(Ok(1), config.find_account(Some("  \t")));
    assert_eq!(Ok(1), config.find_account(Some(" default\n")));
}

#[test]
fn an_account_is_found_by_its_name() {
    let config = config();
    assert_eq!(Ok(0), config.find_account(Some("work")));
    assert_eq!(Ok(2), config.find_account(Some(" club ")));
    assert_eq!(Ok(3), config.find_account(Some("other")));
    assert_eq!(
        Err(ConfigError::AccountNotFound("nobody".to_string())),
        config.find_account(Some(" nobody "))
    );
    assert_eq!(
        Err(ConfigError::AccountNotFound("Work".to_string())),
        config.find_account(Some("Work"))
    );
}

#[test]
fn a_configuration_without_a_default_account() {
    let config = DeserializedConfig {
        accounts: vec![
            ("work".to_string(), account(None, "work.example", None)),
            ("club".to_string(), account(Some(false), "club.example", None)),
        ],
    };
    assert_eq!(Err(ConfigError::DefaultAccountNotFound), config.find_account(None));
    assert_eq!(
        Err(ConfigError::DefaultAccountNotFound),
        config.find_account(Some("default"))
    );
    assert_eq!(Ok(1), config.find_account(Some("club")));
    let empty = DeserializedConfig { accounts: vec![] };
    assert_eq!(Err(ConfigError::DefaultAccountNotFound), empty.find_account(None));
}

#[test]
fn an_account_is_built_from_the_configuration() {
    let config = config();
    let account =
        AccountConfig::from_config_and_opt_account_name(&config, None, "/data/home".to_string())
            .unwrap();
    assert_eq!(
        AccountConfig {
            name: "home".to_string(),
            default: true,
            sync_dir: "/data/home".to_string(),
            host: "home.example".to_string(),
            port: 8843,
            login: "login".to_string(),
            passwd_cmd: "pass show contacts".to_string(),
        },
        account
    );
    assert_eq!(8843, DEFAULT_PORT);

    let account = AccountConfig::from_config_and_opt_account_name(
        &config,
        Some("work"),
        "/data/work".to_string(),
    )
    .unwrap();
    assert_eq!("work", account.name);
    assert!(!account.default);
    assert_eq!(443, account.port);
    assert_eq!("work.example", account.host);

    assert_eq!(
        Err(ConfigError::AccountNotFound("nobody".to_string())),
        AccountConfig::from_config_and_opt_account_name(&config, Some("nobody"), String::new())
    );
}

#[test]
fn the_cache_lies_in_the_sync_directory() {
    let config = config();
    let mut account =
        AccountConfig::from_config_and_opt_account_name(&config, None, "/data/home".to_string())
            .unwrap();
    assert_eq!("/data/home/.cache", account.cache_cards_file_path());
    account.sync_dir = "/data/home/".to_string();
    assert_eq!("/data/home/.cache", account.cache_cards_file_path());
    account.sync_dir = String::new();
    assert_eq!(".cache", account.cache_cards_file_path());
}

#[test]
fn the_password_is_the_output_without_its_line_end() {
    let config = config();
    let account =
        AccountConfig::from_config_and_opt_account_name(&config, None, String::new()).unwrap();
    assert_eq!("secret", account.passwd("secret\n"));
    assert_eq!("secret", account.passwd("secret\r\n"));
    assert_eq!(" secret ", account.passwd(" secret "));
    assert_eq!("two\nlines", account.passwd("two\nlines\n\n"));
    assert_eq!("", account.passwd(""));
}

#[test]
fn the_places_of_the_configuration_file() {
    assert_eq!(
        vec![
            "/xdg/cardamom/config.toml".to_string(),
            "/home/me/.config/cardamom/config.toml".to_string(),
            "/home/me/.cardamomrc".to_string(),
        ],
        DeserializedConfig::candidates(Some("/xdg"), Some("/home/me"))
    );
    assert_eq!(
        vec![
            "/home/me/.config/cardamom/config.toml".to_string(),
            "/home/me/.cardamomrc".to_string(),
        ],
        DeserializedConfig::candidates(None, Some("/home/me/"))
    );
    assert_eq!(
        vec!["/xdg/cardamom/config.toml".to_string()],
        DeserializedConfig::candidates(Some("/xdg/"), None)
    );
    assert_eq!(Vec::<String>::new(), DeserializedConfig::candidates(None, None));
}

#[test]
fn the_configuration_file_is_the_first_place_that_is_a_file() {
    let places = |found: [bool; 3]| {
        vec![
            ("/xdg/cardamom/config.toml".to_string(), found[0]),
            ("/home/me/.config/cardamom/config.toml".to_string(), found[1]),
            ("/home/me/.cardamomrc".to_string(), found[2]),
        ]
    };
    assert_eq!(
        Ok("/xdg/cardamom/config.toml".to_string()),
        DeserializedConfig::path(&places([true, true, true]))
    );
    assert_eq!(
        Ok("/home/me/.config/cardamom/config.toml".to_string()),
        DeserializedConfig::path(&places([false, true, true]))
    );
    assert_eq!(
        Ok("/home/me/.cardamomrc".to_string()),
        DeserializedConfig::path(&places([false, false, true]))
    );
    assert_eq!(
        Err(ConfigError::ConfigFileNotFound),
        DeserializedConfig::path(&places([false, false, false]))
    );
    assert_eq!(Err(ConfigError::ConfigFileNotFound), DeserializedConfig::path(&vec![]));
}

#[test]
fn sync_is_the_only_command() {
    assert_eq!(Some(Cmd::Sync), cardamom::contact::matches(Some("sync")));
    assert_eq!(None, cardamom::contact::matches(Some("synchronize")));
    assert_eq!(None, cardamom::contact::matches(Some("")));
    assert_eq!(None, cardamom::contact::matches(None));
}

#[test]
fn print_options() {
    let opts = PrintTableOpts { max_width: Some(80) };
    assert_eq!(Some(80), opts.max_width);
    assert_eq!(opts, opts.clone());
}
