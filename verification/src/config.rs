//! The user's accounts: what the configuration file holds, and the account
//! that a run works with.

use crate::paths::{join, joined};
use crate::search::{first_where, lemma_first_where_is, lemma_first_where_none};
use crate::text::{trim_trailing_newlines, without_trailing_newlines};
use vstd::prelude::*;

verus! {

/// The port of a CardDAV server where the configuration names none.
pub const DEFAULT_PORT: u16 = 8843;

/// Why no configuration or no account was found.
#[derive(Debug, PartialEq, Eq)]
pub enum ConfigError {
    /// No account is marked as the default one.
    DefaultAccountNotFound,
    /// No account has the name given.
    AccountNotFound(String),
    /// None of the places where the configuration file may be holds a file.
    ConfigFileNotFound,
}

/// A user account as the configuration file states it.
#[derive(Debug, PartialEq, Eq)]
pub struct DeserializedAccountConfig {
    /// Makes this account the default one. Defaults to false.
    pub default: Option<bool>,
    /// The directory used to synchronize contacts.
    pub sync_dir: Option<String>,
    /// The CardDAV server host.
    pub host: String,
    /// The CardDAV server port. Defaults to 8843.
    pub port: Option<u16>,
    /// The CardDAV login.
    pub login: String,
    /// The command that prints the CardDAV password.
    pub passwd_cmd: String,
}

impl DeserializedAccountConfig {
    /// Whether the account is marked as the default one.
    pub open spec fn is_default(&self) -> bool {
        self.default == Some(true)
    }
}

/// The configuration file: the accounts, each under its name.
#[derive(Debug, PartialEq, Eq)]
pub struct DeserializedConfig {
    pub accounts: Vec<(String, DeserializedAccountConfig)>,
}

/// The account that an optional name selects, by position: the first
/// default account where the name is missing, blank or `default`, else the
/// first account under that name.
pub open spec fn selected(
    accounts: Seq<(String, DeserializedAccountConfig)>,
    name: Option<Seq<char>>,
) -> Option<int> {
    if wants_default(name) {
        first_default(accounts)
    } else {
        first_named(accounts, trimmed(name.unwrap()))
    }
}

/// Whether an optional account name asks for the default account.
pub open spec fn wants_default(name: Option<Seq<char>>) -> bool {
    match name {
        None => true,
        Some(name) => trimmed(name) == "default"@ || trimmed(name).len() == 0,
    }
}

/// The position of the first default account.
pub open spec fn first_default(accounts: Seq<(String, DeserializedAccountConfig)>) -> Option<int> {
    first_where(accounts, marked_default())
}

/// The condition that an account is marked as the default one.
pub open spec fn marked_default() -> spec_fn((String, DeserializedAccountConfig)) -> bool {
    |account: (String, DeserializedAccountConfig)| account.1.is_default()
}

/// The condition that an account stands under this name.
pub open spec fn named(name: Seq<char>) -> spec_fn((String, DeserializedAccountConfig)) -> bool {
    |account: (String, DeserializedAccountConfig)| account.0@ == name
}

/// The condition that a candidate is a file.
pub open spec fn is_file() -> spec_fn((String, bool)) -> bool {
    |candidate: (String, bool)| candidate.1
}

/// The position of the first account with this name.
pub open spec fn first_named(
    accounts: Seq<(String, DeserializedAccountConfig)>,
    name: Seq<char>,
) -> Option<int> {
    first_where(accounts, named(name))
}

/// What `str::trim` makes of a text.
pub uninterp spec fn trimmed(text: Seq<char>) -> Seq<char>;

/// `str::trim` of the standard library: the text without the white space at
/// its two ends. The contract gives the result a name and claims no more
/// than that equal texts are trimmed alike.
#[verifier::external_body]
fn trim(text: &str) -> (result: &str)
    ensures
        result@ == trimmed(text@),
{
    text.trim()
}

impl DeserializedConfig {
    /// The places where the configuration file is looked for, in order:
    /// `cardamom/config.toml` under the configuration home,
    /// `.config/cardamom/config.toml` under the home directory, and
    /// `.cardamomrc` under the home directory.
    pub open spec fn candidates_of(
        config_home: Option<Seq<char>>,
        home: Option<Seq<char>>,
    ) -> Seq<Seq<char>> {
        let first = match config_home {
            Some(dir) => seq![joined(joined(dir, "cardamom"@), "config.toml"@)],
            None => Seq::empty(),
        };
        let others = match home {
            Some(dir) => seq![
                joined(joined(joined(dir, ".config"@), "cardamom"@), "config.toml"@),
                joined(dir, ".cardamomrc"@),
            ],
            None => Seq::empty(),
        };
        first + others
    }

    /// The places where the configuration file is looked for, from the
    /// configuration home and the home directory, as far as they are known.
    pub fn candidates(config_home: Option<&str>, home: Option<&str>) -> (paths: Vec<String>)
        ensures
            paths@.len() == Self::candidates_of(text_view(config_home), text_view(home)).len(),
            forall|i: int|
                0 <= i < paths@.len() ==> paths@[i]@ == Self::candidates_of(
                    text_view(config_home),
                    text_view(home),
                )[i],
    {
        let mut paths: Vec<String> = Vec::new();
        if let Some(dir) = config_home {
            let inner = join(dir, "cardamom");
            paths.push(join(inner.as_str(), "config.toml"));
        }
        if let Some(dir) = home {
            let hidden = join(dir, ".config");
            let inner = join(hidden.as_str(), "cardamom");
            paths.push(join(inner.as_str(), "config.toml"));
            paths.push(join(dir, ".cardamomrc"));
        }
        paths
    }

    /// The first of the candidates that is a file.
    pub open spec fn first_file(candidates: Seq<(String, bool)>) -> Option<int> {
        first_where(candidates, is_file())
    }

    /// The path of the configuration file: the first candidate that is a
    /// file. Each candidate stands beside the answer to whether it is one.
    pub fn path(candidates: &Vec<(String, bool)>) -> (found: Result<String, ConfigError>)
        ensures
            match found {
                Ok(path) => Self::first_file(candidates@) is Some && path@
                    == candidates@[Self::first_file(candidates@).unwrap()].0@,
                Err(error) => Self::first_file(candidates@) is None && error
                    == ConfigError::ConfigFileNotFound,
            },
    {
        let mut i: usize = 0;
        while i < candidates.len()
            invariant
                i <= candidates@.len(),
                forall|k: int| 0 <= k < i ==> !is_file()(#[trigger] candidates@[k]),
            decreases candidates@.len() - i,
        {
            if candidates[i].1 {
                proof {
                    lemma_first_where_is(candidates@, is_file(), i as int);
                }
                return Ok(candidates[i].0.clone());
            }
            i = i + 1;
        }
        proof {
            lemma_first_where_none(candidates@, is_file());
        }
        Err(ConfigError::ConfigFileNotFound)
    }

    /// The account that an optional name selects: the first default account
    /// where the name is missing, blank or `default`, else the first account
    /// under that name.
    pub fn find_account(&self, account_name: Option<&str>) -> (found: Result<usize, ConfigError>)
        ensures
            match found {
                Ok(i) => selected(self.accounts@, text_view(account_name)) == Some(i as int) && i
                    < self.accounts@.len(),
                Err(ConfigError::DefaultAccountNotFound) => wants_default(text_view(account_name))
                    && selected(self.accounts@, text_view(account_name)) is None,
                Err(ConfigError::AccountNotFound(name)) => !wants_default(text_view(account_name))
                    && selected(self.accounts@, text_view(account_name)) is None && name@
                    == trimmed(account_name.unwrap()@),
                Err(ConfigError::ConfigFileNotFound) => false,
            },
    {
        let name: Option<String> = match account_name {
            None => None,
            Some(name) => {
                let name = trim(name);
                if name.unicode_len() == 0 || crate::card::same_text(name, "default") {
                    None
                } else {
                    Some(name.to_owned())
                }
            },
        };
        let ghost wanted = if name is None {
            marked_default()
        } else {
            named(trimmed(account_name.unwrap()@))
        };
        let mut i: usize = 0;
        while i < self.accounts.len()
            invariant
                i <= self.accounts@.len(),
                name is None <==> wants_default(text_view(account_name)),
                name is Some ==> name.unwrap()@ == trimmed(account_name.unwrap()@),
                selected(self.accounts@, text_view(account_name)) == first_where(
                    self.accounts@,
                    wanted,
                ),
                name is None ==> wanted == marked_default(),
                name is Some ==> wanted == named(trimmed(account_name.unwrap()@)),
                forall|k: int| 0 <= k < i ==> !wanted(#[trigger] self.accounts@[k]),
            decreases self.accounts@.len() - i,
        {
            let hit = match &name {
                None => match self.accounts[i].1.default {
                    Some(default) => default,
                    None => false,
                },
                Some(name) => self.accounts[i].0 == *name,
            };
            if hit {
                proof {
                    lemma_first_where_is(self.accounts@, wanted, i as int);
                }
                return Ok(i);
            }
            i = i + 1;
        }
        proof {
            lemma_first_where_none(self.accounts@, wanted);
        }
        match name {
            None => Err(ConfigError::DefaultAccountNotFound),
            Some(name) => Err(ConfigError::AccountNotFound(name)),
        }
    }
}

/// The characters of a text that may be missing.
pub open spec fn text_view(text: Option<&str>) -> Option<Seq<char>> {
    match text {
        Some(text) => Some(text@),
        None => None,
    }
}

/// The account that a run works with.
#[derive(Debug, PartialEq, Eq)]
pub struct AccountConfig {
    /// The name of the account.
    pub name: String,
    /// Whether this account is the default one.
    pub default: bool,
    /// The directory used to synchronize contacts.
    pub sync_dir: String,
    /// The CardDAV server host.
    pub host: String,
    /// The CardDAV server port.
    pub port: u16,
    /// The CardDAV login.
    pub login: String,
    /// The command that prints the CardDAV password.
    pub passwd_cmd: String,
}

impl AccountConfig {
    /// The account that an optional name selects from the configuration,
    /// with the directory that its `sync_dir` resolves to. A missing port
    /// becomes 8843.
    pub fn from_config_and_opt_account_name(
        config: &DeserializedConfig,
        account_name: Option<&str>,
        sync_dir: String,
    ) -> (account: Result<AccountConfig, ConfigError>)
        ensures
            account is Ok <==> selected(config.accounts@, text_view(account_name)) is Some,
            account is Ok ==> {
                let chosen = config.accounts@[selected(
                    config.accounts@,
                    text_view(account_name),
                ).unwrap()];
                let account = account.unwrap();
                &&& account.name@ == chosen.0@
                &&& account.default == chosen.1.is_default()
                &&& account.sync_dir@ == sync_dir@
                &&& account.host@ == chosen.1.host@
                &&& account.port == match chosen.1.port {
                    Some(port) => port,
                    None => DEFAULT_PORT,
                }
                &&& account.login@ == chosen.1.login@
                &&& account.passwd_cmd@ == chosen.1.passwd_cmd@
            },
            account is Err ==> (if wants_default(text_view(account_name)) {
                account.unwrap_err() == ConfigError::DefaultAccountNotFound
            } else {
                account.unwrap_err() matches ConfigError::AccountNotFound(name) && name@
                    == trimmed(account_name.unwrap()@)
            }),
    {
        match config.find_account(account_name) {
            Ok(i) => {
                let name = &config.accounts[i].0;
                let chosen = &config.accounts[i].1;
                Ok(
                    AccountConfig {
                        name: name.clone(),
                        default: match chosen.default {
                            Some(default) => default,
                            None => false,
                        },
                        sync_dir,
                        host: chosen.host.clone(),
                        port: match chosen.port {
                            Some(port) => port,
                            None => DEFAULT_PORT,
                        },
                        login: chosen.login.clone(),
                        passwd_cmd: chosen.passwd_cmd.clone(),
                    },
                )
            },
            Err(error) => Err(error),
        }
    }

    /// The path of the legacy snapshot: `.cache` in the sync directory.
    pub fn cache_cards_file_path(&self) -> (path: String)
        ensures
            path@ == joined(self.sync_dir@, ".cache"@),
    {
        join(self.sync_dir.as_str(), ".cache")
    }

    /// The password, from what the password command printed: its output
    /// without the carriage returns and line feeds at the end.
    pub fn passwd(&self, output: &str) -> (passwd: String)
        ensures
            passwd@ == without_trailing_newlines(output@),
    {
        trim_trailing_newlines(output)
    }
}

} // verus!
