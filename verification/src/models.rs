//! The accounts and settings of the application.

#[allow(unused_imports)]
use crate::text::trimmed;
use crate::text::{to_chars, to_text, trim};
#[allow(unused_imports)]
use crate::text_laws::{all_blank, bare, law_trimming_takes_the_white_space_away};
use vstd::prelude::*;

verus! {

/// The identity of an account.
pub type AccountId = String;

pub const FIXED_POLL_INTERVAL_SECS: u64 = 1;

/// One account.
#[derive(Debug, Clone, PartialEq)]
pub struct Account {
    pub id: AccountId,
    pub username: String,
    pub has_saved_password: bool,
    pub enabled: bool,
}

/// A digit of a hexadecimal number, in lower case.
pub open spec fn lower_hex(c: char) -> bool {
    '0' <= c <= '9' || 'a' <= c <= 'f'
}

/// A random UUID in its hyphenated form.
pub open spec fn random_uuid_text(s: Seq<char>) -> bool {
    &&& s.len() == 36
    &&& forall|i: int|
        0 <= i < 36 ==> if i == 8 || i == 13 || i == 18 || i == 23 {
            #[trigger] s[i] == '-'
        } else {
            lower_hex(s[i])
        }
    &&& s[14] == '4'
    &&& (s[19] == '8' || s[19] == '9' || s[19] == 'a' || s[19] == 'b')
}

/// `uuid::Uuid::new_v4`, written out by its `Display`: 36 characters in lower case
/// with hyphens, and with the version and variant of a random UUID. Which UUID it is
/// is left to chance. `uuid` panics where the system has no random numbers to give.
#[verifier::external_body]
fn new_random_id() -> (out: String)
    ensures
        random_uuid_text(out@),
{
    uuid::Uuid::new_v4().to_string()
}

/// What an account is called: its user name, or a stand-in where that is blank.
pub open spec fn account_name(username: Seq<char>) -> Seq<char> {
    if trimmed(username).len() > 0 {
        trimmed(username)
    } else {
        "Untitled account"@
    }
}

impl Account {
    /// A new account, enabled and without a saved password.
    pub fn new(username: String) -> (out: Self)
        ensures
            random_uuid_text(out.id@),
            out.username@ == username@,
            !out.has_saved_password,
            out.enabled,
    {
        Account { id: new_random_id(), username, has_saved_password: false, enabled: true }
    }

    /// `account_name`, computed.
    pub fn display_name(&self) -> (out: String)
        ensures
            out@ == account_name(self.username@),
    {
        let chars: Vec<char> = to_chars(self.username.as_str());
        let inner: &[char] = trim(&chars);
        if inner.len() > 0 {
            to_text(inner)
        } else {
            "Untitled account".to_owned()
        }
    }
}

/// The settings of the application.
#[derive(Debug, Clone, Copy, PartialEq, Eq, Structural)]
pub struct AppSettings {
    pub poll_interval_secs: u64,
    pub auto_start: bool,
    pub start_minimized: bool,
    pub use_keyring: bool,
}

pub open spec fn default_settings() -> AppSettings {
    AppSettings {
        poll_interval_secs: FIXED_POLL_INTERVAL_SECS,
        auto_start: false,
        start_minimized: false,
        use_keyring: true,
    }
}

impl Default for AppSettings {
    fn default() -> (out: Self)
        ensures
            out == default_settings(),
    {
        AppSettings {
            poll_interval_secs: FIXED_POLL_INTERVAL_SECS,
            auto_start: false,
            start_minimized: false,
            use_keyring: true,
        }
    }
}

/// The accounts with the settings.
#[derive(Debug, Clone, PartialEq)]
pub struct AppConfig {
    pub accounts: Vec<Account>,
    pub settings: AppSettings,
}

/// No accounts, and the default settings.
pub open spec fn default_config() -> ConfigView {
    ConfigView { accounts: Seq::empty(), settings: default_settings() }
}

impl Default for AppConfig {
    fn default() -> (out: Self)
        ensures
            out.deep_view() == default_config(),
    {
        let out: AppConfig = AppConfig { accounts: Vec::new(), settings: AppSettings::default() };
        assert(out.deep_view() =~= default_config());
        out
    }
}

/// What an account holds.
#[verifier::ext_equal]
pub struct AccountView {
    pub id: Seq<char>,
    pub username: Seq<char>,
    pub has_saved_password: bool,
    pub enabled: bool,
}

impl DeepView for Account {
    type V = AccountView;

    open spec fn deep_view(&self) -> AccountView {
        AccountView {
            id: self.id@,
            username: self.username@,
            has_saved_password: self.has_saved_password,
            enabled: self.enabled,
        }
    }
}

/// What a configuration holds.
#[verifier::ext_equal]
pub struct ConfigView {
    pub accounts: Seq<AccountView>,
    pub settings: AppSettings,
}

impl DeepView for AppConfig {
    type V = ConfigView;

    open spec fn deep_view(&self) -> ConfigView {
        ConfigView { accounts: self.accounts.deep_view(), settings: self.settings }
    }
}

/// A copy of accounts.
pub fn duplicate_accounts(accounts: &Vec<Account>) -> (out: Vec<Account>)
    ensures
        out.deep_view() == accounts.deep_view(),
{
    let mut out: Vec<Account> = Vec::new();
    let mut i: usize = 0;
    while i < accounts.len()
        invariant
            i <= accounts@.len(),
            out@.len() == i,
            forall|j: int|
                0 <= j < i ==> (#[trigger] out@[j]).deep_view() == accounts@[j].deep_view(),
        decreases accounts@.len() - i,
    {
        let account: &Account = &accounts[i];
        out.push(
            Account {
                id: account.id.clone(),
                username: account.username.clone(),
                has_saved_password: account.has_saved_password,
                enabled: account.enabled,
            },
        );
        i += 1;
    }
    assert(out.deep_view() =~= accounts.deep_view());
    out
}

/// A page of the settings window.
#[derive(Debug, Clone, Copy, PartialEq, Eq, Structural)]
pub enum Tab {
    Accounts,
    Settings,
    Diagnose,
}

#[derive(Debug, Clone, Copy, PartialEq, Eq, Structural)]
pub enum WorkerStatus {
    Idle,
    Running,
}

/// A line of the log.
#[derive(Debug, Clone)]
pub struct LogEntry {
    pub timestamp: String,
    pub level: LogLevel,
    pub message: String,
}

#[derive(Debug, Clone, Copy, PartialEq, Eq, Structural)]
pub enum LogLevel {
    Info,
    Warn,
}

/// An account is called by its user name without the white space round it, or by a
/// stand-in where that is blank.
pub proof fn law_what_an_account_is_called(before: Seq<char>, name: Seq<char>, after: Seq<char>)
    requires
        all_blank(before),
        all_blank(after),
        bare(name),
    ensures
        account_name(before + name + after) == if name.len() == 0 {
            "Untitled account"@
        } else {
            name
        },
{
    law_trimming_takes_the_white_space_away(before, name, after);
}

/// Without a configuration there are no accounts, the monitor looks every second, nothing
/// starts by itself or minimized, and passwords are kept in the keyring.
pub proof fn law_the_default_configuration()
    ensures
        default_config().accounts.len() == 0,
        default_config().settings == (AppSettings {
            poll_interval_secs: 1,
            auto_start: false,
            start_minimized: false,
            use_keyring: true,
        }),
{
}

} // verus!
