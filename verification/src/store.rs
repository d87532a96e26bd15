//! Where profiles, passwords and tokens are kept: the profile directory's
//! paths, and the OS keychain through `keyring`.

use vstd::prelude::*;

use crate::error::CoreError;
use crate::text::{chars_of, concat2, concat3, owned};
use crate::traits::CredentialStore;

verus! {

/// `a` and `b` joined by `/`, as a path: an absolute `b` (starting with
/// `/`) replaces `a`, and no separator is doubled after one that ends `a`.
pub open spec fn path_join(a: Seq<char>, b: Seq<char>) -> Seq<char> {
    if b.len() > 0 && b[0] == '/' {
        b
    } else if a.len() == 0 {
        b
    } else if a.last() == '/' || a.last() == '\\' {
        a + b
    } else {
        a + "/"@ + b
    }
}

/// Joins two path pieces.
pub fn join_path(a: &str, b: &str) -> (r: String)
    ensures
        r@ == path_join(a@, b@),
{
    let av = chars_of(a);
    let bv = chars_of(b);
    if bv.len() > 0 && bv[0] == '/' {
        owned(b)
    } else if av.len() == 0 {
        owned(b)
    } else if av[av.len() - 1] == '/' || av[av.len() - 1] == '\\' {
        concat2(a, b)
    } else {
        concat3(a, "/", b)
    }
}

/// The file name's extension is `json`: the text after its last `.` is
/// `json`, and that `.` does not start the name.
pub open spec fn has_json_extension(file_name: Seq<char>) -> bool {
    file_name.len() > 5 && file_name.skip(file_name.len() - 5) == ".json"@
}

/// Whether a file name has the `json` extension.
pub fn is_json_file_name(file_name: &str) -> (r: bool)
    ensures
        r == has_json_extension(file_name@),
{
    let v = chars_of(file_name);
    let n = v.len();
    if n <= 5 {
        return false;
    }
    proof {
        reveal_strlit(".json");
    }
    let r = v[n - 5] == '.' && v[n - 4] == 'j' && v[n - 3] == 's' && v[n - 2] == 'o' && v[n - 1] == 'n';
    let ghost t = v@.skip(n - 5);
    assert(".json"@.len() == 5 && ".json"@[0] == '.' && ".json"@[1] == 'j' && ".json"@[2] == 's'
        && ".json"@[3] == 'o' && ".json"@[4] == 'n');
    assert(t[0] == v@[n - 5] && t[1] == v@[n - 4] && t[2] == v@[n - 3] && t[3] == v@[n - 2] && t[4] == v@[n - 1]);
    assert(r ==> t =~= ".json"@);
    r
}

/// The user's configuration directory, if the platform has one.
///
/// Trusted: calls `dirs_next::config_dir`; what it returns depends on the
/// platform and the environment, so nothing is stated of it.
#[verifier::external_body]
fn config_dir() -> Option<String> {
    dirs_next::config_dir().map(|p| p.to_string_lossy().to_string())
}

/// Profiles stored as JSON files, one per profile, in one directory.
#[derive(Debug, Clone)]
pub struct FileProfileStore {
    base_dir: String,
}

/// `<config dir>/<app>/profiles`
pub open spec fn profiles_dir(config: Seq<char>, app_name: Seq<char>) -> Seq<char> {
    path_join(path_join(config, app_name), "profiles"@)
}

/// `<dir>/<name>.json`
pub open spec fn profile_file(dir: Seq<char>, name: Seq<char>) -> Seq<char> {
    path_join(dir, name + ".json"@)
}

impl FileProfileStore {
    /// The store under the user's configuration directory:
    /// `<config dir>/<app_name>/profiles`. Fails when the platform has no
    /// configuration directory.
    pub fn new(app_name: &str) -> (r: Result<Self, CoreError>)
        ensures
            r matches Err(e) ==> (e matches CoreError::Other(m) && m@ == "could not resolve config dir"@),
            r matches Ok(s) ==> exists|c: Seq<char>| s.base() == profiles_dir(c, app_name@),
    {
        match config_dir() {
            None => Err(CoreError::Other(owned("could not resolve config dir"))),
            Some(c) => Ok(Self::in_config_dir(c.as_str(), app_name)),
        }
    }

    /// The store of `app_name` under a given configuration directory.
    pub fn in_config_dir(config: &str, app_name: &str) -> (r: Self)
        ensures
            r.base() == profiles_dir(config@, app_name@),
    {
        let app_dir = join_path(config, app_name);
        FileProfileStore { base_dir: join_path(app_dir.as_str(), "profiles") }
    }

    /// A store in a given directory.
    pub fn with_base_dir_for_tests(dir: String) -> (r: Self)
        ensures
            r.base() == dir@,
    {
        FileProfileStore { base_dir: dir }
    }

    /// The directory the profiles are in.
    pub closed spec fn base(&self) -> Seq<char> {
        self.base_dir@
    }

    /// The directory the profiles are in.
    pub fn base_dir(&self) -> (r: &str)
        ensures
            r@ == self.base(),
    {
        self.base_dir.as_str()
    }

    /// The file of the profile `name`.
    pub fn file_for(&self, name: &str) -> (r: String)
        ensures
            r@ == profile_file(self.base(), name@),
    {
        let file = concat2(name, ".json");
        join_path(self.base_dir.as_str(), file.as_str())
    }
}

/// The keychain service under which profile passwords are kept.
pub const SERVICE_NAME: &'static str = "vpn_mvp";

/// The keychain service under which login tokens are kept.
pub const TOKEN_SERVICE: &'static str = "vpn_mvp_tokens";

/// The keychain account of a profile's user: `<profile>/<username>`.
pub fn entry_account(profile: &str, username: &str) -> (r: String)
    ensures
        r@ == profile@ + "/"@ + username@,
{
    concat3(profile, "/", username)
}

/// Declares `keyring::Entry`, an entry of the OS keychain.
#[verifier::external_type_specification]
#[verifier::external_body]
pub struct ExKeyringEntry(keyring::Entry);

/// What the keychain answered to a read or a removal.
#[derive(Debug, Clone)]
pub enum KeychainAnswer {
    /// The stored secret (for a removal: done).
    Found(String),
    /// Nothing is stored there.
    NoEntry,
    /// The keychain failed, with its message.
    Failed(String),
}

/// The keychain entry of a service and an account.
///
/// Trusted: calls `keyring::Entry::new`; whether the platform accepts the
/// entry is its answer, so nothing is stated of it. Its error becomes its
/// message.
#[verifier::external_body]
fn keychain_entry(service: &str, account: &str) -> Result<keyring::Entry, String> {
    keyring::Entry::new(service, account).map_err(|e| e.to_string())
}

/// Reads an entry's password.
///
/// Trusted: calls `keyring::Entry::get_password`; the answer depends on the
/// keychain's state. `NoEntry` is told apart from other errors.
#[verifier::external_body]
fn keychain_get(entry: &keyring::Entry) -> KeychainAnswer {
    match entry.get_password() {
        Ok(p) => KeychainAnswer::Found(p),
        Err(keyring::Error::NoEntry) => KeychainAnswer::NoEntry,
        Err(e) => KeychainAnswer::Failed(e.to_string()),
    }
}

/// Stores an entry's password.
///
/// Trusted: calls `keyring::Entry::set_password`; the answer depends on the
/// keychain. Its error becomes its message.
#[verifier::external_body]
fn keychain_set(entry: &keyring::Entry, password: &str) -> Result<(), String> {
    entry.set_password(password).map_err(|e| e.to_string())
}

/// Removes an entry's credential.
///
/// Trusted: calls `keyring::Entry::delete_credential`; the answer depends on
/// the keychain. `NoEntry` is told apart from other errors.
#[verifier::external_body]
fn keychain_delete(entry: &keyring::Entry) -> KeychainAnswer {
    match entry.delete_credential() {
        Ok(()) => KeychainAnswer::Found(String::new()),
        Err(keyring::Error::NoEntry) => KeychainAnswer::NoEntry,
        Err(e) => KeychainAnswer::Failed(e.to_string()),
    }
}

/// `e` is `Other` with message `m`.
pub open spec fn is_other(e: CoreError, m: Seq<char>) -> bool {
    e matches CoreError::Other(t) && t@ == m
}

/// `e` is `Other` with a message that starts with `prefix`.
pub open spec fn is_other_after(e: CoreError, prefix: Seq<char>) -> bool {
    e matches CoreError::Other(t) && prefix.is_prefix_of(t@)
}

/// The error of a keychain step: `<prefix><message>`.
pub fn keychain_error(prefix: &str, message: &str) -> (e: CoreError)
    ensures
        is_other(e, prefix@ + message@),
        is_other_after(e, prefix@),
{
    let e = CoreError::Other(concat2(prefix, message));
    assert(prefix@ =~= (prefix@ + message@).subrange(0, prefix@.len() as int));
    e
}

/// `r` succeeded, or failed with an `Other` error whose message starts
/// with one of the two prefixes.
pub open spec fn keychain_result<T>(r: Result<T, CoreError>, first: Seq<char>, second: Seq<char>) -> bool {
    match r {
        Ok(_) => true,
        Err(e) => is_other_after(e, first) || is_other_after(e, second),
    }
}

/// A password read: found gives it, no entry gives none, a failure gives
/// `Other("<prefix><message>")`.
pub fn read_outcome(answer: KeychainAnswer, prefix: &str) -> (r: Result<Option<String>, CoreError>)
    ensures
        match answer {
            KeychainAnswer::Found(p) => r == Ok::<Option<String>, CoreError>(Some(p)),
            KeychainAnswer::NoEntry => r == Ok::<Option<String>, CoreError>(None),
            KeychainAnswer::Failed(m) => r matches Err(e) && is_other(e, prefix@ + m@),
        },
        r matches Err(e) ==> is_other_after(e, prefix@),
{
    match answer {
        KeychainAnswer::Found(p) => Ok(Some(p)),
        KeychainAnswer::NoEntry => Ok(None),
        KeychainAnswer::Failed(m) => Err(keychain_error(prefix, m.as_str())),
    }
}

/// A removal: done or nothing stored are both fine; a failure gives
/// `Other("keyring delete error: <message>")`.
pub fn delete_outcome(answer: KeychainAnswer) -> (r: Result<(), CoreError>)
    ensures
        match answer {
            KeychainAnswer::Failed(m) => r matches Err(e) && is_other(e, "keyring delete error: "@ + m@),
            _ => r is Ok,
        },
        r matches Err(e) ==> is_other_after(e, "keyring delete error: "@),
{
    match answer {
        KeychainAnswer::Failed(m) => Err(keychain_error("keyring delete error: ", m.as_str())),
        _ => Ok(()),
    }
}

/// Profile passwords in the OS keychain, under service `vpn_mvp` and
/// account `<profile>/<username>`.
#[derive(Debug, Clone, Copy, Default)]
pub struct OsKeyringCredentialStore;

impl CredentialStore for OsKeyringCredentialStore {
    /// Either stored, or the entry or the write failed, each with its own
    /// message prefix.
    open spec fn sets(&self, profile: Seq<char>, username: Seq<char>, password: Seq<char>, result: Result<
        (),
        CoreError,
    >) -> bool {
        keychain_result(result, "keyring entry error: "@, "keyring set error: "@)
    }

    /// Either an answer (`None` where nothing is stored), or the entry or
    /// the read failed, each with its own message prefix.
    open spec fn gets(&self, profile: Seq<char>, username: Seq<char>, result: Result<Option<String>, CoreError>) -> bool {
        keychain_result(result, "keyring entry error: "@, "keyring get error: "@)
    }

    /// Either removed (or nothing was stored), or the entry or the removal
    /// failed, each with its own message prefix.
    open spec fn deletes(&self, profile: Seq<char>, username: Seq<char>, result: Result<(), CoreError>) -> bool {
        keychain_result(result, "keyring entry error: "@, "keyring delete error: "@)
    }

    fn set_password(&self, profile: &str, username: &str, password: &str) -> Result<(), CoreError> {
        let account = entry_account(profile, username);
        let entry = match keychain_entry(SERVICE_NAME, account.as_str()) {
            Ok(e) => e,
            Err(m) => return Err(keychain_error("keyring entry error: ", m.as_str())),
        };
        match keychain_set(&entry, password) {
            Ok(()) => Ok(()),
            Err(m) => Err(keychain_error("keyring set error: ", m.as_str())),
        }
    }

    fn get_password(&self, profile: &str, username: &str) -> Result<Option<String>, CoreError> {
        let account = entry_account(profile, username);
        let entry = match keychain_entry(SERVICE_NAME, account.as_str()) {
            Ok(e) => e,
            Err(m) => return Err(keychain_error("keyring entry error: ", m.as_str())),
        };
        read_outcome(keychain_get(&entry), "keyring get error: ")
    }

    fn delete_password(&self, profile: &str, username: &str) -> Result<(), CoreError> {
        let account = entry_account(profile, username);
        let entry = match keychain_entry(SERVICE_NAME, account.as_str()) {
            Ok(e) => e,
            Err(m) => return Err(keychain_error("keyring entry error: ", m.as_str())),
        };
        delete_outcome(keychain_delete(&entry))
    }
}

/// The keychain account of a user's access token.
pub open spec fn access_account(email: Seq<char>) -> Seq<char> {
    "access:"@ + email
}

/// The keychain account of a user's refresh token.
pub open spec fn refresh_account(email: Seq<char>) -> Seq<char> {
    "refresh:"@ + email
}

/// Login tokens in the OS keychain, under service `vpn_mvp_tokens` and
/// accounts `access:<email>` and `refresh:<email>`.
#[derive(Debug, Clone, Copy, Default)]
pub struct TokenStore;

impl TokenStore {
    pub fn new() -> Self {
        TokenStore
    }

    /// The access-token account of `email`.
    pub fn access_account_of(email: &str) -> (r: String)
        ensures
            r@ == access_account(email@),
    {
        concat2("access:", email)
    }

    /// The refresh-token account of `email`.
    pub fn refresh_account_of(email: &str) -> (r: String)
        ensures
            r@ == refresh_account(email@),
    {
        concat2("refresh:", email)
    }

    fn store(account: &str, secret: &str) -> (r: Result<(), CoreError>)
        ensures
            keychain_result(r, "keyring entry: "@, "keyring set: "@),
    {
        let entry = match keychain_entry(TOKEN_SERVICE, account) {
            Ok(e) => e,
            Err(m) => return Err(keychain_error("keyring entry: ", m.as_str())),
        };
        match keychain_set(&entry, secret) {
            Ok(()) => Ok(()),
            Err(m) => Err(keychain_error("keyring set: ", m.as_str())),
        }
    }

    /// Stores both tokens of `email`, the access token first.
    pub fn save(&self, email: &str, access_token: &str, refresh_token: &str) -> (r: Result<(), CoreError>)
        ensures
            keychain_result(r, "keyring entry: "@, "keyring set: "@),
    {
        let access = Self::access_account_of(email);
        Self::store(access.as_str(), access_token)?;
        let refresh = Self::refresh_account_of(email);
        Self::store(refresh.as_str(), refresh_token)
    }

    /// The stored access token of `email`, if any.
    pub fn load_access(&self, email: &str) -> (r: Result<Option<String>, CoreError>)
        ensures
            keychain_result(r, "keyring entry: "@, "keyring get: "@),
    {
        let access = Self::access_account_of(email);
        let entry = match keychain_entry(TOKEN_SERVICE, access.as_str()) {
            Ok(e) => e,
            Err(m) => return Err(keychain_error("keyring entry: ", m.as_str())),
        };
        read_outcome(keychain_get(&entry), "keyring get: ")
    }
}

} // verus!
