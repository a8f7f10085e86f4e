//! API keys of provider profiles, kept in the operating system's
//! credential store and never shown.

use vstd::prelude::*;
use crate::endpoint::parsed_url;
use crate::model_catalog::{ProviderKind, classify};
use crate::profiles::ProviderProfile;
use crate::text::{from_chars, is_blank, push_str, str_blank};

verus! {

broadcast use vstd::string::group_string_axioms;

/// Why a credential operation failed; no variant carries the secret.
#[derive(Debug, Clone, Copy, PartialEq, Eq, Structural)]
pub enum CredentialError {
    StoreUnavailable,
    EmptyValue,
    ConfirmationMismatch,
}

impl CredentialError {
    /// The error's text.
    pub fn message(&self) -> (result: &'static str)
        ensures
            result@ == match self {
                CredentialError::StoreUnavailable =>
                    "the operating-system credential store is unavailable"@,
                CredentialError::EmptyValue => "the credential value cannot be empty"@,
                CredentialError::ConfirmationMismatch =>
                    "the credential confirmation did not match"@,
            },
    {
        match self {
            CredentialError::StoreUnavailable =>
                "the operating-system credential store is unavailable",
            CredentialError::EmptyValue => "the credential value cannot be empty",
            CredentialError::ConfirmationMismatch => "the credential confirmation did not match",
        }
    }
}

/// Where a profile's secret is kept: read, written and removed.
pub trait SecretStore {
    fn get(&self) -> Result<Option<String>, CredentialError>;

    fn set(&self, secret: &str) -> Result<(), CredentialError>;

    fn delete(&self) -> Result<bool, CredentialError>;
}

/// How the credential store answered: no entry, or another failure.
#[derive(Debug, Clone, Copy, PartialEq, Eq, Structural)]
pub enum StoreFailure {
    NoEntry,
    Other,
}

#[verifier::external_type_specification]
#[verifier::external_body]
/// keyring's `Entry`, the handle of one credential in the platform store.
pub struct ExKeyringEntry(keyring::Entry);

/// keyring's `Entry::new`: the entry of `account` under `service` in the
/// platform's default store.  Whether it can be made depends on the store.
#[verifier::external_body]
fn open_entry(service: &str, account: &str) -> (result: Option<keyring::Entry>) {
    keyring::Entry::new(service, account).ok()
}

/// keyring's `Entry::get_password`, with `Error::NoEntry` told apart.  What
/// it reads is whatever the store holds.
#[verifier::external_body]
fn read_password(entry: &keyring::Entry) -> (result: Result<String, StoreFailure>) {
    match entry.get_password() {
        Ok(secret) => Ok(secret),
        Err(keyring::Error::NoEntry) => Err(StoreFailure::NoEntry),
        Err(_) => Err(StoreFailure::Other),
    }
}

/// keyring's `Entry::set_password`.
#[verifier::external_body]
fn write_password(entry: &keyring::Entry, secret: &str) -> (result: Result<(), StoreFailure>) {
    match entry.set_password(secret) {
        Ok(()) => Ok(()),
        Err(keyring::Error::NoEntry) => Err(StoreFailure::NoEntry),
        Err(_) => Err(StoreFailure::Other),
    }
}

/// keyring's `Entry::delete_credential`, with `Error::NoEntry` told apart.
#[verifier::external_body]
fn remove_credential(entry: &keyring::Entry) -> (result: Result<(), StoreFailure>) {
    match entry.delete_credential() {
        Ok(()) => Ok(()),
        Err(keyring::Error::NoEntry) => Err(StoreFailure::NoEntry),
        Err(_) => Err(StoreFailure::Other),
    }
}

/// The credential-store account of a profile.
pub open spec fn account_of(profile_id: Seq<char>) -> Seq<char> {
    "provider-profile:"@ + profile_id
}

/// The credential-store account of the profile `profile_id`.
pub fn credential_account(profile_id: &str) -> (result: String)
    ensures
        result@ == account_of(profile_id@),
{
    let mut out: Vec<char> = Vec::new();
    push_str(&mut out, "provider-profile:");
    push_str(&mut out, profile_id);
    from_chars(out.as_slice())
}

/// Refuses a blank secret.
pub fn validate_secret(secret: &str) -> (result: Result<(), CredentialError>)
    ensures
        result == (if is_blank(secret@) {
            Err(CredentialError::EmptyValue)
        } else {
            Ok(())
        }),
{
    if str_blank(secret) {
        Err(CredentialError::EmptyValue)
    } else {
        Ok(())
    }
}

/// What a read from the store yields: a non-blank secret, nothing for a
/// blank one or a missing entry, else an unavailable store.
pub open spec fn stored_secret(read: Result<String, StoreFailure>) -> Result<
    Option<Seq<char>>,
    CredentialError,
> {
    match read {
        Ok(secret) => if is_blank(secret@) {
            Ok(None)
        } else {
            Ok(Some(secret@))
        },
        Err(StoreFailure::NoEntry) => Ok(None),
        Err(StoreFailure::Other) => Err(CredentialError::StoreUnavailable),
    }
}

/// The views of a credential read's result.
pub open spec fn secret_view(r: Result<Option<String>, CredentialError>) -> Result<
    Option<Seq<char>>,
    CredentialError,
> {
    match r {
        Ok(Some(s)) => Ok(Some(s@)),
        Ok(None) => Ok(None),
        Err(e) => Err(e),
    }
}

/// Interprets what the store answered to a read.
pub fn interpret_read(read: Result<String, StoreFailure>) -> (result: Result<
    Option<String>,
    CredentialError,
>)
    ensures
        secret_view(result) == stored_secret(read),
{
    match read {
        Ok(secret) => {
            if str_blank(secret.as_str()) {
                Ok(None)
            } else {
                Ok(Some(secret))
            }
        },
        Err(StoreFailure::NoEntry) => Ok(None),
        Err(StoreFailure::Other) => Err(CredentialError::StoreUnavailable),
    }
}

/// Interprets what the store answered to a removal: whether an entry was
/// removed, or an unavailable store.
pub fn interpret_removal(outcome: Result<(), StoreFailure>) -> (result: Result<
    bool,
    CredentialError,
>)
    ensures
        result == match outcome {
            Ok(()) => Ok(true),
            Err(StoreFailure::NoEntry) => Ok(false),
            Err(StoreFailure::Other) => Err(CredentialError::StoreUnavailable),
        },
{
    match outcome {
        Ok(()) => Ok(true),
        Err(StoreFailure::NoEntry) => Ok(false),
        Err(StoreFailure::Other) => Err(CredentialError::StoreUnavailable),
    }
}

/// Interprets what the store answered to a write.
pub fn interpret_write(outcome: Result<(), StoreFailure>) -> (result: Result<(), CredentialError>)
    ensures
        result == match outcome {
            Ok(()) => Ok(()),
            Err(_) => Err(CredentialError::StoreUnavailable),
        },
{
    match outcome {
        Ok(()) => Ok(()),
        Err(_) => Err(CredentialError::StoreUnavailable),
    }
}

/// The operating system's credential-store entry of one profile.
#[derive(Debug)]
pub struct OsCredentialStore {
    account: String,
}

impl OsCredentialStore {
    /// The account the entry is kept under.
    pub closed spec fn account(&self) -> Seq<char> {
        self.account@
    }

    /// The entry of the profile `profile_id`.
    pub fn for_profile_id(profile_id: &str) -> (result: Self)
        ensures
            result.account() == account_of(profile_id@),
    {
        OsCredentialStore { account: credential_account(profile_id) }
    }

    fn entry(&self) -> (result: Result<keyring::Entry, CredentialError>)
        ensures
            result is Err ==> result == Err::<keyring::Entry, CredentialError>(
                CredentialError::StoreUnavailable,
            ),
    {
        match open_entry("roven", self.account.as_str()) {
            Some(entry) => Ok(entry),
            None => Err(CredentialError::StoreUnavailable),
        }
    }
}

impl SecretStore for OsCredentialStore {
    /// The stored secret, when it is present and not blank.
    fn get(&self) -> (result: Result<Option<String>, CredentialError>)
        ensures
            match result {
                Ok(Some(s)) => !is_blank(s@),
                Ok(None) => true,
                Err(e) => e == CredentialError::StoreUnavailable,
            },
    {
        let entry = match self.entry() {
            Ok(entry) => entry,
            Err(e) => {
                return Err(e);
            },
        };
        interpret_read(read_password(&entry))
    }

    /// Stores a non-blank secret; a blank one is refused before the store is
    /// touched.
    fn set(&self, secret: &str) -> (result: Result<(), CredentialError>)
        ensures
            is_blank(secret@) ==> result == Err::<(), CredentialError>(CredentialError::EmptyValue),
            !is_blank(secret@) ==> (result is Ok || result == Err::<(), CredentialError>(
                CredentialError::StoreUnavailable,
            )),
    {
        match validate_secret(secret) {
            Err(e) => {
                return Err(e);
            },
            Ok(()) => {},
        }
        let entry = match self.entry() {
            Ok(entry) => entry,
            Err(e) => {
                return Err(e);
            },
        };
        interpret_write(write_password(&entry, secret))
    }

    /// Removes the entry: whether one was there.
    fn delete(&self) -> (result: Result<bool, CredentialError>)
        ensures
            result is Err ==> result == Err::<bool, CredentialError>(
                CredentialError::StoreUnavailable,
            ),
    {
        let entry = match self.entry() {
            Ok(entry) => entry,
            Err(e) => {
                return Err(e);
            },
        };
        interpret_removal(remove_credential(&entry))
    }
}

/// Stores a prompted API key after checking it: a blank key and a
/// confirmation that differs are refused before the store is touched; a
/// confirmed key is handed to the store, whose answer is returned.
pub fn store_confirmed_api_key<S: SecretStore>(store: &S, secret: &str, confirmation: &str) -> (result: Result<(), CredentialError>)
    ensures
        is_blank(secret@) ==> result == Err::<(), CredentialError>(CredentialError::EmptyValue),
        !is_blank(secret@) && secret@ != confirmation@ ==> result == Err::<(), CredentialError>(
            CredentialError::ConfirmationMismatch,
        ),
        !is_blank(secret@) && secret@ == confirmation@ ==> call_ensures(S::set, (store, secret), result),
{
    match validate_secret(secret) {
        Err(e) => {
            return Err(e);
        },
        Ok(()) => {},
    }
    let a = crate::text::to_chars(secret);
    let b = crate::text::to_chars(confirmation);
    if !crate::text::chars_equal(&a, &b) {
        return Err(CredentialError::ConfirmationMismatch);
    }
    store.set(secret)
}

/// The environment variable that may hold a profile's key: the one of the
/// provider family its endpoint names, if any.
pub fn api_key_variable(profile: &ProviderProfile) -> (result: Option<&'static str>)
    ensures
        match classify(parsed_url(profile.endpoint@)) {
            None => result is None,
            Some(ProviderKind::OpenRouter) => result is Some && result->0@
                == "OPENROUTER_API_KEY"@,
            Some(ProviderKind::OllamaCloud) => result is Some && result->0@ == "OLLAMA_API_KEY"@,
        },
{
    match ProviderKind::from_endpoint(profile.endpoint.as_str()) {
        None => None,
        Some(kind) => Some(kind.api_key_env_var()),
    }
}

/// Whether the environment holds a key: a value that is not blank.
pub open spec fn uses_environment(environment_value: Option<String>) -> bool {
    match environment_value {
        Some(v) => !is_blank(v@),
        None => false,
    }
}

/// The key to use for a profile: the environment's value of the variable
/// that [`api_key_variable`] names, when it is set and not blank, else what
/// the store holds.
pub fn resolve_api_key<S: SecretStore>(environment_value: Option<String>, store: &S) -> (result: Result<Option<String>, CredentialError>)
    ensures
        match environment_value {
            Some(v) => !is_blank(v@) ==> result == Ok::<Option<String>, CredentialError>(Some(v)),
            None => true,
        },
        !uses_environment(environment_value) ==> call_ensures(S::get, (store,), result),
{
    match environment_value {
        Some(v) => {
            if !str_blank(v.as_str()) {
                return Ok(Some(v));
            }
        },
        None => {},
    }
    store.get()
}

/// Different profiles keep their keys under different accounts.
pub proof fn law_profile_accounts_distinct(a: Seq<char>, b: Seq<char>)
    requires
        a != b,
    ensures
        account_of(a) != account_of(b),
{
    let prefix = "provider-profile:"@;
    if account_of(a) == account_of(b) {
        assert(account_of(a).len() == account_of(b).len());
        assert(a =~= account_of(a).skip(prefix.len() as int));
        assert(b =~= account_of(b).skip(prefix.len() as int));
    }
}

} // verus!
