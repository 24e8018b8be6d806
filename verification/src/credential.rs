//! The API access token, kept in the operating system's credential store.
use crate::error::LoaderError;
use vstd::prelude::*;
use vstd::string::StringSliceAdditionalSpecFns;

verus! {

/// The credential store's entry for the loader's token.
#[verifier::external_type_specification]
#[verifier::external_body]
pub struct ExEntry(keyring::Entry);

/// What reading the stored token gave.
pub enum StoredToken {
    Found(String),
    Missing,
    Unreadable,
}

/// `keyring::Entry::new(service, account)`: whether the store could be
/// opened depends on the machine; nothing is stated of it.
#[verifier::external_body]
fn open_entry(service: &str, account: &str) -> (r: Option<keyring::Entry>) {
    keyring::Entry::new(service, account).ok()
}

/// The names of the store entry that holds the loader's token: service
/// `com.animus.patchloader`, account `api-access-token`.
pub fn token_entry_names() -> (r: (&'static str, &'static str))
    ensures
        r.0@ == "com.animus.patchloader"@,
        r.1@ == "api-access-token"@,
{
    ("com.animus.patchloader", "api-access-token")
}

/// Opens the store entry named by `token_entry_names`.
fn token_entry() -> (r: Option<keyring::Entry>) {
    let (service, account) = token_entry_names();
    open_entry(service, account)
}

/// A token length the store is asked to keep: 32 to 512 bytes.
pub open spec fn token_length_ok(token: &str) -> bool {
    32 <= token.spec_bytes().len() as usize <= 512
}

/// What `save` hands to the store: the token itself where its length is
/// accepted (see `token_length_ok`), nothing otherwise.
pub fn store_request(token: &str) -> (r: Option<String>)
    ensures
        token_length_ok(token) ==> (r matches Some(t) && t@ == token@),
        !token_length_ok(token) ==> r is None,
{
    let n = token.len();
    if n < 32 || n > 512 {
        return None;
    }
    Some(token.to_owned())
}

/// `Entry::set_password`: whether the store took the token depends on the
/// store; nothing is stated of it.
#[verifier::external_body]
fn store_password(e: &keyring::Entry, token: &str) -> (ok: bool) {
    e.set_password(token).is_ok()
}

/// `Entry::get_password`: the stored token, `Missing` for keyring's
/// `NoEntry` error, `Unreadable` for any other error. What is stored
/// depends on the store; nothing is stated of it.
#[verifier::external_body]
fn read_password(e: &keyring::Entry) -> (r: StoredToken) {
    match e.get_password() {
        Ok(value) => StoredToken::Found(value),
        Err(keyring::Error::NoEntry) => StoredToken::Missing,
        Err(_) => StoredToken::Unreadable,
    }
}

/// `Entry::delete_credential`, its outcome ignored.
#[verifier::external_body]
fn delete_password(e: &keyring::Entry) {
    let _ = e.delete_credential();
}

fn store_unavailable() -> (e: LoaderError)
    ensures
        e matches LoaderError::Other(m) && m@ == "Windows Credential Manager açılamadı."@,
{
    LoaderError::Other("Windows Credential Manager açılamadı.".to_owned())
}

/// Whether `r` is the answer to storing a valid token where the store could
/// be opened (`opened`) and kept the token (`kept`).
pub open spec fn save_answer(opened: bool, kept: bool, r: Result<(), LoaderError>) -> bool {
    if !opened {
        r matches Err(LoaderError::Other(m)) && m@ == "Windows Credential Manager açılamadı."@
    } else if !kept {
        r matches Err(LoaderError::Other(m)) && m@ == "Access token güvenli depoya kaydedilemedi."@
    } else {
        r is Ok
    }
}

/// The answer to storing a valid token, given what the store did (see
/// `save_answer`).
pub fn save_outcome(opened: bool, kept: bool) -> (r: Result<(), LoaderError>)
    ensures
        save_answer(opened, kept, r),
{
    if !opened {
        Err(store_unavailable())
    } else if !kept {
        Err(LoaderError::Other("Access token güvenli depoya kaydedilemedi.".to_owned()))
    } else {
        Ok(())
    }
}

/// Stores the access token: the store is handed what `store_request` gives
/// (the token itself), in the entry named by `token_entry_names`. A token of
/// fewer than 32 or more than 512 bytes is refused before the store is
/// touched; otherwise the answer is `save_answer` of what the store did,
/// which depends on the store alone.
pub fn save(token: &str) -> (r: Result<(), LoaderError>)
    ensures
        !token_length_ok(token) ==> (r matches Err(LoaderError::Other(m)) && m@
            == "Access token biçimi geçersiz."@),
        token_length_ok(token) ==> exists|opened: bool, kept: bool| #[trigger] save_answer(opened, kept, r),
{
    let request = store_request(token);
    let secret = match request {
        None => {
            return Err(LoaderError::Other("Access token biçimi geçersiz.".to_owned()));
        },
        Some(t) => t,
    };
    let r = match token_entry() {
        None => save_outcome(false, false),
        Some(entry) => {
            let kept = store_password(&entry, secret.as_str());
            save_outcome(true, kept)
        },
    };
    proof {
        assert(exists|opened: bool, kept: bool| #[trigger] save_answer(opened, kept, r));
    }
    r
}

/// Whether `r` is the answer to a token read where the store gave `stored`:
/// `None` where the store could not be opened (an error), else the token
/// found, no token where none is stored, or an error where it could not be
/// read.
pub open spec fn token_answer(stored: Option<StoredToken>, r: Result<Option<String>, LoaderError>) -> bool {
    match stored {
        None => r matches Err(LoaderError::Other(m)) && m@ == "Windows Credential Manager açılamadı."@,
        Some(StoredToken::Found(v)) => r matches Ok(Some(t)) && t@ == v@,
        Some(StoredToken::Missing) => r matches Ok(None),
        Some(StoredToken::Unreadable) => r matches Err(LoaderError::Other(m)) && m@
            == "Access token güvenli depodan okunamadı."@,
    }
}

/// The answer to a token read, given what the store gave (see
/// `token_answer`).
pub fn token_outcome(stored: Option<StoredToken>) -> (r: Result<Option<String>, LoaderError>)
    ensures
        token_answer(stored, r),
{
    match stored {
        None => Err(store_unavailable()),
        Some(StoredToken::Found(v)) => Ok(Some(v)),
        Some(StoredToken::Missing) => Ok(None),
        Some(StoredToken::Unreadable) => Err(
            LoaderError::Other("Access token güvenli depodan okunamadı.".to_owned()),
        ),
    }
}

/// Reads the access token from the store entry of `token_entry`: the answer
/// (see `token_answer`) to whatever the store gave, which depends on the
/// store alone.
pub fn load() -> (r: Result<Option<String>, LoaderError>)
    ensures
        exists|stored: Option<StoredToken>| #[trigger] token_answer(stored, r),
{
    let stored = match token_entry() {
        None => None,
        Some(entry) => Some(read_password(&entry)),
    };
    let r = token_outcome(stored);
    assert(token_answer(stored, r));
    r
}

/// Whether `r` is the answer to removing the token where the store could be
/// opened (`opened`): the removal's own answer is not looked at.
pub open spec fn clear_answer(opened: bool, r: Result<(), LoaderError>) -> bool {
    if opened {
        r is Ok
    } else {
        r matches Err(LoaderError::Other(m)) && m@ == "Windows Credential Manager açılamadı."@
    }
}

/// The answer to removing the token (see `clear_answer`).
pub fn clear_outcome(opened: bool) -> (r: Result<(), LoaderError>)
    ensures
        clear_answer(opened, r),
{
    if opened {
        Ok(())
    } else {
        Err(store_unavailable())
    }
}

/// Removes the access token from the entry named by `token_entry_names`:
/// the answer is `clear_answer` of whether the store could be opened, which
/// depends on the store alone.
pub fn clear() -> (r: Result<(), LoaderError>)
    ensures
        exists|opened: bool| #[trigger] clear_answer(opened, r),
{
    let r = match token_entry() {
        None => clear_outcome(false),
        Some(entry) => {
            delete_password(&entry);
            clear_outcome(true)
        },
    };
    proof {
        assert(exists|opened: bool| #[trigger] clear_answer(opened, r));
    }
    r
}

} // verus!
