//! Credential storage for the OpenAI API key, in the platform keychain under
//! service "yap" and account "openai_api_key".

use vstd::prelude::*;

verus! {

/// `keyring::Entry`: a handle on one credential of the platform store.
#[verifier::external_type_specification]
#[verifier::external_body]
pub struct ExKeyringEntry(keyring::Entry);

/// `keyring::Error`: a failure reported by the platform store.
#[verifier::external_type_specification]
#[verifier::external_body]
pub struct ExKeyringError(keyring::Error);

/// Service name under which credentials are stored.
pub const SERVICE: &'static str = "yap";

/// Account name of the OpenAI API key.
pub const OPENAI_KEY_ACCOUNT: &'static str = "openai_api_key";

/// What a keychain call that failed reported.
#[derive(Clone, Debug, PartialEq, Eq)]
pub enum KeyringFailure {
    /// The store holds no credential for the entry.
    NoEntry,
    /// Any other failure, with the store's message.
    Other(String),
}

/// Why a keychain operation of this library failed.
#[derive(Clone, Debug, PartialEq, Eq)]
pub enum KeychainError {
    /// The entry could not be opened.
    Open(String),
    /// The key could not be saved.
    Save(String),
    /// The key could not be deleted.
    Delete(String),
}

/// A credential of the platform store, opened for one service and account.
/// Besides the store's handle it records, for proofs, which item it names and
/// what this library did to that item through it.
pub struct KeychainEntry {
    handle: keyring::Entry,
    service: Ghost<Seq<char>>,
    account: Ghost<Seq<char>>,
    stored: Ghost<Option<Seq<char>>>,
    delete_requested: Ghost<bool>,
    read_requested: Ghost<bool>,
    last_read: Ghost<Option<Seq<char>>>,
}

impl KeychainEntry {
    /// The service of the item this entry names.
    pub closed spec fn service(&self) -> Seq<char> {
        self.service@
    }

    /// The account of the item this entry names.
    pub closed spec fn account(&self) -> Seq<char> {
        self.account@
    }

    /// The secret the store last accepted through this entry, if any.
    pub closed spec fn stored(&self) -> Option<Seq<char>> {
        self.stored@
    }

    /// Whether the store was asked to delete the item through this entry.
    pub closed spec fn delete_requested(&self) -> bool {
        self.delete_requested@
    }

    /// Whether the store was asked to read the item through this entry.
    pub closed spec fn read_requested(&self) -> bool {
        self.read_requested@
    }

    /// The secret the last read through this entry gave back, if it gave one.
    pub closed spec fn last_read(&self) -> Option<Seq<char>> {
        self.last_read@
    }

    /// Whether this entry names the OpenAI key's item.
    pub open spec fn is_openai_key_item(&self) -> bool {
        self.service() == SERVICE@ && self.account() == OPENAI_KEY_ACCOUNT@
    }
}

/// `keyring::Entry::new(service, user)`: opens the entry for a service and
/// account. When it succeeds, the entry names exactly that service and
/// account (the crate builds the credential from these two strings); whether
/// it succeeds depends on the platform store, so that is not stated.
#[verifier::external_body]
fn open_entry(service: &str, user: &str) -> (r: Result<KeychainEntry, keyring::Error>)
    ensures
        r matches Ok(e) ==> e.service() == service@ && e.account() == user@
            && e.stored() is None && !e.delete_requested() && !e.read_requested()
            && e.last_read() is None,
{
    match keyring::Entry::new(service, user) {
        Ok(handle) => Ok(KeychainEntry {
            handle,
            service: Ghost(service@),
            account: Ghost(user@),
            stored: Ghost(None),
            delete_requested: Ghost(false),
            read_requested: Ghost(false),
            last_read: Ghost(None),
        }),
        Err(e) => Err(e),
    }
}

/// `keyring::Entry::get_password`: reads the secret stored for the entry's
/// item as text, and the entry records the request and what came back. What
/// comes back depends on what the platform store holds, which may have
/// changed since any write, so nothing more is stated of it.
#[verifier::external_body]
fn read_password(entry: &mut KeychainEntry) -> (r: Result<String, keyring::Error>)
    ensures
        final(entry).service() == old(entry).service(),
        final(entry).account() == old(entry).account(),
        final(entry).stored() == old(entry).stored(),
        final(entry).delete_requested() == old(entry).delete_requested(),
        final(entry).read_requested(),
        final(entry).last_read() == match r {
            Ok(s) => Some(s@),
            Err(_) => None::<Seq<char>>,
        },
{
    entry.read_requested = Ghost(true);
    let r = entry.handle.get_password();
    match &r {
        Ok(s) => entry.last_read = Ghost(Some(s@)),
        Err(_) => entry.last_read = Ghost(None),
    }
    r
}

/// `keyring::Entry::set_password`: stores a secret for the entry's item.
/// When the store accepts it, the entry records that secret; whether the
/// store accepts it depends on the platform, so that is not stated.
#[verifier::external_body]
fn write_password(entry: &mut KeychainEntry, password: &str) -> (r: Result<(), keyring::Error>)
    ensures
        final(entry).service() == old(entry).service(),
        final(entry).account() == old(entry).account(),
        final(entry).delete_requested() == old(entry).delete_requested(),
        final(entry).stored() == if r is Ok {
            Some(password@)
        } else {
            old(entry).stored()
        },
{
    let r = entry.handle.set_password(password);
    if let Ok(()) = r {
        entry.stored = Ghost(Some(password@));
    }
    r
}

/// `keyring::Entry::delete_credential`: asks the store to remove the secret
/// of the entry's item, which the entry records. Whether there was one, and
/// whether the store complies, depends on the platform, so that is not stated.
#[verifier::external_body]
fn delete_entry(entry: &mut KeychainEntry) -> (r: Result<(), keyring::Error>)
    ensures
        final(entry).service() == old(entry).service(),
        final(entry).account() == old(entry).account(),
        final(entry).delete_requested(),
        final(entry).stored() == if r is Ok {
            None
        } else {
            old(entry).stored()
        },
{
    entry.delete_requested = Ghost(true);
    let r = entry.handle.delete_credential();
    if let Ok(()) = r {
        entry.stored = Ghost(None);
    }
    r
}

/// Tells `keyring::Error::NoEntry` apart from the other variants.
#[verifier::external_body]
fn is_no_entry(e: &keyring::Error) -> (r: bool) {
    match e {
        keyring::Error::NoEntry => true,
        _ => false,
    }
}

/// `<keyring::Error as Display>::fmt`, through `to_string`: the store's
/// message for a failure.
#[verifier::external_body]
fn error_text(e: &keyring::Error) -> (r: String) {
    e.to_string()
}

/// What a failed keychain call reported, from whether the store had no entry
/// and the store's message: a missing entry, or any other failure with its message.
fn classify_failure(no_entry: bool, message: String) -> (r: KeyringFailure)
    ensures
        r == if no_entry {
            KeyringFailure::NoEntry
        } else {
            KeyringFailure::Other(message)
        },
{
    if no_entry {
        KeyringFailure::NoEntry
    } else {
        KeyringFailure::Other(message)
    }
}

/// The message of a failure, for reporting.
fn failure_message(f: KeyringFailure) -> (r: String)
    ensures
        f matches KeyringFailure::Other(m) ==> r == m,
{
    match f {
        KeyringFailure::NoEntry => String::from_str("no entry"),
        KeyringFailure::Other(m) => m,
    }
}

/// Opens the keychain entry of an account under the service "yap".
fn entry(account: &str) -> (r: Result<KeychainEntry, KeychainError>)
    ensures
        r matches Ok(e) ==> e.service() == SERVICE@ && e.account() == account@
            && e.stored() is None && !e.delete_requested() && !e.read_requested(),
        r matches Err(e) ==> e is Open,
{
    match open_entry(SERVICE, account) {
        Ok(e) => Ok(e),
        Err(e) => Err(KeychainError::Open(failure_message(classify_failure(is_no_entry(&e), error_text(&e))))),
    }
}

/// Opens the keychain entry of the OpenAI API key: service "yap", account
/// "openai_api_key".
pub fn openai_entry() -> (r: Result<KeychainEntry, KeychainError>)
    ensures
        r matches Ok(e) ==> e.is_openai_key_item() && e.stored() is None && !e.delete_requested()
            && !e.read_requested(),
        r matches Err(e) ==> e is Open,
{
    entry(OPENAI_KEY_ACCOUNT)
}

/// The key that a keychain read yields: only a non-empty password counts.
pub fn stored_api_key(lookup: Result<String, KeyringFailure>) -> (r: Option<String>)
    ensures
        r == match lookup {
            Ok(s) => if s@.len() > 0 {
                Some(s)
            } else {
                None
            },
            Err(_) => None,
        },
{
    match lookup {
        Ok(s) => if !s.as_str().is_empty() {
            Some(s)
        } else {
            None
        },
        Err(_) => None,
    }
}

/// The key that the last read through an entry gave: only a non-empty
/// password counts.
pub open spec fn key_read(e: KeychainEntry) -> Option<Seq<char>> {
    match e.last_read() {
        Some(k) => if k.len() > 0 {
            Some(k)
        } else {
            None
        },
        None => None,
    }
}

/// Reads the stored OpenAI API key. Gives the key, `None` when the entry
/// cannot be opened, holds nothing, or holds an empty password, and beside it
/// the entry it read through: the item of service "yap" and account
/// "openai_api_key" (no entry when it could not be opened).
pub fn get_openai_api_key() -> (r: (Option<String>, Option<KeychainEntry>))
    ensures
        r.1 is None ==> r.0 is None,
        r.1 matches Some(e) ==> e.is_openai_key_item() && e.read_requested() && match r.0 {
            Some(k) => key_read(e) == Some(k@),
            None => key_read(e) is None,
        },
{
    let mut e = match openai_entry() {
        Ok(e) => e,
        Err(_) => return (None, None),
    };
    let lookup = match read_password(&mut e) {
        Ok(s) => Ok(s),
        Err(err) => Err(classify_failure(is_no_entry(&err), error_text(&err))),
    };
    (stored_api_key(lookup), Some(e))
}

/// Saves the OpenAI API key in the keychain. On success it hands back the
/// entry it wrote through: the item of service "yap" and account
/// "openai_api_key", which the store accepted `key` for.
pub fn set_openai_api_key(key: &str) -> (r: Result<KeychainEntry, KeychainError>)
    ensures
        r matches Ok(e) ==> e.is_openai_key_item() && e.stored() == Some(key@),
        r matches Err(e) ==> (e is Open || e is Save),
{
    let mut e = openai_entry()?;
    match write_password(&mut e, key) {
        Ok(()) => Ok(e),
        Err(err) => Err(KeychainError::Save(failure_message(classify_failure(is_no_entry(&err), error_text(&err))))),
    }
}

/// The outcome of deleting a credential: a missing credential counts as deleted.
pub fn deletion_outcome(res: Result<(), KeyringFailure>) -> (r: Result<(), KeychainError>)
    ensures
        r == match res {
            Ok(()) => Ok::<(), KeychainError>(()),
            Err(KeyringFailure::NoEntry) => Ok(()),
            Err(KeyringFailure::Other(m)) => Err(KeychainError::Delete(m)),
        },
{
    match res {
        Ok(()) => Ok(()),
        Err(KeyringFailure::NoEntry) => Ok(()),
        Err(KeyringFailure::Other(m)) => Err(KeychainError::Delete(m)),
    }
}

/// Removes the stored OpenAI API key; succeeds when there was none. On
/// success it hands back the entry it deleted through: the item of service
/// "yap" and account "openai_api_key".
pub fn clear_openai_api_key() -> (r: Result<KeychainEntry, KeychainError>)
    ensures
        r matches Ok(e) ==> e.is_openai_key_item() && e.delete_requested() && e.stored() is None,
        r matches Err(e) ==> (e is Open || e is Delete),
{
    let mut e = openai_entry()?;
    let res = match delete_entry(&mut e) {
        Ok(()) => Ok(()),
        Err(err) => Err(classify_failure(is_no_entry(&err), error_text(&err))),
    };
    match deletion_outcome(res) {
        Ok(()) => Ok(e),
        Err(err) => Err(err),
    }
}

/// The last (at most) four characters of a key.
pub open spec fn key_tail(key: Seq<char>) -> Seq<char> {
    if key.len() <= 4 {
        key
    } else {
        key.skip(key.len() - 4)
    }
}

/// How a key is shown: "sk-…" followed by its last four characters.
pub open spec fn hint_of(key: Seq<char>) -> Seq<char> {
    seq!['s', 'k', '-', '\u{2026}'] + key_tail(key)
}

/// The display form of a key: "sk-…" and its last four characters.
pub fn key_hint(key: &str) -> (r: String)
    ensures
        r@ == hint_of(key@),
{
    let cs = crate::chars::chars_of(key);
    let n = cs.len();
    let start = if n <= 4 {
        0
    } else {
        n - 4
    };
    let mut out: Vec<char> = Vec::new();
    out.push('s');
    out.push('k');
    out.push('-');
    out.push('\u{2026}');
    let ghost prefix = out@;
    let mut i = start;
    while i < n
        invariant
            n == cs@.len(),
            start <= i <= n,
            out@ == prefix + cs@.subrange(start as int, i as int),
        decreases n - i,
    {
        out.push(cs[i]);
        i += 1;
        assert(out@ =~= prefix + cs@.subrange(start as int, i as int));
    }
    assert(cs@.subrange(start as int, n as int) =~= key_tail(key@));
    assert(out@ =~= hint_of(key@));
    crate::chars::string_of(&out)
}

/// The display form of a key read from the store: `None` stays `None`.
pub fn hint_for(key: Option<String>) -> (r: Option<String>)
    ensures
        r is Some <==> key is Some,
        key matches Some(k) ==> r matches Some(h) && h@ == hint_of(k@),
{
    match key {
        Some(k) => Some(key_hint(k.as_str())),
        None => None,
    }
}

/// The display form of the stored key, or `None` when no key is stored,
/// and beside it the entry the key was read through, as `get_openai_api_key`
/// gives it.
pub fn openai_api_key_hint() -> (r: (Option<String>, Option<KeychainEntry>))
    ensures
        r.1 is None ==> r.0 is None,
        r.1 matches Some(e) ==> e.is_openai_key_item() && e.read_requested() && match r.0 {
            Some(h) => key_read(e) matches Some(k) && h@ == hint_of(k),
            None => key_read(e) is None,
        },
{
    let (key, e) = get_openai_api_key();
    (hint_for(key), e)
}

} // verus!
