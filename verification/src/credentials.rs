//! Profile secrets in the platform keyring: the account names they are
//! stored under, and what a lookup, a verified save or a delete reports.

use vstd::prelude::*;
use vstd::string::*;
use vstd::utf8::*;

use crate::config::{config_dir, join_path, path_joined};
use crate::error::AppError;
use crate::text::{join_texts, joined, push_char, push_str, string_views};

verus! {

/// The keyring service every profile secret is stored under.
pub const SERVICE: &'static str = "sshcli";

#[verifier::external_type_specification]
#[verifier::external_body]
pub struct ExKeyringEntry(keyring::Entry);

#[verifier::external_type_specification]
#[verifier::external_body]
pub struct ExKeyringError(keyring::Error);

/// `keyring::Entry::new(service, user)`: builds the credential of the
/// default store for that service and account. Whether it succeeds depends on
/// the platform store, so nothing is stated of the result.
#[verifier::external_body]
fn open_entry(service: &str, user: &str) -> Result<keyring::Entry, keyring::Error> {
    keyring::Entry::new(service, user)
}

/// `keyring::Entry::set_password`: stores `secret` in the platform store.
/// The outcome depends on that store.
#[verifier::external_body]
pub(crate) fn store_password(entry: &keyring::Entry, secret: &str) -> Result<(), keyring::Error> {
    entry.set_password(secret)
}

/// `keyring::Entry::get_password`: reads the stored secret. What comes back
/// depends on the platform store.
#[verifier::external_body]
pub(crate) fn load_password(entry: &keyring::Entry) -> Result<String, keyring::Error> {
    entry.get_password()
}

/// `keyring::Entry::delete_credential`: removes the stored secret. The
/// outcome depends on the platform store.
#[verifier::external_body]
pub(crate) fn erase_password(entry: &keyring::Entry) -> Result<(), keyring::Error> {
    entry.delete_credential()
}

/// Whether a keyring error is the `keyring::Error::NoEntry` variant (no
/// secret stored for the account). The error value is opaque here, so
/// nothing is stated of the answer.
#[verifier::external_body]
fn is_no_entry(error: &keyring::Error) -> bool {
    match error {
        keyring::Error::NoEntry => true,
        _ => false,
    }
}

/// The `Display` text of a keyring error. Every variant's text starts with a
/// fixed phrase, so it is never empty; which text it is depends on the
/// opaque error and is not stated.
#[verifier::external_body]
fn keyring_message(error: &keyring::Error) -> (s: String)
    ensures
        s@.len() > 0,
{
    format!("{error}")
}

/// The lowercase hexadecimal digit of `n` (`0 <= n < 16`).
pub open spec fn hex_digit(n: nat) -> char {
    if n < 10 {
        (48 + n) as char
    } else {
        (87 + n) as char
    }
}

/// The two lowercase hexadecimal digits of a byte (`{byte:02x}`).
pub open spec fn hex_pair(b: u8) -> Seq<char> {
    seq![hex_digit((b / 16) as nat), hex_digit((b % 16) as nat)]
}

/// Every byte written as two lowercase hexadecimal digits, in order.
pub open spec fn hex_text(bytes: Seq<u8>) -> Seq<char>
    decreases bytes.len(),
{
    if bytes.len() == 0 {
        Seq::empty()
    } else {
        hex_text(bytes.drop_last()) + hex_pair(bytes.last())
    }
}

/// The key a profile name is stored under: the hexadecimal text of its UTF-8
/// bytes, so names that differ only in punctuation never share a key.
pub open spec fn key_of(name: Seq<char>) -> Seq<char> {
    hex_text(encode_utf8(name))
}

/// The keyring account of a profile.
pub open spec fn account_of(name: Seq<char>) -> Seq<char> {
    "profile."@ + key_of(name)
}

/// The keyring account used by earlier releases.
pub open spec fn legacy_account_of(name: Seq<char>) -> Seq<char> {
    "profile:"@ + name
}

/// The file name of a profile's encrypted fallback secret.
pub open spec fn fallback_file_of(name: Seq<char>) -> Seq<char> {
    key_of(name) + ".dpapi"@
}

proof fn lemma_hex_text_shape(bytes: Seq<u8>)
    ensures
        hex_text(bytes).len() == 2 * bytes.len(),
        forall|i: int|
            0 <= i < bytes.len() ==> #[trigger] hex_text(bytes).subrange(2 * i, 2 * i + 2)
                == hex_pair(bytes[i]),
    decreases bytes.len(),
{
    if bytes.len() > 0 {
        let init = bytes.drop_last();
        lemma_hex_text_shape(init);
        let t = hex_text(bytes);
        assert(t == hex_text(init) + hex_pair(bytes.last()));
        assert forall|i: int| 0 <= i < bytes.len() implies #[trigger] t.subrange(
            2 * i,
            2 * i + 2,
        ) == hex_pair(bytes[i]) by {
            if i < init.len() {
                assert(t.subrange(2 * i, 2 * i + 2) =~= hex_text(init).subrange(2 * i, 2 * i + 2));
            } else {
                assert(t.subrange(2 * i, 2 * i + 2) =~= hex_pair(bytes.last()));
            }
        }
    }
}

proof fn lemma_hex_pair_injective(a: u8, b: u8)
    requires
        hex_pair(a) == hex_pair(b),
    ensures
        a == b,
{
    assert(hex_pair(a)[0] == hex_pair(b)[0]);
    assert(hex_pair(a)[1] == hex_pair(b)[1]);
    assert((a / 16) as nat == (b / 16) as nat);
    assert((a % 16) as nat == (b % 16) as nat);
}

/// Different byte strings have different hexadecimal texts.
pub proof fn lemma_hex_text_injective(a: Seq<u8>, b: Seq<u8>)
    requires
        hex_text(a) == hex_text(b),
    ensures
        a == b,
{
    lemma_hex_text_shape(a);
    lemma_hex_text_shape(b);
    assert forall|i: int| 0 <= i < a.len() implies a[i] == b[i] by {
        assert(hex_text(a).subrange(2 * i, 2 * i + 2) == hex_pair(a[i]));
        assert(hex_text(b).subrange(2 * i, 2 * i + 2) == hex_pair(b[i]));
        lemma_hex_pair_injective(a[i], b[i]);
    }
    assert(a =~= b);
}

/// Two different profile names never share a keyring account, an
/// encrypted fallback file or a key.
pub proof fn lemma_profile_keys_distinct(a: Seq<char>, b: Seq<char>)
    requires
        a != b,
    ensures
        key_of(a) != key_of(b),
        account_of(a) != account_of(b),
        fallback_file_of(a) != fallback_file_of(b),
{
    broadcast use encode_utf8_decode_utf8;

    reveal_strlit("profile.");
    reveal_strlit(".dpapi");
    if key_of(a) == key_of(b) {
        lemma_hex_text_injective(encode_utf8(a), encode_utf8(b));
        assert(decode_utf8(encode_utf8(a)) == decode_utf8(encode_utf8(b)));
    }
    if account_of(a) == account_of(b) {
        assert(key_of(a) =~= account_of(a).subrange(8, account_of(a).len() as int));
        assert(key_of(b) =~= account_of(b).subrange(8, account_of(b).len() as int));
    }
    if fallback_file_of(a) == fallback_file_of(b) {
        let fa = fallback_file_of(a);
        assert(key_of(a) =~= fa.subrange(0, fa.len() - 6));
        assert(key_of(b) =~= fa.subrange(0, fa.len() - 6));
    }
}

fn hex_char(n: u8) -> (c: char)
    requires
        n < 16,
    ensures
        c == hex_digit(n as nat),
{
    if n < 10 {
        (48 + n) as char
    } else {
        (87 + n) as char
    }
}

/// The hexadecimal key of a profile name (`key_of`).
pub fn profile_key(profile_name: &str) -> (k: String)
    ensures
        k@ == key_of(profile_name@),
{
    let bytes = profile_name.as_bytes();
    let mut out = String::new();
    let mut i: usize = 0;
    while i < bytes.len()
        invariant
            0 <= i <= bytes.len(),
            bytes@ == encode_utf8(profile_name@),
            out@ == hex_text(bytes@.take(i as int)),
        decreases bytes.len() - i,
    {
        let b = bytes[i];
        push_char(&mut out, hex_char(b / 16));
        push_char(&mut out, hex_char(b % 16));
        assert(bytes@.take(i as int + 1).drop_last() =~= bytes@.take(i as int));
        i += 1;
        assert(out@ =~= hex_text(bytes@.take(i as int)));
    }
    assert(bytes@.take(bytes.len() as int) =~= bytes@);
    out
}

/// The keyring account of a profile (`profile.` and its key).
pub fn user(profile_name: &str) -> (u: String)
    ensures
        u@ == account_of(profile_name@),
{
    let mut u = String::from_str("profile.");
    let key = profile_key(profile_name);
    push_str(&mut u, key.as_str());
    proof {
        reveal_strlit("profile.");
    }
    u
}

/// The keyring account earlier releases stored a profile's secret under.
pub fn legacy_user(profile_name: &str) -> (u: String)
    ensures
        u@ == legacy_account_of(profile_name@),
{
    let mut u = String::from_str("profile:");
    push_str(&mut u, profile_name);
    proof {
        reveal_strlit("profile:");
    }
    u
}

/// The file name of a profile's encrypted fallback secret.
pub fn fallback_file_name(profile_name: &str) -> (f: String)
    ensures
        f@ == fallback_file_of(profile_name@),
{
    let mut f = profile_key(profile_name);
    push_str(&mut f, ".dpapi");
    proof {
        reveal_strlit(".dpapi");
    }
    f
}

/// The fallback secret file of a profile under the configuration directory
/// `dir`: `dir/secrets/<key>.dpapi`.
pub fn fallback_path_in(dir: &str, profile_name: &str) -> (p: String)
    ensures
        p@ == path_joined(path_joined(dir@, "secrets"@), fallback_file_of(profile_name@)),
{
    let secrets = join_path(dir, "secrets");
    let file = fallback_file_name(profile_name);
    join_path(secrets.as_str(), file.as_str())
}

/// The fallback secret file of a profile under the platform configuration
/// directory.
pub fn fallback_path(profile_name: &str) -> (p: String)
    ensures
        exists|dir: Seq<char>|
            p@ == path_joined(path_joined(dir, "secrets"@), fallback_file_of(profile_name@)),
{
    let dir = config_dir();
    fallback_path_in(dir.as_str(), profile_name)
}

/// The keyring entry of a profile.
pub fn entry(profile_name: &str) -> Result<keyring::Entry, keyring::Error> {
    let account = user(profile_name);
    open_entry(SERVICE, account.as_str())
}

/// The keyring entry earlier releases used for a profile.
pub fn legacy_entry(profile_name: &str) -> Result<keyring::Entry, keyring::Error> {
    let account = legacy_user(profile_name);
    open_entry(SERVICE, account.as_str())
}

/// Stores a profile's secret in its keyring entry.
pub fn set(profile_name: &str, secret: &str) -> Result<(), keyring::Error> {
    let e = entry(profile_name)?;
    store_password(&e, secret)
}

/// What one keyring read gave: the secret, no entry, or a failure with its
/// message.
#[derive(Debug, PartialEq, Eq)]
pub enum KeyringRead {
    Found(String),
    Missing,
    Failed(String),
}

/// The message of a failed read for a profile.
pub open spec fn read_failure_message(name: Seq<char>, error: Seq<char>) -> Seq<char> {
    "cannot read credential for profile "@ + name + ": "@ + error
}

/// What a lookup reports after one read: a final answer, or `None` to go on
/// with the next place the secret may be stored in.
pub open spec fn lookup_step_spec(name: Seq<char>, read: KeyringRead) -> Option<
    Result<Option<Seq<char>>, Seq<char>>,
> {
    match read {
        KeyringRead::Found(s) => Some(Ok(Some(s@))),
        KeyringRead::Missing => None,
        KeyringRead::Failed(m) => Some(Err(read_failure_message(name, m@))),
    }
}

/// The view of a lookup answer: the secret's text, or the message of a
/// credential error.
pub open spec fn lookup_view(r: Result<Option<String>, AppError>) -> Result<
    Option<Seq<char>>,
    Seq<char>,
> {
    match r {
        Ok(Some(s)) => Ok(Some(s@)),
        Ok(None) => Ok(None),
        Err(AppError::Credential(m)) => Err(m@),
        Err(_) => Err(Seq::empty()),
    }
}

/// Decides a lookup after one read: a secret ends it, a missing entry goes
/// on, any other failure ends it with a credential error.
pub fn lookup_step(profile_name: &str, read: KeyringRead) -> (r: Option<
    Result<Option<String>, AppError>,
>)
    ensures
        match r {
            None => lookup_step_spec(profile_name@, read) is None,
            Some(x) => {
                &&& lookup_step_spec(profile_name@, read) == Some(lookup_view(x))
                &&& (x matches Err(e) ==> e is Credential)
            },
        },
{
    match read {
        KeyringRead::Found(s) => Some(Ok(Some(s))),
        KeyringRead::Missing => None,
        KeyringRead::Failed(m) => {
            let mut msg = String::from_str("cannot read credential for profile ");
            push_str(&mut msg, profile_name);
            push_str(&mut msg, ": ");
            push_str(&mut msg, m.as_str());
            proof {
                reveal_strlit("cannot read credential for profile ");
                reveal_strlit(": ");
            }
            Some(Err(AppError::Credential(msg)))
        },
    }
}

/// The lookup over the primary read and, when that found no entry, the
/// legacy read.
pub open spec fn lookup_spec(name: Seq<char>, primary: KeyringRead, legacy: KeyringRead) -> Result<
    Option<Seq<char>>,
    Seq<char>,
> {
    match lookup_step_spec(name, primary) {
        Some(r) => r,
        None => match lookup_step_spec(name, legacy) {
            Some(r) => r,
            None => Ok(None),
        },
    }
}

/// Reads one keyring entry. An entry that could not be opened gives no
/// secret, and a failure always carries a message.
fn read_entry(opened: Result<keyring::Entry, keyring::Error>) -> (r: KeyringRead)
    ensures
        opened is Err ==> !(r is Found),
        r matches KeyringRead::Failed(m) ==> m@.len() > 0,
{
    let result = match opened {
        Ok(e) => load_password(&e),
        Err(error) => Err(error),
    };
    match result {
        Ok(secret) => KeyringRead::Found(secret),
        Err(error) => {
            if is_no_entry(&error) {
                KeyringRead::Missing
            } else {
                KeyringRead::Failed(keyring_message(&error))
            }
        },
    }
}

/// Looks a profile's secret up: first under its account, then, when there
/// is no entry there, under the legacy account. A missing entry in both
/// places is `Ok(None)`; any other keyring failure is a credential error.
pub fn get_optional(profile_name: &str) -> (r: Result<Option<String>, AppError>)
    ensures
        exists|primary: KeyringRead, legacy: KeyringRead|
            lookup_view(r) == lookup_spec(profile_name@, primary, legacy),
        r matches Err(e) ==> e is Credential,
{
    let primary = read_entry(entry(profile_name));
    let ghost p = primary;
    match lookup_step(profile_name, primary) {
        Some(r) => {
            assert(lookup_view(r) == lookup_spec(profile_name@, p, KeyringRead::Missing));
            r
        },
        None => {
            let legacy = read_entry(legacy_entry(profile_name));
            let ghost l = legacy;
            match lookup_step(profile_name, legacy) {
                Some(r) => {
                    assert(lookup_view(r) == lookup_spec(profile_name@, p, l));
                    r
                },
                None => {
                    assert(lookup_view(Ok(None)) == lookup_spec(profile_name@, p, l));
                    Ok(None)
                },
            }
        },
    }
}

/// How saving a secret in the keyring went: read back equal, read back
/// different, or failed with a message.
#[derive(Debug, PartialEq, Eq)]
pub enum SaveCheck {
    Matched,
    Mismatch,
    Failed(String),
}

/// What a save-and-read-back reports, given how the store went (`Err` with
/// the keyring's message) and what the read gave: a failure of either is
/// `keyring: <message>`, else the read-back is compared with the secret.
pub open spec fn save_check_of(
    secret: Seq<char>,
    stored: Result<(), Seq<char>>,
    read: Result<Seq<char>, Seq<char>>,
    c: SaveCheck,
) -> bool {
    match stored {
        Err(m) => m.len() > 0 && (c matches SaveCheck::Failed(x) && x@ == "keyring: "@ + m),
        Ok(()) => match read {
            Ok(saved) => if saved == secret {
                c is Matched
            } else {
                c is Mismatch
            },
            Err(m) => m.len() > 0 && (c matches SaveCheck::Failed(x) && x@ == "keyring: "@ + m),
        },
    }
}

/// Stores the secret and reads it back.
pub fn keyring_save_check(profile_name: &str, secret: &str) -> (c: SaveCheck)
    ensures
        exists|stored: Result<(), Seq<char>>, read: Result<Seq<char>, Seq<char>>|
            save_check_of(secret@, stored, read, c),
{
    match set(profile_name, secret) {
        Ok(()) => {},
        Err(error) => {
            let text = keyring_message(&error);
            let mut m = String::from_str("keyring: ");
            push_str(&mut m, text.as_str());
            let c = SaveCheck::Failed(m);
            proof {
                let stored: Result<(), Seq<char>> = Err(text@);
                let read: Result<Seq<char>, Seq<char>> = Ok(secret@);
                assert(save_check_of(secret@, stored, read, c));
            }
            return c;
        },
    }
    let read = match entry(profile_name) {
        Ok(e) => load_password(&e),
        Err(error) => Err(error),
    };
    let ghost stored: Result<(), Seq<char>> = Ok(());
    match read {
        Ok(saved) => {
            let c = if crate::text::text_eq(saved.as_str(), secret) {
                SaveCheck::Matched
            } else {
                SaveCheck::Mismatch
            };
            proof {
                let r: Result<Seq<char>, Seq<char>> = Ok(saved@);
                assert(save_check_of(secret@, stored, r, c));
            }
            c
        },
        Err(error) => {
            let text = keyring_message(&error);
            let mut m = String::from_str("keyring: ");
            push_str(&mut m, text.as_str());
            let c = SaveCheck::Failed(m);
            proof {
                let r: Result<Seq<char>, Seq<char>> = Err(text@);
                assert(save_check_of(secret@, stored, r, c));
            }
            c
        },
    }
}

/// The message of the fallback store on platforms without one.
pub open spec fn no_fallback_message(name: Seq<char>) -> Seq<char> {
    "no encrypted fallback is available for profile "@ + name + " on this platform"@
}

/// What a verified save reports: a keyring save that read back the same
/// secret succeeds; otherwise the encrypted fallback is tried, which this
/// platform does not have.
pub open spec fn save_outcome_spec(name: Seq<char>, check: SaveCheck) -> Result<(), Seq<char>> {
    match check {
        SaveCheck::Matched => Ok(()),
        SaveCheck::Mismatch => Err(
            "cannot save credential for profile "@ + name + ": "@
                + "keyring read-back did not match the supplied secret"@ + "; fallback: "@
                + "credential error: "@ + no_fallback_message(name),
        ),
        SaveCheck::Failed(m) => Err(
            "cannot save credential for profile "@ + name + ": "@ + m@ + "; fallback: "@
                + "credential error: "@ + no_fallback_message(name),
        ),
    }
}

/// The result of a verified save, from how the keyring save went.
pub fn set_verified_outcome(profile_name: &str, check: SaveCheck) -> (r: Result<(), AppError>)
    ensures
        match (r, save_outcome_spec(profile_name@, check)) {
            (Ok(()), Ok(())) => true,
            (Err(AppError::Credential(m)), Err(s)) => m@ == s,
            _ => false,
        },
{
    let reason = match check {
        SaveCheck::Matched => {
            return Ok(());
        },
        SaveCheck::Mismatch => String::from_str("keyring read-back did not match the supplied secret"),
        SaveCheck::Failed(m) => m,
    };
    let mut msg = String::from_str("cannot save credential for profile ");
    push_str(&mut msg, profile_name);
    push_str(&mut msg, ": ");
    push_str(&mut msg, reason.as_str());
    push_str(&mut msg, "; fallback: ");
    push_str(&mut msg, "credential error: ");
    push_str(&mut msg, "no encrypted fallback is available for profile ");
    push_str(&mut msg, profile_name);
    push_str(&mut msg, " on this platform");
    proof {
        reveal_strlit("cannot save credential for profile ");
        reveal_strlit(": ");
        reveal_strlit("; fallback: ");
        reveal_strlit("credential error: ");
        reveal_strlit("no encrypted fallback is available for profile ");
        reveal_strlit(" on this platform");
        reveal_strlit("keyring read-back did not match the supplied secret");
        assert(msg@ =~= match save_outcome_spec(profile_name@, check) {
            Err(s) => s,
            Ok(()) => Seq::empty(),
        });
    }
    Err(AppError::Credential(msg))
}

/// How deleting one keyring entry went: deleted, no entry to delete, or a
/// failure with its message.
#[derive(Debug, PartialEq, Eq)]
pub enum DeleteOutcome {
    Done,
    Missing,
    Failed(String),
}

/// The failure messages a delete outcome contributes: its message when it
/// failed, none when it deleted or found nothing to delete.
pub open spec fn failures(o: DeleteOutcome) -> Seq<Seq<char>> {
    match o {
        DeleteOutcome::Failed(m) => seq![m@],
        _ => Seq::empty(),
    }
}

/// Deletes one keyring entry and classifies the outcome. An entry that could
/// not be opened is never `Done`, and a failure always carries a message.
fn delete_entry(opened: Result<keyring::Entry, keyring::Error>) -> (r: DeleteOutcome)
    ensures
        opened is Err ==> !(r is Done),
        r matches DeleteOutcome::Failed(m) ==> m@.len() > 0,
{
    let result = match opened {
        Ok(e) => erase_password(&e),
        Err(error) => Err(error),
    };
    match result {
        Ok(()) => DeleteOutcome::Done,
        Err(error) => {
            if is_no_entry(&error) {
                DeleteOutcome::Missing
            } else {
                DeleteOutcome::Failed(keyring_message(&error))
            }
        },
    }
}

/// The failures of deleting the current and the legacy entry, in that
/// order; a deleted or missing entry is no failure.
pub fn delete_errors_of(primary: DeleteOutcome, legacy: DeleteOutcome) -> (e: Vec<String>)
    ensures
        string_views(e@) == failures(primary) + failures(legacy),
{
    let ghost p = primary;
    let ghost l = legacy;
    let mut errors: Vec<String> = Vec::new();
    match primary {
        DeleteOutcome::Failed(m) => errors.push(m),
        _ => {},
    }
    let ghost mid = errors@;
    match legacy {
        DeleteOutcome::Failed(m) => errors.push(m),
        _ => {},
    }
    proof {
        assert(string_views(mid) =~= failures(p));
        assert(string_views(errors@) =~= failures(p) + failures(l));
    }
    errors
}

/// Deletes the profile's secret from its keyring account and from the legacy
/// account; a missing entry is no error. The messages of the other failures,
/// in that order; which deletes fail is up to the keyring.
pub fn keyring_delete_errors(profile_name: &str) -> (errors: Vec<String>)
    ensures
        exists|p: DeleteOutcome, l: DeleteOutcome|
            string_views(errors@) == failures(p) + failures(l)
                && (p matches DeleteOutcome::Failed(m) ==> m@.len() > 0)
                && (l matches DeleteOutcome::Failed(m) ==> m@.len() > 0),
{
    let primary = delete_entry(entry(profile_name));
    let legacy = delete_entry(legacy_entry(profile_name));
    let ghost p = primary;
    let ghost l = legacy;
    let errors = delete_errors_of(primary, legacy);
    proof {
        assert(string_views(errors@) == failures(p) + failures(l));
    }
    errors
}

/// What a delete reports from the failures it met: none is success, any is
/// one credential error that lists them all.
pub open spec fn delete_outcome_spec(name: Seq<char>, errors: Seq<Seq<char>>) -> Result<
    (),
    Seq<char>,
> {
    if errors.len() == 0 {
        Ok(())
    } else {
        Err("cannot delete credential for profile "@ + name + ": "@ + joined(errors, "; "@))
    }
}

/// The result of deleting a profile's secret, from the failures met.
pub fn delete_outcome(profile_name: &str, errors: &Vec<String>) -> (r: Result<(), AppError>)
    ensures
        match (r, delete_outcome_spec(profile_name@, string_views(errors@))) {
            (Ok(()), Ok(())) => true,
            (Err(AppError::Credential(m)), Err(s)) => m@ == s,
            _ => false,
        },
{
    if errors.len() == 0 {
        return Ok(());
    }
    let mut msg = String::from_str("cannot delete credential for profile ");
    push_str(&mut msg, profile_name);
    push_str(&mut msg, ": ");
    let list = join_texts(errors, "; ");
    push_str(&mut msg, list.as_str());
    proof {
        reveal_strlit("cannot delete credential for profile ");
        reveal_strlit(": ");
    }
    Err(AppError::Credential(msg))
}

} // verus!
