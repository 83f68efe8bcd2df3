//! User-facing connection error texts: host-key rejections travel as
//! `sshcli:host-key:` followed by a JSON payload that the interface parses
//! back into a confirmation request.

use vstd::prelude::*;
use vstd::string::*;

use crate::error::{error_message, AppError};
use crate::ssh_options::{HOST_KEY_PREFIX, PASSWORD_REQUIRED};
use crate::text::{chars_of, decimal, push_decimal, push_str, string_of_range};

verus! {

/// The lowercase hexadecimal digit of `n` (`0 <= n < 16`).
pub open spec fn lower_hex_digit(n: nat) -> char {
    if n < 10 {
        (48 + n) as char
    } else {
        (87 + n) as char
    }
}

/// How `serde_json` writes one character inside a string: `"` and `\`
/// behind a backslash, the control characters that have a short escape
/// (`\b`, `\t`, `\n`, `\f`, `\r`) as that, other control characters
/// below U+0020 as `\u00` and two lowercase hex digits, anything else as
/// itself.
pub open spec fn json_escaped_char(c: char) -> Seq<char> {
    let x = c as u32;
    if c == '"' {
        seq!['\\', '"']
    } else if c == '\\' {
        seq!['\\', '\\']
    } else if x == 0x08 {
        seq!['\\', 'b']
    } else if x == 0x09 {
        seq!['\\', 't']
    } else if x == 0x0a {
        seq!['\\', 'n']
    } else if x == 0x0c {
        seq!['\\', 'f']
    } else if x == 0x0d {
        seq!['\\', 'r']
    } else if x < 0x20 {
        seq!['\\', 'u', '0', '0', lower_hex_digit((x / 16) as nat), lower_hex_digit((x % 16) as nat)]
    } else {
        seq![c]
    }
}

/// The characters of `s`, each escaped as `serde_json` writes it.
pub open spec fn json_escaped(s: Seq<char>) -> Seq<char>
    decreases s.len(),
{
    if s.len() == 0 {
        Seq::empty()
    } else {
        json_escaped(s.drop_last()) + json_escaped_char(s.last())
    }
}

/// What `serde_json::to_string` gives for the text `s`: `s` escaped and
/// between double quotes.
pub open spec fn json_quoted(s: Seq<char>) -> Seq<char> {
    seq!['"'] + json_escaped(s) + seq!['"']
}

/// `serde_json::to_string(s)` for a text, which cannot fail: it writes into
/// a `Vec` and only a failing writer could make it fail.
#[verifier::external_body]
fn json_quote(s: &str) -> (r: String)
    ensures
        r@ == json_quoted(s@),
{
    match serde_json::to_string(s) {
        Ok(t) => t,
        Err(_) => String::new(),
    }
}

/// The JSON payload of a host-key rejection, given the JSON texts of the
/// host and the key (keys in sorted order, as `serde_json` writes an object).
pub open spec fn payload_text(quoted_host: Seq<char>, port: u16, quoted_key: Seq<char>, changed: bool) -> Seq<
    char,
> {
    "{\"changed\":"@ + (if changed {
        "true"@
    } else {
        "false"@
    }) + ",\"host\":"@ + quoted_host + ",\"key\":"@ + quoted_key + ",\"port\":"@ + decimal(
        port as nat,
    ) + "}"@
}

/// The JSON payload of a host-key rejection.
pub open spec fn host_key_payload(host: Seq<char>, port: u16, key: Seq<char>, changed: bool) -> Seq<
    char,
> {
    payload_text(json_quoted(host), port, json_quoted(key), changed)
}

/// The error text of a host-key rejection, given the JSON texts of the host
/// and the key.
pub fn host_key_error_text(quoted_host: &str, port: u16, quoted_key: &str, changed: bool) -> (r:
    String)
    ensures
        r@ == HOST_KEY_PREFIX@ + payload_text(quoted_host@, port, quoted_key@, changed),
{
    let mut s = String::from_str(HOST_KEY_PREFIX);
    push_str(&mut s, "{\"changed\":");
    if changed {
        push_str(&mut s, "true");
    } else {
        push_str(&mut s, "false");
    }
    push_str(&mut s, ",\"host\":");
    push_str(&mut s, quoted_host);
    push_str(&mut s, ",\"key\":");
    push_str(&mut s, quoted_key);
    push_str(&mut s, ",\"port\":");
    push_decimal(&mut s, port as u64);
    push_str(&mut s, "}");
    s
}

/// The user-facing text of a connection error.
pub open spec fn ssh_error_text(e: AppError) -> Seq<char> {
    match e {
        AppError::HostKey { host, port, key, changed } => HOST_KEY_PREFIX@ + host_key_payload(
            host@,
            port,
            key@,
            changed,
        ),
        _ => error_message(e),
    }
}

/// Map a connection error to its user-facing text; a host-key rejection
/// becomes `sshcli:host-key:` followed by its JSON payload.
pub fn map_ssh_error(error: AppError) -> (r: String)
    ensures
        r@ == ssh_error_text(error),
{
    match &error {
        AppError::HostKey { host, port, key, changed } => {
            let qh = json_quote(host.as_str());
            let qk = json_quote(key.as_str());
            host_key_error_text(qh.as_str(), *port, qk.as_str(), *changed)
        },
        _ => error.message(),
    }
}

/// The text of a failed ad-hoc connection: an authentication failure without
/// a password asks for one; everything else is mapped as usual.
pub fn adhoc_connect_error(error: AppError, has_password: bool) -> (r: String)
    ensures
        !has_password && error is AuthenticationFailed ==> r@ == PASSWORD_REQUIRED@,
        !(!has_password && error is AuthenticationFailed) ==> r@ == ssh_error_text(error),
{
    if !has_password && matches!(error, AppError::AuthenticationFailed) {
        String::from_str(PASSWORD_REQUIRED)
    } else {
        map_ssh_error(error)
    }
}

/// The fields that a host-key payload holds: `host`, `port` (as an unsigned
/// integer), `key`, and whether a `changed` field is there and what boolean
/// it holds.
pub struct HostKeyFields {
    pub host: Option<String>,
    pub port: Option<u64>,
    pub key: Option<String>,
    pub changed: Option<Option<bool>>,
}

/// What `serde_json::from_str::<Value>` followed by reading the fields gives
/// for `payload`: `None` when it is not JSON; otherwise, per field, its value
/// when it is present with the expected type (`changed`: present, and its
/// boolean if it is one).
pub uninterp spec fn json_host_key_fields(payload: Seq<char>) -> Option<
    (Option<Seq<char>>, Option<u64>, Option<Seq<char>>, Option<Option<bool>>),
>;

pub open spec fn opt_text(o: Option<String>) -> Option<Seq<char>> {
    match o {
        Some(s) => Some(s@),
        None => None,
    }
}

/// Parse `payload` as JSON and read the host-key fields from it. Reading
/// back an object that `serde_json` wrote from texts gives those texts.
#[verifier::external_body]
fn read_host_key_fields(payload: &str) -> (r: Option<HostKeyFields>)
    ensures
        match json_host_key_fields(payload@) {
            None => r is None,
            Some((h, p, k, c)) => r matches Some(f) && opt_text(f.host) == h && f.port == p
                && opt_text(f.key) == k && f.changed == c,
        },
        r is Some || !exists|h: Seq<char>, p: u16, k: Seq<char>, c: bool|
            payload@ == #[trigger] host_key_payload(h, p, k, c),
        r matches Some(f) ==> forall|h: Seq<char>, p: u16, k: Seq<char>, c: bool|
            payload@ == #[trigger] host_key_payload(h, p, k, c) ==> opt_text(f.host) == Some(h)
                && f.port == Some(p as u64) && opt_text(f.key) == Some(k) && f.changed == Some(
                Some(c),
            ),
{
    let value: serde_json::Value = serde_json::from_str(payload).ok()?;
    Some(
        HostKeyFields {
            host: value.get("host").and_then(|v| v.as_str()).map(|s| s.to_string()),
            port: value.get("port").and_then(|v| v.as_u64()),
            key: value.get("key").and_then(|v| v.as_str()).map(|s| s.to_string()),
            changed: value.get("changed").map(|v| v.as_bool()),
        },
    )
}

/// A pending host-key decision surfaced from a connection failure.
#[derive(Debug)]
pub struct HostKeyRequest {
    pub host: String,
    pub port: u16,
    /// The key (fingerprint) to display.
    pub key: String,
    pub changed: bool,
}

/// The request that a host-key payload describes.
pub open spec fn request_from_payload(payload: Seq<char>) -> Option<
    (Seq<char>, u16, Seq<char>, bool),
> {
    match json_host_key_fields(payload) {
        Some((h, p, k, c)) => request_from_field_values(h, p, k, c),
        None => None,
    }
}

/// The host-key request an error text carries, if it is one.
pub open spec fn request_from_error(error: Seq<char>) -> Option<(Seq<char>, u16, Seq<char>, bool)> {
    let n = HOST_KEY_PREFIX@.len();
    if error.len() >= n && error.take(n as int) == HOST_KEY_PREFIX@ {
        request_from_payload(error.skip(n as int))
    } else {
        None
    }
}

impl HostKeyRequest {
    /// Parse a `sshcli:host-key:` + JSON error text into a request, if it is one.
    pub fn from_error(error: &str) -> (r: Option<HostKeyRequest>)
        ensures
            match request_from_error(error@) {
                None => r is None,
                Some((h, p, k, c)) => r matches Some(q) && q.host@ == h && q.port == p && q.key@
                    == k && q.changed == c,
            },
            forall|h: Seq<char>, p: u16, k: Seq<char>, c: bool|
                error@ == HOST_KEY_PREFIX@ + #[trigger] host_key_payload(h, p, k, c) ==> (r matches Some(
                    q,
                ) && q.host@ == h && q.port == p && q.key@ == k && q.changed == c),
    {
        let v = chars_of(error);
        let prefix = chars_of(HOST_KEY_PREFIX);
        let n = prefix.len();
        if v.len() < n {
            assert forall|h: Seq<char>, p: u16, k: Seq<char>, c: bool|
                error@ != HOST_KEY_PREFIX@ + #[trigger] host_key_payload(h, p, k, c) by {}
            return None;
        }
        let mut i: usize = 0;
        while i < n
            invariant
                n == prefix.len() <= v.len(),
                prefix@ == HOST_KEY_PREFIX@,
                v@ == error@,
                0 <= i <= n,
                forall|j: int| 0 <= j < i ==> v@[j] == prefix@[j],
            decreases n - i,
        {
            if v[i] != prefix[i] {
                assert(error@.take(n as int)[i as int] != HOST_KEY_PREFIX@[i as int]);
                assert forall|h: Seq<char>, p: u16, k: Seq<char>, c: bool|
                    error@ != HOST_KEY_PREFIX@ + #[trigger] host_key_payload(h, p, k, c) by {
                    if error@ == HOST_KEY_PREFIX@ + host_key_payload(h, p, k, c) {
                        assert(error@[i as int] == HOST_KEY_PREFIX@[i as int]);
                    }
                }
                return None;
            }
            i += 1;
        }
        assert(error@.take(n as int) =~= HOST_KEY_PREFIX@);
        let payload = string_of_range(&v, n, v.len());
        assert(payload@ =~= error@.skip(n as int));
        let fields = read_host_key_fields(payload.as_str());
        proof {
            assert forall|h: Seq<char>, p: u16, k: Seq<char>, c: bool|
                error@ == HOST_KEY_PREFIX@ + #[trigger] host_key_payload(h, p, k, c) implies payload@
                == host_key_payload(h, p, k, c) by {
                assert((HOST_KEY_PREFIX@ + host_key_payload(h, p, k, c)).skip(n as int)
                    =~= host_key_payload(h, p, k, c));
            }
        }
        match fields {
            Some(f) => request_from_fields(f),
            None => None,
        }
    }
}

/// The request that the fields of a parsed payload describe.
pub open spec fn request_from_field_values(
    h: Option<Seq<char>>,
    p: Option<u64>,
    k: Option<Seq<char>>,
    c: Option<Option<bool>>,
) -> Option<(Seq<char>, u16, Seq<char>, bool)> {
    match (h, p, k, c) {
        (Some(h), Some(p), Some(k), Some(c)) => Some(
            (
                h,
                p as u16,
                k,
                match c {
                    Some(b) => b,
                    None => false,
                },
            ),
        ),
        _ => None,
    }
}

/// The request that the fields of a parsed host-key payload describe: all of
/// `host`, `port`, `key` and `changed` must be present; `port` keeps its low
/// 16 bits and a non-boolean `changed` reads as `false`.
pub fn request_from_fields(fields: HostKeyFields) -> (r: Option<HostKeyRequest>)
    ensures
        match request_from_field_values(
            opt_text(fields.host),
            fields.port,
            opt_text(fields.key),
            fields.changed,
        ) {
            None => r is None,
            Some((h, p, k, c)) => r matches Some(q) && q.host@ == h && q.port == p && q.key@ == k
                && q.changed == c,
        },
{
    match (fields.host, fields.port, fields.key, fields.changed) {
        (Some(host), Some(port), Some(key), Some(changed)) => Some(
            HostKeyRequest {
                host,
                port: port as u16,
                key,
                changed: match changed {
                    Some(b) => b,
                    None => false,
                },
            },
        ),
        _ => None,
    }
}

/// The user's decision on a shown host-key dialog.
#[derive(Debug, Clone, Copy, PartialEq, Eq, Structural)]
pub enum HostKeyDecision {
    /// Trust and retry (unknown) / trust despite the change (changed).
    Trust,
    /// Dismiss without trusting.
    Cancel,
    /// The dialog is still open.
    Pending,
}

} // verus!
