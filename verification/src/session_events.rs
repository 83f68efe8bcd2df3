//! The events a session sends to the user interface: terminal data as
//! base64 text, status changes, and the identifiers of live sessions.

use vstd::prelude::*;
use vstd::string::*;

use crate::text::{decimal, push_decimal, push_str};

verus! {

#[verifier::external_type_specification]
#[verifier::external_body]
pub struct ExJsonValue(serde_json::Value);

/// Sink for application events (`ssh-data`, `ssh-status`, ...). A front end
/// implements it to deliver each event name and JSON payload in its own way.
pub trait EventEmitter {
    /// Emits `event` carrying `payload`.
    fn emit(&self, event: &str, payload: serde_json::Value);
}

/// An emitter that drops every event.
#[derive(Debug, Default, Clone, Copy)]
pub struct NullEmitter;

impl EventEmitter for NullEmitter {
    fn emit(&self, event: &str, payload: serde_json::Value) {
    }
}

/// What `base64::engine::general_purpose::STANDARD.encode` gives for a byte
/// string (the standard alphabet, with `=` padding).
pub uninterp spec fn base64_standard(bytes: Seq<u8>) -> Seq<char>;

/// What `base64::engine::general_purpose::STANDARD.decode` gives for a text:
/// the bytes, or `None` when the text is not valid padded base64.
pub uninterp spec fn base64_standard_decoded(text: Seq<char>) -> Option<Seq<u8>>;

/// `STANDARD.encode(bytes)`. It panics only when the encoded length
/// overflows `usize`, which `requires` rules out.
#[verifier::external_body]
fn encode_base64(bytes: &[u8]) -> (r: String)
    requires
        bytes@.len() <= isize::MAX,
    ensures
        r@ == base64_standard(bytes@),
{
    base64::Engine::encode(&base64::engine::general_purpose::STANDARD, bytes)
}

/// `STANDARD.decode(text)`, its error as its `Display` text (which is not
/// stated).
#[verifier::external_body]
fn decode_base64(text: &str) -> (r: Result<Vec<u8>, String>)
    ensures
        match r {
            Ok(v) => base64_standard_decoded(text@) == Some(v@),
            Err(_) => base64_standard_decoded(text@) is None,
        },
{
    base64::Engine::decode(&base64::engine::general_purpose::STANDARD, text).map_err(
        |error| error.to_string(),
    )
}

/// Terminal output of one session, base64-encoded (`ssh-data`).
#[derive(Debug, Clone)]
pub struct DataPayload {
    pub id: String,
    pub data: String,
}

/// A status change of one session (`ssh-status`).
#[derive(Debug, Clone)]
pub struct StatusPayload {
    pub id: String,
    pub profile: String,
    pub status: String,
    pub message: String,
}

/// The name of the terminal data event.
pub const DATA_EVENT: &'static str = "ssh-data";

/// The name of the status event.
pub const STATUS_EVENT: &'static str = "ssh-status";

/// The data event of session `id` carrying `bytes`.
pub fn data_payload(id: &str, bytes: &[u8]) -> (p: DataPayload)
    requires
        bytes@.len() <= isize::MAX,
    ensures
        p.id@ == id@,
        p.data@ == base64_standard(bytes@),
{
    DataPayload { id: id.to_owned(), data: encode_base64(bytes) }
}

/// The bytes a base64 write request carries, or the decoder's message.
pub fn write_payload_bytes(data: &str) -> (r: Result<Vec<u8>, String>)
    ensures
        match r {
            Ok(v) => base64_standard_decoded(data@) == Some(v@),
            Err(_) => base64_standard_decoded(data@) is None,
        },
{
    decode_base64(data)
}

fn status_of(id: &str, profile: &str, state: &str, message: &str) -> (p: StatusPayload)
    ensures
        p.id@ == id@,
        p.profile@ == profile@,
        p.status@ == state@,
        p.message@ == message@,
{
    StatusPayload {
        id: id.to_owned(),
        profile: profile.to_owned(),
        status: state.to_owned(),
        message: message.to_owned(),
    }
}

/// The status sent once a remote session is registered.
pub fn connected_status(id: &str, profile: &str) -> (p: StatusPayload)
    ensures
        p.id@ == id@,
        p.profile@ == profile@,
        p.status@ == "connected"@,
        p.message@ == "connected"@,
{
    status_of(id, profile, "connected", "connected")
}

/// The status sent when a remote session's channel ends.
pub fn remote_closed_status(id: &str, profile: &str) -> (p: StatusPayload)
    ensures
        p.id@ == id@,
        p.profile@ == profile@,
        p.status@ == "closed"@,
        p.message@ == "connection closed"@,
{
    status_of(id, profile, "closed", "connection closed")
}

/// The status sent when a local shell exits.
pub fn local_closed_status(id: &str, profile: &str) -> (p: StatusPayload)
    ensures
        p.id@ == id@,
        p.profile@ == profile@,
        p.status@ == "closed"@,
        p.message@ == "shell finalizado"@,
{
    status_of(id, profile, "closed", "shell finalizado")
}

/// The identifier of the `n`-th session: `<prefix>-<n>`.
pub open spec fn numbered_id(prefix: Seq<char>, n: nat) -> Seq<char> {
    prefix + "-"@ + decimal(n)
}

/// Numbers sessions in the order they are opened.
pub struct SessionCounter {
    pub next_id: u64,
}

impl SessionCounter {
    /// A counter that has numbered nothing yet.
    pub fn new() -> (c: SessionCounter)
        ensures
            c.next_id == 0,
    {
        SessionCounter { next_id: 0 }
    }

    /// Counts one more session and names it after `prefix`.
    pub fn next(&mut self, prefix: &str) -> (id: String)
        requires
            old(self).next_id < u64::MAX,
        ensures
            final(self).next_id == old(self).next_id + 1,
            id@ == numbered_id(prefix@, final(self).next_id as nat),
    {
        self.next_id = self.next_id + 1;
        let mut id = prefix.to_owned();
        push_str(&mut id, "-");
        push_decimal(&mut id, self.next_id);
        proof {
            reveal_strlit("-");
        }
        id
    }
}

/// Two sessions numbered by one counter never share an identifier.
pub proof fn lemma_numbered_ids_distinct(prefix: Seq<char>, m: nat, n: nat)
    requires
        m != n,
    ensures
        numbered_id(prefix, m) != numbered_id(prefix, n),
{
    crate::text::lemma_decimal_injective(m, n);
    reveal_strlit("-");
    if numbered_id(prefix, m) == numbered_id(prefix, n) {
        let k = prefix.len() + 1int;
        assert(decimal(m) =~= numbered_id(prefix, m).subrange(k, numbered_id(prefix, m).len() as int));
        assert(decimal(n) =~= numbered_id(prefix, n).subrange(k, numbered_id(prefix, n).len() as int));
    }
}

} // verus!
