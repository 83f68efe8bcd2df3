//! Known host keys: how a presented server key compares with the stored one,
//! and how trusting a key updates the store.

use vstd::prelude::*;

use crate::text::text_eq;

verus! {

/// How a presented host key compares with the known hosts.
#[derive(Debug, Clone, Copy, PartialEq, Eq, Structural)]
pub enum HostKeyStatus {
    /// The host is known with exactly this key.
    Known,
    /// The host (with this port) is not known.
    Unknown,
    /// The host is known with a different key.
    Changed,
}

/// One known host: the host name, the port and the key text.
#[derive(Debug)]
pub struct HostKeyEntry {
    pub host: String,
    pub port: u16,
    pub key: String,
}

/// The value of a known-host entry.
pub struct HostKeyEntryView {
    pub host: Seq<char>,
    pub port: u16,
    pub key: Seq<char>,
}

impl View for HostKeyEntry {
    type V = HostKeyEntryView;

    open spec fn view(&self) -> HostKeyEntryView {
        HostKeyEntryView { host: self.host@, port: self.port, key: self.key@ }
    }
}

/// The values of a list of known-host entries.
pub open spec fn entries_view(v: Seq<HostKeyEntry>) -> Seq<HostKeyEntryView> {
    v.map_values(|e: HostKeyEntry| e@)
}

/// `i` is the first entry for `host` and `port`.
pub open spec fn is_first_entry(es: Seq<HostKeyEntryView>, host: Seq<char>, port: u16, i: int) -> bool {
    &&& 0 <= i < es.len()
    &&& es[i].host == host && es[i].port == port
    &&& forall|j: int| 0 <= j < i ==> !(es[j].host == host && es[j].port == port)
}

/// Whether some entry is for `host` and `port`.
pub open spec fn has_entry(es: Seq<HostKeyEntryView>, host: Seq<char>, port: u16) -> bool {
    exists|i: int| 0 <= i < es.len() && es[i].host == host && es[i].port == port
}

/// The status of `key` for `host` and `port`, judged by the first entry for
/// that host and port.
pub open spec fn host_key_status(
    es: Seq<HostKeyEntryView>,
    host: Seq<char>,
    port: u16,
    key: Seq<char>,
) -> HostKeyStatus {
    if has_entry(es, host, port) {
        let i = choose|i: int| is_first_entry(es, host, port, i);
        if es[i].key == key {
            HostKeyStatus::Known
        } else {
            HostKeyStatus::Changed
        }
    } else {
        HostKeyStatus::Unknown
    }
}

/// The entries once `key` is trusted for `host` and `port`: the first entry
/// for them gets the key, or a new entry is appended.
pub open spec fn with_trusted_key(
    es: Seq<HostKeyEntryView>,
    host: Seq<char>,
    port: u16,
    key: Seq<char>,
) -> Seq<HostKeyEntryView> {
    if has_entry(es, host, port) {
        let i = choose|i: int| is_first_entry(es, host, port, i);
        es.update(i, HostKeyEntryView { key: key, ..es[i] })
    } else {
        es.push(HostKeyEntryView { host: host, port: port, key: key })
    }
}

/// An entry for some host and port has a first one.
pub proof fn lemma_first_entry_exists(es: Seq<HostKeyEntryView>, host: Seq<char>, port: u16)
    requires
        has_entry(es, host, port),
    ensures
        exists|i: int| is_first_entry(es, host, port, i),
    decreases es.len(),
{
    if es[0].host == host && es[0].port == port {
        assert(is_first_entry(es, host, port, 0));
    } else {
        let k = choose|k: int| 0 <= k < es.len() && es[k].host == host && es[k].port == port;
        let rest = es.drop_first();
        assert(rest[k - 1] == es[k]);
        lemma_first_entry_exists(rest, host, port);
        let j = choose|j: int| is_first_entry(rest, host, port, j);
        assert(is_first_entry(es, host, port, j + 1)) by {
            assert forall|m: int| 0 <= m < j + 1 implies !(es[m].host == host && es[m].port
                == port) by {
                if m > 0 {
                    assert(es[m] == rest[m - 1]);
                }
            }
        }
    }
}

proof fn lemma_first_entry_unique(es: Seq<HostKeyEntryView>, host: Seq<char>, port: u16, i: int)
    requires
        is_first_entry(es, host, port, i),
    ensures
        has_entry(es, host, port),
        (choose|k: int| is_first_entry(es, host, port, k)) == i,
{
    let k = choose|k: int| is_first_entry(es, host, port, k);
    assert(k == i) by {
        if k < i {
            assert(!(es[k].host == host && es[k].port == port));
        }
        if i < k {
            assert(!(es[i].host == host && es[i].port == port));
        }
    }
}

/// The first entry for `host` and `port`.
fn position_entry(entries: &Vec<HostKeyEntry>, host: &str, port: u16) -> (r: Option<usize>)
    ensures
        match r {
            Some(i) => is_first_entry(entries_view(entries@), host@, port, i as int),
            None => !has_entry(entries_view(entries@), host@, port),
        },
{
    let ghost es = entries_view(entries@);
    let mut i: usize = 0;
    while i < entries.len()
        invariant
            0 <= i <= entries.len(),
            es == entries_view(entries@),
            forall|j: int| 0 <= j < i ==> !(es[j].host == host@ && es[j].port == port),
        decreases entries.len() - i,
    {
        if entries[i].port == port && text_eq(entries[i].host.as_str(), host) {
            return Some(i);
        }
        i += 1;
    }
    assert(!has_entry(es, host@, port)) by {
        if has_entry(es, host@, port) {
            let k = choose|k: int|
                0 <= k < es.len() && es[k].host == host@ && es[k].port == port;
            assert(!(es[k].host == host@ && es[k].port == port));
        }
    }
    None
}

/// Compare a presented key with the known hosts.
pub fn host_key_status_of(entries: &Vec<HostKeyEntry>, host: &str, port: u16, key: &str) -> (r:
    HostKeyStatus)
    ensures
        r == host_key_status(entries_view(entries@), host@, port, key@),
{
    match position_entry(entries, host, port) {
        Some(i) => {
            proof {
                lemma_first_entry_unique(entries_view(entries@), host@, port, i as int);
            }
            if text_eq(entries[i].key.as_str(), key) {
                HostKeyStatus::Known
            } else {
                HostKeyStatus::Changed
            }
        },
        None => HostKeyStatus::Unknown,
    }
}

/// Trust `key` for `host` and `port`: replace the key of the first entry for
/// them, or append a new entry.
pub fn trust_host_key(entries: &mut Vec<HostKeyEntry>, host: &str, port: u16, key: &str)
    ensures
        entries_view(final(entries)@) == with_trusted_key(
            entries_view(old(entries)@),
            host@,
            port,
            key@,
        ),
{
    let ghost before = entries_view(entries@);
    match position_entry(entries, host, port) {
        Some(i) => {
            proof {
                lemma_first_entry_unique(before, host@, port, i as int);
            }
            let mut e = entries.remove(i);
            e.key = String::from_str(key);
            entries.insert(i, e);
            assert(entries_view(entries@) =~= before.update(
                i as int,
                HostKeyEntryView { key: key@, ..before[i as int] },
            ));
        },
        None => {
            entries.push(
                HostKeyEntry {
                    host: String::from_str(host),
                    port: port,
                    key: String::from_str(key),
                },
            );
            assert(entries_view(entries@) =~= before.push(
                HostKeyEntryView { host: host@, port: port, key: key@ },
            ));
        },
    }
}

/// Once a key is trusted for a host and port, that key is known there.
pub proof fn lemma_trusted_key_is_known(
    es: Seq<HostKeyEntryView>,
    host: Seq<char>,
    port: u16,
    key: Seq<char>,
)
    ensures
        host_key_status(with_trusted_key(es, host, port, key), host, port, key)
            == HostKeyStatus::Known,
{
    let after = with_trusted_key(es, host, port, key);
    if has_entry(es, host, port) {
        lemma_first_entry_exists(es, host, port);
        let i = choose|i: int| is_first_entry(es, host, port, i);
        assert(is_first_entry(after, host, port, i));
        lemma_first_entry_unique(after, host, port, i);
    } else {
        let n = es.len() as int;
        assert(is_first_entry(after, host, port, n)) by {
            assert forall|j: int| 0 <= j < n implies !(after[j].host == host && after[j].port
                == port) by {
                assert(after[j] == es[j]);
                if es[j].host == host && es[j].port == port {
                    assert(has_entry(es, host, port));
                }
            }
        }
        lemma_first_entry_unique(after, host, port, n);
    }
}

/// Trusting a key for one host and port leaves the status of every other
/// host and port as it was.
pub proof fn lemma_trust_keeps_other_hosts(
    es: Seq<HostKeyEntryView>,
    host: Seq<char>,
    port: u16,
    key: Seq<char>,
    other_host: Seq<char>,
    other_port: u16,
    other_key: Seq<char>,
)
    requires
        !(other_host == host && other_port == port),
    ensures
        host_key_status(with_trusted_key(es, host, port, key), other_host, other_port, other_key)
            == host_key_status(es, other_host, other_port, other_key),
{
    let after = with_trusted_key(es, host, port, key);
    if has_entry(es, host, port) {
        lemma_first_entry_exists(es, host, port);
        let t = choose|t: int| is_first_entry(es, host, port, t);
        assert(after == es.update(t, HostKeyEntryView { key: key, ..es[t] }));
    } else {
        assert(after == es.push(HostKeyEntryView { host: host, port: port, key: key }));
    }
    assert(after.len() >= es.len());
    assert forall|j: int| 0 <= j < es.len() implies after[j].host == es[j].host && after[j].port
        == es[j].port by {}
    assert forall|j: int| es.len() <= j < after.len() implies !(after[j].host == other_host
        && after[j].port == other_port) by {}
    if has_entry(es, other_host, other_port) {
        lemma_first_entry_exists(es, other_host, other_port);
        let i = choose|i: int| is_first_entry(es, other_host, other_port, i);
        assert(after[i] == es[i]);
        assert(is_first_entry(after, other_host, other_port, i));
        lemma_first_entry_unique(after, other_host, other_port, i);
    } else {
        assert(!has_entry(after, other_host, other_port)) by {
            if has_entry(after, other_host, other_port) {
                let k = choose|k: int|
                    0 <= k < after.len() && after[k].host == other_host && after[k].port
                        == other_port;
                if k < es.len() {
                    assert(es[k].host == other_host && es[k].port == other_port);
                }
            }
        }
    }
}

} // verus!

verus! {

/// What the client does with a server key during the handshake.
#[derive(Debug, Clone, Copy, PartialEq, Eq, Structural)]
pub enum ServerKeyDecision {
    /// The key is known: go on.
    Accept,
    /// The key is new and unknown keys are accepted: trust it and go on.
    TrustAndAccept,
    /// Stop, and ask the user (`changed` when the host had another key).
    Reject { changed: bool },
}

/// The decision for a server key with this status: a known key is
/// accepted, an unknown one is trusted only when unknown keys are accepted,
/// and a changed one is always refused.
pub fn server_key_decision(status: HostKeyStatus, accept_unknown_host_key: bool) -> (d: ServerKeyDecision)
    ensures
        d == match status {
            HostKeyStatus::Known => ServerKeyDecision::Accept,
            HostKeyStatus::Unknown => if accept_unknown_host_key {
                ServerKeyDecision::TrustAndAccept
            } else {
                ServerKeyDecision::Reject { changed: false }
            },
            HostKeyStatus::Changed => ServerKeyDecision::Reject { changed: true },
        },
{
    match status {
        HostKeyStatus::Known => ServerKeyDecision::Accept,
        HostKeyStatus::Unknown => if accept_unknown_host_key {
            ServerKeyDecision::TrustAndAccept
        } else {
            ServerKeyDecision::Reject { changed: false }
        },
        HostKeyStatus::Changed => ServerKeyDecision::Reject { changed: true },
    }
}

} // verus!
