//! The table of live remote sessions: each one is registered under a fresh
//! numbered identifier, looked up by it for writes and resizes, and dropped
//! when it closes.

use vstd::prelude::*;
use vstd::string::*;

use crate::session_events::numbered_id;
use crate::text::{decimal, is_ascii_digit, lemma_decimal_all_digits, push_decimal, push_str, text_eq};

verus! {

/// The prefix of the error for an identifier that names no live session.
pub const UNKNOWN_SESSION: &'static str = "unknown session: ";

/// The error reported for an identifier that names no live session.
pub open spec fn unknown_session_message(id: Seq<char>) -> Seq<char> {
    UNKNOWN_SESSION@ + id
}

/// Live sessions by identifier, and how many have been opened so far.
pub struct SessionManager<T> {
    entries: Vec<(String, T)>,
    next_id: u64,
    table: Ghost<Map<Seq<char>, T>>,
}

impl<T> SessionManager<T> {
    /// The live sessions, by identifier.
    pub closed spec fn view(&self) -> Map<Seq<char>, T> {
        self.table@
    }

    /// How many sessions have been registered so far.
    pub closed spec fn opened(&self) -> nat {
        self.next_id as nat
    }

    /// The internal list agrees with the table, holds each identifier once,
    /// and every identifier is the numbered name of a session already opened.
    pub closed spec fn wf(&self) -> bool {
        &&& forall|i: int|
            0 <= i < self.entries@.len() ==> #[trigger] self.table@.contains_key(
                self.entries@[i].0@,
            ) && self.table@[self.entries@[i].0@] == self.entries@[i].1
        &&& forall|k: Seq<char>|
            #[trigger] self.table@.contains_key(k) ==> exists|i: int|
                0 <= i < self.entries@.len() && #[trigger] self.entries@[i].0@ == k
        &&& forall|i: int, j: int|
            0 <= i < j < self.entries@.len() ==> self.entries@[i].0@ != self.entries@[j].0@
        &&& forall|k: Seq<char>|
            #[trigger] self.table@.contains_key(k) ==> exists|p: Seq<char>, n: nat|
                1 <= n <= self.next_id && k == #[trigger] numbered_id(p, n)
    }

    /// A table with no sessions that has numbered none yet.
    pub fn new() -> (m: Self)
        ensures
            m.wf(),
            m@ == Map::<Seq<char>, T>::empty(),
            m.opened() == 0,
    {
        SessionManager { entries: Vec::new(), next_id: 0, table: Ghost(Map::empty()) }
    }

    /// The position of `id` in the internal list, if it is there.
    fn position(&self, id: &str) -> (r: Option<usize>)
        requires
            self.wf(),
        ensures
            match r {
                Some(i) => i < self.entries@.len() && self.entries@[i as int].0@ == id@,
                None => !self@.contains_key(id@),
            },
    {
        let mut i: usize = 0;
        while i < self.entries.len()
            invariant
                i <= self.entries@.len(),
                forall|j: int| 0 <= j < i ==> self.entries@[j].0@ != id@,
            decreases self.entries@.len() - i,
        {
            if text_eq(self.entries[i].0.as_str(), id) {
                return Some(i);
            }
            i = i + 1;
        }
        None
    }

    /// Counts one more session, names it `<display>-<n>` and stores `value`
    /// under that name. The name was not in use.
    pub fn register(&mut self, display: &str, value: T) -> (id: String)
        requires
            old(self).wf(),
            old(self).opened() < u64::MAX,
        ensures
            final(self).wf(),
            final(self).opened() == old(self).opened() + 1,
            id@ == numbered_id(display@, final(self).opened()),
            !old(self)@.contains_key(id@),
            final(self)@ == old(self)@.insert(id@, value),
    {
        let ghost old_table = self.table@;
        let ghost old_entries = self.entries@;
        let ghost old_next = self.next_id as nat;
        self.next_id = self.next_id + 1;
        let mut id = display.to_owned();
        push_str(&mut id, "-");
        push_decimal(&mut id, self.next_id);
        proof {
            reveal_strlit("-");
            assert(id@ == numbered_id(display@, self.next_id as nat));
            if old_table.contains_key(id@) {
                let (p, n) = choose|p: Seq<char>, n: nat|
                    1 <= n <= old_next && id@ == #[trigger] numbered_id(p, n);
                lemma_numbered_ids_never_collide(p, display@, n, self.next_id as nat);
            }
        }
        let ghost key = id@;
        self.entries.push((id.clone(), value));
        proof {
            self.table@ = old_table.insert(key, value);
            assert forall|k: Seq<char>| #[trigger] self.table@.contains_key(k) implies exists|
                p: Seq<char>,
                n: nat,
            | 1 <= n <= self.next_id && k == #[trigger] numbered_id(p, n) by {
                if k == key {
                    assert(k == numbered_id(display@, self.next_id as nat));
                } else {
                    assert(old_table.contains_key(k));
                }
            }
            assert forall|k: Seq<char>| #[trigger] self.table@.contains_key(k) implies exists|i: int|
                0 <= i < self.entries@.len() && #[trigger] self.entries@[i].0@ == k by {
                if k == key {
                    assert(self.entries@[self.entries@.len() - 1].0@ == k);
                } else {
                    assert(old_table.contains_key(k));
                    let i = choose|i: int|
                        0 <= i < old_entries.len() && #[trigger] old_entries[i].0@ == k;
                    assert(self.entries@[i] == old_entries[i]);
                }
            }
            assert forall|i: int| 0 <= i < self.entries@.len() implies #[trigger] self.table@.contains_key(
                self.entries@[i].0@,
            ) && self.table@[self.entries@[i].0@] == self.entries@[i].1 by {
                if i < self.entries@.len() - 1 {
                    assert(old_table.contains_key(self.entries@[i].0@));
                }
            }
        }
        id
    }

    /// The session stored under `id`, or the error naming the unknown
    /// identifier.
    pub fn lookup(&self, id: &str) -> (r: Result<&T, String>)
        requires
            self.wf(),
        ensures
            match r {
                Ok(v) => self@.contains_key(id@) && *v == self@[id@],
                Err(message) => !self@.contains_key(id@) && message@ == unknown_session_message(
                    id@,
                ),
            },
    {
        match self.position(id) {
            Some(i) => {
                proof {
                    assert(self.table@.contains_key(self.entries@[i as int].0@));
                }
                Ok(&self.entries[i].1)
            },
            None => {
                let mut message = String::from_str(UNKNOWN_SESSION);
                push_str(&mut message, id);
                Err(message)
            },
        }
    }

    /// Drops the session stored under `id` and hands it back; nothing
    /// happens when `id` names no live session.
    pub fn close(&mut self, id: &str) -> (r: Option<T>)
        requires
            old(self).wf(),
        ensures
            final(self).wf(),
            final(self).opened() == old(self).opened(),
            final(self)@ == old(self)@.remove(id@),
            match r {
                Some(v) => old(self)@.contains_key(id@) && v == old(self)@[id@],
                None => !old(self)@.contains_key(id@),
            },
    {
        match self.position(id) {
            None => {
                proof {
                    assert(self.table@.remove(id@) =~= self.table@);
                }
                None
            },
            Some(i) => {
                let ghost old_table = self.table@;
                let ghost old_entries = self.entries@;
                let (_, value) = self.entries.remove(i);
                proof {
                    assert(old_table.contains_key(old_entries[i as int].0@));
                    assert(value == old_entries[i as int].1);
                    self.table@ = old_table.remove(id@);
                    assert forall|j: int| 0 <= j < self.entries@.len() implies #[trigger] self.table@.contains_key(
                        self.entries@[j].0@,
                    ) && self.table@[self.entries@[j].0@] == self.entries@[j].1 by {
                        if j < i {
                            assert(self.entries@[j] == old_entries[j]);
                            assert(old_table.contains_key(old_entries[j].0@));
                        } else {
                            assert(self.entries@[j] == old_entries[j + 1]);
                            assert(old_table.contains_key(old_entries[j + 1].0@));
                        }
                    }
                    assert forall|k: Seq<char>| #[trigger] self.table@.contains_key(k) implies exists|
                        j: int,
                    | 0 <= j < self.entries@.len() && #[trigger] self.entries@[j].0@ == k by {
                        assert(old_table.contains_key(k));
                        let j = choose|j: int|
                            0 <= j < old_entries.len() && #[trigger] old_entries[j].0@ == k;
                        assert(j != i);
                        if j < i {
                            assert(self.entries@[j] == old_entries[j]);
                        } else {
                            assert(self.entries@[j - 1] == old_entries[j]);
                        }
                    }
                    assert forall|a: int, b: int| 0 <= a < b < self.entries@.len() implies self.entries@[a].0@
                        != self.entries@[b].0@ by {
                        let a0 = if a < i { a } else { a + 1 };
                        let b0 = if b < i { b } else { b + 1 };
                        assert(self.entries@[a] == old_entries[a0]);
                        assert(self.entries@[b] == old_entries[b0]);
                    }
                    assert forall|k: Seq<char>| #[trigger] self.table@.contains_key(k) implies exists|
                        p: Seq<char>,
                        n: nat,
                    | 1 <= n <= self.next_id && k == #[trigger] numbered_id(p, n) by {
                        assert(old_table.contains_key(k));
                    }
                }
                Some(value)
            },
        }
    }

    /// The identifiers of the live sessions.
    pub fn ids(&self) -> (r: Vec<String>)
        requires
            self.wf(),
        ensures
            r@.len() == self@.len(),
            forall|i: int| 0 <= i < r@.len() ==> self@.contains_key(#[trigger] r@[i]@),
            forall|k: Seq<char>|
                #[trigger] self@.contains_key(k) ==> exists|i: int| 0 <= i < r@.len() && r@[i]@ == k,
    {
        let mut r: Vec<String> = Vec::new();
        let mut i: usize = 0;
        while i < self.entries.len()
            invariant
                self.wf(),
                i <= self.entries@.len(),
                r@.len() == i,
                forall|j: int| 0 <= j < i ==> #[trigger] r@[j]@ == self.entries@[j].0@,
            decreases self.entries@.len() - i,
        {
            r.push(self.entries[i].0.clone());
            i = i + 1;
        }
        proof {
            lemma_distinct_keys_len(self);
            assert forall|k: Seq<char>| #[trigger] self@.contains_key(k) implies exists|i: int|
                0 <= i < r@.len() && r@[i]@ == k by {
                let j = choose|j: int|
                    0 <= j < self.entries@.len() && #[trigger] self.entries@[j].0@ == k;
                assert(r@[j]@ == k);
            }
            assert forall|j: int| 0 <= j < r@.len() implies self@.contains_key(#[trigger] r@[j]@) by {
                assert(r@[j]@ == self.entries@[j].0@);
            }
        }
        r
    }
}

/// A registered session is found under its identifier until it is closed;
/// closing it makes its identifier unknown and leaves every other session
/// as it was.
pub proof fn lemma_found_until_closed<T>(
    live: Map<Seq<char>, T>,
    id: Seq<char>,
    value: T,
    other: Seq<char>,
)
    requires
        other != id,
    ensures
        live.insert(id, value).contains_key(id),
        live.insert(id, value)[id] == value,
        !live.insert(id, value).remove(id).contains_key(id),
        live.insert(id, value).remove(id).contains_key(other) == live.contains_key(other),
        live.contains_key(other) ==> live.insert(id, value).remove(id)[other] == live[other],
{
}

/// Two sessions numbered by one counter never share an identifier,
/// whatever their display names: the number after the last `-` differs.
pub proof fn lemma_numbered_ids_never_collide(p: Seq<char>, q: Seq<char>, m: nat, n: nat)
    requires
        m != n,
    ensures
        numbered_id(p, m) != numbered_id(q, n),
{
    reveal_strlit("-");
    let a = numbered_id(p, m);
    let b = numbered_id(q, n);
    let dm = decimal(m);
    let dn = decimal(n);
    if a == b {
        lemma_decimal_all_digits(m);
        lemma_decimal_all_digits(n);
        if dm.len() == dn.len() {
            assert(dm =~= a.subrange(a.len() - dm.len(), a.len() as int));
            assert(dn =~= b.subrange(b.len() - dn.len(), b.len() as int));
            crate::text::lemma_decimal_injective(m, n);
        } else if dm.len() < dn.len() {
            let k = a.len() - dm.len() - 1;
            assert(a[k] == '-');
            assert(b[k] == dn[k - (q.len() + 1)]);
            assert(is_ascii_digit(dn[k - (q.len() + 1)]));
        } else {
            let k = b.len() - dn.len() - 1;
            assert(b[k] == '-');
            assert(a[k] == dm[k - (p.len() + 1)]);
            assert(is_ascii_digit(dm[k - (p.len() + 1)]));
        }
    }
}

/// The table holds as many sessions as the internal list has entries.
proof fn lemma_distinct_keys_len<T>(m: &SessionManager<T>)
    requires
        m.wf(),
    ensures
        m@.len() == m.entries@.len(),
    decreases m.entries@.len(),
{
    let keys = m.entries@.map_values(|e: (String, T)| e.0@);
    assert(keys.no_duplicates()) by {
        assert forall|i: int, j: int| 0 <= i < keys.len() && 0 <= j < keys.len() && i != j implies keys[i]
            != keys[j] by {
            if i < j {
            } else {
            }
        }
    }
    assert(keys.to_set() =~= m@.dom()) by {
        assert forall|k: Seq<char>| keys.to_set().contains(k) implies m@.dom().contains(k) by {
            let i = choose|i: int| 0 <= i < keys.len() && keys[i] == k;
            assert(m.entries@[i].0@ == k);
        }
        assert forall|k: Seq<char>| m@.dom().contains(k) implies keys.to_set().contains(k) by {
            assert(m@.contains_key(k));
            let i = choose|i: int| 0 <= i < m.entries@.len() && #[trigger] m.entries@[i].0@ == k;
            assert(keys[i] == k);
        }
    }
    keys.unique_seq_to_set();
}

} // verus!
