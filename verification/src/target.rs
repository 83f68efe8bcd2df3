//! Ad-hoc connection targets: `user@host`, `user@host:port`, `user@[host]:port`.

use vstd::prelude::*;
use vstd::string::*;

use crate::text::{
    chars_of, find_first, find_last, lemma_rsplit_once_at, lemma_split_once_at,
    parse_unsigned, parse_unsigned_range, push_range, rsplit_once, split_once, string_of_range,
    trim_range, trim_ws,
};

verus! {

/// The message for a target that does not have the expected shape.
pub const ADHOC_HINT: &'static str = "formato esperado usuario@host[:puerto]";

/// The message prefix for a port that is not a number in `0..=65535`.
pub const INVALID_PORT_PREFIX: &'static str = "puerto inválido: ";

/// The port used when a target names none.
pub const DEFAULT_SSH_PORT: u16 = 22;

/// The outcome for a host and port once both are known.
pub open spec fn adhoc_host_result(user: Seq<char>, host: Seq<char>, port: nat) -> Result<
    (Seq<char>, Seq<char>, nat),
    Seq<char>,
> {
    if host.len() == 0 {
        Err(ADHOC_HINT@)
    } else {
        Ok((user, host, port))
    }
}

/// The outcome for a port text `p`, read as a `u16`.
pub open spec fn adhoc_port_result(user: Seq<char>, host: Seq<char>, p: Seq<char>) -> Result<
    (Seq<char>, Seq<char>, nat),
    Seq<char>,
> {
    match parse_unsigned(p, 65535) {
        Some(port) => adhoc_host_result(user, host, port),
        None => Err(INVALID_PORT_PREFIX@ + p),
    }
}

/// The outcome for the text inside and after `[`: a bracketed host and an
/// optional `:port`.
pub open spec fn adhoc_bracketed(user: Seq<char>, inner: Seq<char>) -> Result<
    (Seq<char>, Seq<char>, nat),
    Seq<char>,
> {
    match split_once(inner, ']') {
        None => Err(ADHOC_HINT@),
        Some((host, rest)) => if rest.len() == 0 {
            adhoc_host_result(user, host, 22)
        } else if rest[0] != ':' {
            Err(ADHOC_HINT@)
        } else {
            adhoc_port_result(user, host, rest.drop_first())
        },
    }
}

/// The outcome for a plain `host` or `host:port` (split at the last `:`).
pub open spec fn adhoc_plain(user: Seq<char>, hostport: Seq<char>) -> Result<
    (Seq<char>, Seq<char>, nat),
    Seq<char>,
> {
    match rsplit_once(hostport, ':') {
        None => adhoc_host_result(user, hostport, 22),
        Some((host, p)) => adhoc_port_result(user, host, p),
    }
}

/// What an ad-hoc target denotes: the user, the host and the port, or the
/// message of the first rule that it breaks.
pub open spec fn adhoc_target(target: Seq<char>) -> Result<(Seq<char>, Seq<char>, nat), Seq<char>> {
    match split_once(trim_ws(target), '@') {
        None => Err(ADHOC_HINT@),
        Some((user, hostport)) => if user.len() == 0 || hostport.len() == 0 {
            Err(ADHOC_HINT@)
        } else if hostport[0] == '[' {
            adhoc_bracketed(user, hostport.drop_first())
        } else {
            adhoc_plain(user, hostport)
        },
    }
}

/// Whether an exec result stands for a spec outcome.
pub open spec fn matches_outcome(
    r: Result<(String, String, u16), String>,
    o: Result<(Seq<char>, Seq<char>, nat), Seq<char>>,
) -> bool {
    match o {
        Ok((user, host, port)) => r matches Ok((u, h, p)) && u@ == user && h@ == host && p == port,
        Err(msg) => r matches Err(e) && e@ == msg,
    }
}

/// The error message `msg` as a `String`.
fn message(msg: &str) -> (s: String)
    ensures
        s@ == msg@,
{
    String::from_str(msg)
}

fn invalid_port(v: &Vec<char>, lo: usize, hi: usize) -> (s: String)
    requires
        lo <= hi <= v.len(),
    ensures
        s@ == INVALID_PORT_PREFIX@ + v@.subrange(lo as int, hi as int),
{
    let mut s = String::from_str(INVALID_PORT_PREFIX);
    push_range(&mut s, v, lo, hi);
    s
}

fn parse_bracketed(v: &Vec<char>, user: String, inner: usize, hi: usize) -> (r: Result<
    (String, String, u16),
    String,
>)
    requires
        inner <= hi <= v.len(),
    ensures
        matches_outcome(r, adhoc_bracketed(user@, v@.subrange(inner as int, hi as int))),
{
    let ghost s = v@.subrange(inner as int, hi as int);
    let close = match find_first(v, inner, hi, ']') {
        None => {
            return Err(message(ADHOC_HINT));
        },
        Some(j) => j,
    };
    proof {
        lemma_split_once_at(s, ']', close as int);
    }
    let host_end = inner + close;
    let rest = host_end + 1;
    assert(s.take(close as int) =~= v@.subrange(inner as int, host_end as int));
    assert(s.skip(close + 1) =~= v@.subrange(rest as int, hi as int));
    let port: u16 = if rest == hi {
        DEFAULT_SSH_PORT
    } else if v[rest] != ':' {
        assert(v@.subrange(rest as int, hi as int)[0] == v@[rest as int]);
        return Err(message(ADHOC_HINT));
    } else {
        assert(v@.subrange(rest as int, hi as int)[0] == v@[rest as int]);
        assert(v@.subrange(rest as int, hi as int).drop_first() =~= v@.subrange(
            rest + 1,
            hi as int,
        ));
        match parse_unsigned_range(v, rest + 1, hi, 65535) {
            Some(p) => p as u16,
            None => {
                return Err(invalid_port(v, rest + 1, hi));
            },
        }
    };
    if host_end == inner {
        return Err(message(ADHOC_HINT));
    }
    let host_s = string_of_range(v, inner, host_end);
    Ok((user, host_s, port))
}

fn parse_plain(v: &Vec<char>, user: String, hp: usize, hi: usize) -> (r: Result<
    (String, String, u16),
    String,
>)
    requires
        hp <= hi <= v.len(),
    ensures
        matches_outcome(r, adhoc_plain(user@, v@.subrange(hp as int, hi as int))),
{
    let ghost hostport = v@.subrange(hp as int, hi as int);
    let (host_end, port) = match find_last(v, hp, hi, ':') {
        None => (hi, DEFAULT_SSH_PORT),
        Some(j) => {
            proof {
                lemma_rsplit_once_at(hostport, ':', j as int);
            }
            let colon = hp + j;
            assert(hostport.take(j as int) =~= v@.subrange(hp as int, colon as int));
            assert(hostport.skip(j + 1) =~= v@.subrange(colon + 1, hi as int));
            match parse_unsigned_range(v, colon + 1, hi, 65535) {
                Some(p) => (colon, p as u16),
                None => {
                    return Err(invalid_port(v, colon + 1, hi));
                },
            }
        },
    };
    if host_end == hp {
        return Err(message(ADHOC_HINT));
    }
    let host_s = string_of_range(v, hp, host_end);
    Ok((user, host_s, port))
}

/// Parse an ad-hoc connection target of the form `user@host`, `user@host:port`
/// or `user@[host]:port` (the bracket form is for IPv6 literals). The target is
/// trimmed first; the port defaults to 22.
pub fn parse_adhoc_target(target: &str) -> (r: Result<(String, String, u16), String>)
    ensures
        matches_outcome(r, adhoc_target(target@)),
{
    let v = chars_of(target);
    let (lo, hi) = trim_range(&v, 0, v.len());
    let ghost t = v@.subrange(lo as int, hi as int);
    assert(v@.subrange(0, v.len() as int) =~= v@);
    let at = match find_first(&v, lo, hi, '@') {
        None => {
            return Err(message(ADHOC_HINT));
        },
        Some(i) => i,
    };
    proof {
        lemma_split_once_at(t, '@', at as int);
    }
    let user_end = lo + at;
    let hp = user_end + 1;
    let ghost hostport = t.skip(at + 1);
    assert(t.take(at as int) =~= v@.subrange(lo as int, user_end as int));
    assert(hostport =~= v@.subrange(hp as int, hi as int));
    if user_end == lo || hp == hi {
        return Err(message(ADHOC_HINT));
    }
    let user_s = string_of_range(&v, lo, user_end);
    assert(hostport[0] == v@[hp as int]);
    if v[hp] == '[' {
        assert(hostport.drop_first() =~= v@.subrange(hp + 1, hi as int));
        parse_bracketed(&v, user_s, hp + 1, hi)
    } else {
        parse_plain(&v, user_s, hp, hi)
    }
}

} // verus!

verus! {

proof fn lemma_user_split(u: Seq<char>, rest: Seq<char>)
    requires
        u.len() > 0,
        forall|i: int| 0 <= i < u.len() ==> u[i] != '@',
        !crate::text::is_white_space(u[0]),
        rest.len() > 0,
        !crate::text::is_white_space(rest.last()),
    ensures
        trim_ws(u + seq!['@'] + rest) == u + seq!['@'] + rest,
        split_once(u + seq!['@'] + rest, '@') == Some((u, rest)),
{
    let t = u + seq!['@'] + rest;
    let n = u.len() as int;
    assert(t.last() == rest.last());
    crate::text::lemma_trim_keeps(t);
    assert(crate::text::is_first_index(t, '@', n));
    lemma_split_once_at(t, '@', n);
    assert(t.take(n) =~= u);
    assert(t.skip(n + 1) =~= rest);
}

proof fn lemma_port_text(p: nat)
    requires
        p <= 65535,
    ensures
        crate::text::decimal(p).len() > 0,
        forall|i: int|
            0 <= i < crate::text::decimal(p).len() ==> crate::text::is_ascii_digit(
                #[trigger] crate::text::decimal(p)[i],
            ),
        parse_unsigned(crate::text::decimal(p), 65535) == Some(p),
{
    crate::text::lemma_decimal_parses(p, 65535);
}

proof fn lemma_host_port_form(u: Seq<char>, h: Seq<char>, p: nat)
    requires
        u.len() > 0,
        forall|i: int| 0 <= i < u.len() ==> u[i] != '@',
        !crate::text::is_white_space(u[0]),
        h.len() > 0,
        forall|i: int| 0 <= i < h.len() ==> h[i] != ':',
        h[0] != '[',
        p <= 65535,
    ensures
        adhoc_target(u + seq!['@'] + h + seq![':'] + crate::text::decimal(p)) == Ok::<(Seq<char>, Seq<char>, nat), Seq<char>>((u, h, p)),
{
    let d = crate::text::decimal(p);
    lemma_port_text(p);
    let rest = h + seq![':'] + d;
    assert(crate::text::is_ascii_digit(d.last()));
    assert(rest.last() == d.last());
    lemma_user_split(u, rest);
    assert(u + seq!['@'] + h + seq![':'] + d =~= u + seq!['@'] + rest);
    let m = h.len() as int;
    assert(crate::text::is_last_index(rest, ':', m)) by {
        assert forall|k: int| m < k < rest.len() implies rest[k] != ':' by {
            assert(rest[k] == d[k - m - 1]);
            assert(crate::text::is_ascii_digit(d[k - m - 1]));
        }
    }
    lemma_rsplit_once_at(rest, ':', m);
    assert(rest.take(m) =~= h);
    assert(rest.skip(m + 1) =~= d);
    assert(rest[0] == h[0]);
}

proof fn lemma_host_form(u: Seq<char>, h: Seq<char>)
    requires
        u.len() > 0,
        forall|i: int| 0 <= i < u.len() ==> u[i] != '@',
        !crate::text::is_white_space(u[0]),
        h.len() > 0,
        forall|i: int| 0 <= i < h.len() ==> h[i] != ':',
        h[0] != '[',
        !crate::text::is_white_space(h.last()),
    ensures
        adhoc_target(u + seq!['@'] + h) == Ok::<(Seq<char>, Seq<char>, nat), Seq<char>>((u, h, 22nat)),
{
    lemma_user_split(u, h);
    assert(!exists|k: int| crate::text::is_last_index(h, ':', k));
}

proof fn lemma_bracketed_form(u: Seq<char>, h6: Seq<char>, p: nat)
    requires
        u.len() > 0,
        forall|i: int| 0 <= i < u.len() ==> u[i] != '@',
        !crate::text::is_white_space(u[0]),
        h6.len() > 0,
        forall|i: int| 0 <= i < h6.len() ==> h6[i] != ']',
        p <= 65535,
    ensures
        adhoc_target(u + seq!['@', '['] + h6 + seq![']', ':'] + crate::text::decimal(p))
            == Ok::<(Seq<char>, Seq<char>, nat), Seq<char>>((u, h6, p)),
{
    let d = crate::text::decimal(p);
    lemma_port_text(p);
    let rest = seq!['['] + h6 + seq![']', ':'] + d;
    assert(crate::text::is_ascii_digit(d.last()));
    assert(rest.last() == d.last());
    lemma_user_split(u, rest);
    assert(u + seq!['@', '['] + h6 + seq![']', ':'] + d =~= u + seq!['@'] + rest);
    let inner = h6 + seq![']', ':'] + d;
    assert(rest.drop_first() =~= inner);
    let k = h6.len() as int;
    assert(crate::text::is_first_index(inner, ']', k));
    lemma_split_once_at(inner, ']', k);
    assert(inner.take(k) =~= h6);
    let tail = seq![':'] + d;
    assert(inner.skip(k + 1) =~= tail);
    assert(tail.drop_first() =~= d);
}

/// A target written as `user@host:port`, `user@host` or `user@[host]:port`
/// parses back to its parts (port 22 when none is written), for a user
/// without `@` that does not start with white space, a host without `:`
/// that does not start with `[` or end with white space, and a bracketed
/// host without `]`.
pub proof fn lemma_formatted_targets_parse_back(u: Seq<char>, h: Seq<char>, h6: Seq<char>, p: nat)
    requires
        u.len() > 0,
        forall|i: int| 0 <= i < u.len() ==> u[i] != '@',
        !crate::text::is_white_space(u[0]),
        h.len() > 0,
        forall|i: int| 0 <= i < h.len() ==> h[i] != ':',
        h[0] != '[',
        !crate::text::is_white_space(h.last()),
        h6.len() > 0,
        forall|i: int| 0 <= i < h6.len() ==> h6[i] != ']',
        p <= 65535,
    ensures
        adhoc_target(u + seq!['@'] + h + seq![':'] + crate::text::decimal(p)) == Ok::<(Seq<char>, Seq<char>, nat), Seq<char>>((u, h, p)),
        adhoc_target(u + seq!['@'] + h) == Ok::<(Seq<char>, Seq<char>, nat), Seq<char>>((u, h, 22nat)),
        adhoc_target(u + seq!['@', '['] + h6 + seq![']', ':'] + crate::text::decimal(p))
            == Ok::<(Seq<char>, Seq<char>, nat), Seq<char>>((u, h6, p)),
{
    lemma_host_port_form(u, h, p);
    lemma_host_form(u, h);
    lemma_bracketed_form(u, h6, p);
}

} // verus!
