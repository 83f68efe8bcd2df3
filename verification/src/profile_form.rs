//! Formatting, tag splitting and validation rules of the profile editor.

use vstd::prelude::*;
use vstd::string::*;

use crate::error::prefixed_number;
use crate::text::{
    chars_of, decimal, has_white_space, is_first_index, lowercase,
    parse_unsigned, parse_unsigned_range, range_has_whitespace, string_of_range, text_eq,
    to_lowercase, trim_range, trim_ws, find_first, joined,
};

verus! {

pub const NAME_REQUIRED: &'static str = "El nombre es obligatorio.";
pub const NAME_TAKEN: &'static str = "Ya existe una conexión con ese nombre.";
pub const HOST_REQUIRED: &'static str = "El host es obligatorio.";
pub const HOST_HAS_SPACES: &'static str = "El host no puede contener espacios.";
pub const PORT_OUT_OF_RANGE: &'static str = "El puerto debe estar entre 1 y 65535.";
pub const USER_REQUIRED: &'static str = "El usuario es obligatorio.";

/// The text shown for a profile that was never used, on a card.
pub const NEVER_USED_CARD: &'static str = "Sin usar";
/// The text shown for a profile that was never used, in the table.
pub const NEVER_USED_TABLE: &'static str = "—";

/// A single validation failure with its message.
#[derive(Debug)]
pub struct ValidationError(pub String);

/// The fields of the profile editor, as typed.
#[derive(Debug)]
pub struct ProfileForm {
    pub original_name: Option<String>,
    pub name: String,
    pub host: String,
    pub port: String,
    pub username: String,
    pub identity_file: String,
    pub authentication: String,
    pub accept_unknown_host_key: bool,
    pub group: String,
    pub tags: String,
    pub favorite: bool,
    pub secret: String,
}

impl ProfileForm {
    /// An empty form (every text empty, every flag off).
    pub fn empty() -> (f: ProfileForm)
        ensures
            f.original_name is None,
            f.name@.len() == 0 && f.host@.len() == 0 && f.port@.len() == 0,
            f.username@.len() == 0 && f.identity_file@.len() == 0,
            f.authentication@.len() == 0 && f.group@.len() == 0 && f.tags@.len() == 0,
            f.secret@.len() == 0,
            !f.accept_unknown_host_key && !f.favorite,
    {
        ProfileForm {
            original_name: None,
            name: String::new(),
            host: String::new(),
            port: String::new(),
            username: String::new(),
            identity_file: String::new(),
            authentication: String::new(),
            accept_unknown_host_key: false,
            group: String::new(),
            tags: String::new(),
            favorite: false,
            secret: String::new(),
        }
    }
}

/// Whether `port` reads as an integer in `1..=65535` (after trimming).
pub open spec fn port_in_range(port: Seq<char>) -> bool {
    match parse_unsigned(trim_ws(port), 0xffff_ffff) {
        Some(v) => 1 <= v <= 65535,
        None => false,
    }
}

/// Whether a name equals one of `existing`, ignoring case.
pub open spec fn name_taken(existing: Seq<Seq<char>>, name: Seq<char>) -> bool {
    exists|i: int| 0 <= i < existing.len() && lowercase(existing[i]) == lowercase(name)
}

/// The first rule that the form breaks, in the editor's order, or none.
pub open spec fn form_error(
    name: Seq<char>,
    host: Seq<char>,
    port: Seq<char>,
    username: Seq<char>,
    existing: Seq<Seq<char>>,
) -> Option<Seq<char>> {
    let n = trim_ws(name);
    let h = trim_ws(host);
    if n.len() == 0 {
        Some(NAME_REQUIRED@)
    } else if name_taken(existing, n) {
        Some(NAME_TAKEN@)
    } else if h.len() == 0 {
        Some(HOST_REQUIRED@)
    } else if has_white_space(h) {
        Some(HOST_HAS_SPACES@)
    } else if !port_in_range(port) {
        Some(PORT_OUT_OF_RANGE@)
    } else if trim_ws(username).len() == 0 {
        Some(USER_REQUIRED@)
    } else {
        None
    }
}

/// The texts of a list of strings.
pub open spec fn texts(v: Seq<String>) -> Seq<Seq<char>> {
    v.map_values(|s: String| s@)
}

fn error(msg: &str) -> (e: ValidationError)
    ensures
        e.0@ == msg@,
{
    ValidationError(String::from_str(msg))
}

fn trimmed_is_empty(s: &str) -> (r: bool)
    ensures
        r == (trim_ws(s@).len() == 0),
{
    let v = chars_of(s);
    assert(v@.subrange(0, v.len() as int) =~= v@);
    let (a, b) = trim_range(&v, 0, v.len());
    a == b
}

fn check_port(port: &str) -> (r: Option<u16>)
    ensures
        port_in_range(port@) ==> (r matches Some(p) && parse_unsigned(
            trim_ws(port@),
            0xffff_ffff,
        ) == Some(p as nat)),
        !port_in_range(port@) ==> r is None,
{
    let v = chars_of(port);
    assert(v@.subrange(0, v.len() as int) =~= v@);
    let (a, b) = trim_range(&v, 0, v.len());
    match parse_unsigned_range(&v, a, b, 0xffff_ffff) {
        Some(x) => {
            if 1 <= x && x <= 65535 {
                Some(x as u16)
            } else {
                None
            }
        },
        None => None,
    }
}

fn is_name_taken(existing: &Vec<String>, name: &str) -> (r: bool)
    ensures
        r == name_taken(texts(existing@), name@),
{
    let lowered = to_lowercase(name);
    let mut i: usize = 0;
    while i < existing.len()
        invariant
            0 <= i <= existing.len(),
            lowered@ == lowercase(name@),
            forall|j: int| 0 <= j < i ==> lowercase(#[trigger] texts(existing@)[j]) != lowercase(
                name@,
            ),
        decreases existing.len() - i,
    {
        let other = to_lowercase(existing[i].as_str());
        assert(texts(existing@)[i as int] == existing@[i as int]@);
        if text_eq(other.as_str(), lowered.as_str()) {
            return true;
        }
        i += 1;
    }
    false
}

/// Validate the editor's fields in the editor's order, returning the first
/// failure: name required and not already taken (ignoring case), host
/// required and free of white space, port in `1..=65535`, user required.
/// `existing_names` excludes the profile being edited.
pub fn validate_form(form: &ProfileForm, existing_names: &Vec<String>) -> (r: Result<(), ValidationError>)
    ensures
        match form_error(form.name@, form.host@, form.port@, form.username@, texts(existing_names@)) {
            Some(msg) => r matches Err(e) && e.0@ == msg,
            None => r is Ok,
        },
{
    let nv = chars_of(form.name.as_str());
    assert(nv@.subrange(0, nv.len() as int) =~= nv@);
    let (na, nb) = trim_range(&nv, 0, nv.len());
    if na == nb {
        return Err(error(NAME_REQUIRED));
    }
    let name = string_of_range(&nv, na, nb);
    if is_name_taken(existing_names, name.as_str()) {
        return Err(error(NAME_TAKEN));
    }
    let hv = chars_of(form.host.as_str());
    assert(hv@.subrange(0, hv.len() as int) =~= hv@);
    let (ha, hb) = trim_range(&hv, 0, hv.len());
    if ha == hb {
        return Err(error(HOST_REQUIRED));
    }
    if range_has_whitespace(&hv, ha, hb) {
        return Err(error(HOST_HAS_SPACES));
    }
    if check_port(form.port.as_str()).is_none() {
        return Err(error(PORT_OUT_OF_RANGE));
    }
    if trimmed_is_empty(form.username.as_str()) {
        return Err(error(USER_REQUIRED));
    }
    Ok(())
}

/// Validate a host: required and free of white space; returns it trimmed.
pub fn validate_host(host: &str) -> (r: Result<String, ValidationError>)
    ensures
        trim_ws(host@).len() == 0 ==> (r matches Err(e) && e.0@ == HOST_REQUIRED@),
        trim_ws(host@).len() > 0 && has_white_space(trim_ws(host@)) ==> (r matches Err(e)
            && e.0@ == HOST_HAS_SPACES@),
        trim_ws(host@).len() > 0 && !has_white_space(trim_ws(host@)) ==> (r matches Ok(h) && h@
            == trim_ws(host@)),
{
    let v = chars_of(host);
    assert(v@.subrange(0, v.len() as int) =~= v@);
    let (a, b) = trim_range(&v, 0, v.len());
    if a == b {
        return Err(error(HOST_REQUIRED));
    }
    if range_has_whitespace(&v, a, b) {
        return Err(error(HOST_HAS_SPACES));
    }
    Ok(string_of_range(&v, a, b))
}

/// Validate a port text as an integer in `1..=65535` (after trimming).
pub fn parse_port(port: &str) -> (r: Result<u16, ValidationError>)
    ensures
        port_in_range(port@) ==> (r matches Ok(p) && parse_unsigned(trim_ws(port@), 0xffff_ffff)
            == Some(p as nat)),
        !port_in_range(port@) ==> (r matches Err(e) && e.0@ == PORT_OUT_OF_RANGE@),
{
    match check_port(port) {
        Some(p) => Ok(p),
        None => Err(error(PORT_OUT_OF_RANGE)),
    }
}

/// The non-empty trimmed pieces of `s` split at `,`, in order.
pub open spec fn tags_of(s: Seq<char>) -> Seq<Seq<char>>
    decreases s.len(),
{
    if exists|i: int| is_first_index(s, ',', i) {
        let i = choose|i: int| is_first_index(s, ',', i);
        let t = trim_ws(s.take(i));
        let first = if t.len() == 0 {
            Seq::<Seq<char>>::empty()
        } else {
            seq![t]
        };
        first + tags_of(s.skip(i + 1))
    } else {
        let t = trim_ws(s);
        if t.len() == 0 {
            Seq::<Seq<char>>::empty()
        } else {
            seq![t]
        }
    }
}

/// Split a comma-separated tags text: split on `,`, trim each piece, drop
/// the empty ones; order is kept.
pub fn split_tags(input: &str) -> (r: Vec<String>)
    ensures
        texts(r@) == tags_of(input@),
{
    let v = chars_of(input);
    let mut out: Vec<String> = Vec::new();
    let mut pos: usize = 0;
    assert(v@.subrange(0, v.len() as int) =~= v@);
    assert(texts(out@) =~= Seq::<Seq<char>>::empty());
    loop
        invariant
            pos <= v.len(),
            v@ == input@,
            tags_of(input@) == texts(out@) + tags_of(v@.subrange(pos as int, v.len() as int)),
        decreases v.len() - pos,
    {
        let ghost s = v@.subrange(pos as int, v.len() as int);
        let ghost before = texts(out@);
        match find_first(&v, pos, v.len(), ',') {
            Some(i) => {
                proof {
                    let k = choose|k: int| is_first_index(s, ',', k);
                    assert(k == i) by {
                        if k < i {
                            assert(s[k] != ',');
                        }
                        if i < k {
                            assert(s[i as int] != ',');
                        }
                    }
                    assert(s.take(i as int) =~= v@.subrange(pos as int, pos + i));
                    assert(s.skip(i + 1) =~= v@.subrange(pos + i + 1, v.len() as int));
                }
                let (a, b) = trim_range(&v, pos, pos + i);
                if a < b {
                    out.push(string_of_range(&v, a, b));
                    assert(texts(out@) =~= before.push(v@.subrange(a as int, b as int)));
                } else {
                    assert(texts(out@) =~= before);
                }
                pos = pos + i + 1;
            },
            None => {
                let (a, b) = trim_range(&v, pos, v.len());
                if a < b {
                    out.push(string_of_range(&v, a, b));
                    assert(texts(out@) =~= before.push(v@.subrange(a as int, b as int)));
                } else {
                    assert(texts(out@) =~= before);
                }
                return out;
            },
        }
    }
}

/// Seconds since the Unix epoch from the system clock; `None` when the clock
/// reads before the epoch. The answer depends on the clock.
#[verifier::external_body]
fn unix_now() -> Option<u64> {
    std::time::SystemTime::now().duration_since(std::time::UNIX_EPOCH).ok().map(|d| d.as_secs())
}

/// The current time in seconds since the Unix epoch, 0 when unknown.
pub fn now_secs() -> u64 {
    match unix_now() {
        Some(t) => t,
        None => 0,
    }
}

/// `(now - secs)` saturated at 0, read as an `i64` (values past `i64::MAX`
/// wrap to negative ones).
pub open spec fn elapsed_signed(now: u64, secs: u64) -> int {
    let d: int = if now >= secs { now - secs } else { 0 };
    if d > 0x7fff_ffff_ffff_ffff { d - 0x1_0000_0000_0000_0000 } else { d }
}

/// The relative-time text for a profile last used at `secs` when the clock
/// reads `now`.
pub open spec fn elapsed_text(now: u64, secs: u64) -> Seq<char> {
    let d = elapsed_signed(now, secs);
    if d < 90 {
        "Ahora mismo"@
    } else if d < 3600 {
        "Hace "@ + decimal((d / 60) as nat) + " min"@
    } else if d < 86400 {
        "Hace "@ + decimal((d / 3600) as nat) + " h"@
    } else if d / 86400 == 1 {
        "Hace 1 día"@
    } else {
        "Hace "@ + decimal((d / 86400) as nat) + " días"@
    }
}

/// The relative time since `secs` at time `now`: "Ahora mismo" (under 90 s),
/// "Hace X min", "Hace X h", "Hace 1 día" or "Hace X días".
pub fn format_last_used_duration(secs: u64, now: u64) -> (r: String)
    ensures
        r@ == elapsed_text(now, secs),
{
    let diff: u64 = if now >= secs { now - secs } else { 0 };
    if diff > 0x7fff_ffff_ffff_ffff || diff < 90 {
        return String::from_str("Ahora mismo");
    }
    if diff < 3600 {
        let mut s = prefixed_number("Hace ", diff / 60);
        crate::text::push_str(&mut s, " min");
        return s;
    }
    if diff < 86400 {
        let mut s = prefixed_number("Hace ", diff / 3600);
        crate::text::push_str(&mut s, " h");
        return s;
    }
    let days = diff / 86400;
    if days == 1 {
        String::from_str("Hace 1 día")
    } else {
        let mut s = prefixed_number("Hace ", days);
        crate::text::push_str(&mut s, " días");
        s
    }
}

/// The card text for the last use at `secs` when the clock reads `now`.
pub fn format_last_used_card_at(secs: Option<u64>, now: u64) -> (r: String)
    ensures
        match secs {
            None => r@ == NEVER_USED_CARD@,
            Some(t) => r@ == elapsed_text(now, t),
        },
{
    match secs {
        None => String::from_str(NEVER_USED_CARD),
        Some(t) => format_last_used_duration(t, now),
    }
}

/// The table text for the last use at `secs` when the clock reads `now`.
pub fn format_last_used_table_at(secs: Option<u64>, now: u64) -> (r: String)
    ensures
        match secs {
            None => r@ == NEVER_USED_TABLE@,
            Some(t) => r@ == elapsed_text(now, t),
        },
{
    match secs {
        None => String::from_str(NEVER_USED_TABLE),
        Some(t) => format_last_used_duration(t, now),
    }
}

/// The card text for the last use at `secs`: "Sin usar" when never used,
/// else the time since then by the system clock.
pub fn format_last_used_card(secs: Option<u64>) -> (r: String)
    ensures
        secs is None ==> r@ == NEVER_USED_CARD@,
        secs matches Some(t) ==> exists|now: u64| r@ == elapsed_text(now, t),
{
    format_last_used_card_at(secs, now_secs())
}

/// The table text for the last use at `secs`: "—" when never used, else the
/// time since then by the system clock.
pub fn format_last_used_table(secs: Option<u64>) -> (r: String)
    ensures
        secs is None ==> r@ == NEVER_USED_TABLE@,
        secs matches Some(t) ==> exists|now: u64| r@ == elapsed_text(now, t),
{
    format_last_used_table_at(secs, now_secs())
}

} // verus!

verus! {

/// A printed port in `1..=65535` passes the port check and reads back as
/// itself.
pub proof fn lemma_printed_port_parses_back(n: nat)
    requires
        1 <= n <= 65535,
    ensures
        port_in_range(crate::text::decimal(n)),
        parse_unsigned(trim_ws(crate::text::decimal(n)), 0xffff_ffff) == Some(n),
{
    crate::text::lemma_decimal_trimmed(n);
    crate::text::lemma_decimal_parses(n, 0xffff_ffff);
}

/// Whether every character of `w` is white space.
pub open spec fn all_white(w: Seq<char>) -> bool {
    forall|i: int| 0 <= i < w.len() ==> crate::text::is_white_space(#[trigger] w[i])
}

/// Whether `t` is a tag as splitting makes them: non-empty, trimmed, and
/// without `,`.
pub open spec fn is_tag(t: Seq<char>) -> bool {
    &&& t.len() > 0
    &&& !crate::text::is_white_space(t[0])
    &&& !crate::text::is_white_space(t.last())
    &&& forall|i: int| 0 <= i < t.len() ==> t[i] != ','
}

proof fn lemma_trim_start_after_white(w: Seq<char>, t: Seq<char>)
    requires
        all_white(w),
    ensures
        crate::text::trim_start_ws(w + t) == crate::text::trim_start_ws(t),
    decreases w.len(),
{
    if w.len() == 0 {
        assert(w + t =~= t);
    } else {
        assert((w + t)[0] == w[0]);
        assert((w + t).drop_first() =~= w.drop_first() + t);
        lemma_trim_start_after_white(w.drop_first(), t);
    }
}

proof fn lemma_trim_white_then(w: Seq<char>, t: Seq<char>)
    requires
        all_white(w),
        t.len() == 0 || (!crate::text::is_white_space(t[0]) && !crate::text::is_white_space(
            t.last(),
        )),
    ensures
        trim_ws(w + t) == t,
{
    lemma_trim_start_after_white(w, t);
}

/// The start of `s` after leading white space is dropped, and what follows.
proof fn lemma_trim_start_shape(s: Seq<char>) -> (k: int)
    ensures
        0 <= k <= s.len(),
        crate::text::trim_start_ws(s) == s.skip(k),
        crate::text::trim_start_ws(s).len() > 0 ==> !crate::text::is_white_space(
            crate::text::trim_start_ws(s)[0],
        ),
    decreases s.len(),
{
    if s.len() > 0 && crate::text::is_white_space(s[0]) {
        let k = lemma_trim_start_shape(s.drop_first());
        assert(s.drop_first().skip(k) =~= s.skip(k + 1));
        k + 1
    } else {
        assert(s.skip(0) =~= s);
        0
    }
}

proof fn lemma_trim_end_shape(s: Seq<char>) -> (m: int)
    ensures
        0 <= m <= s.len(),
        crate::text::trim_end_ws(s) == s.take(m),
        crate::text::trim_end_ws(s).len() > 0 ==> !crate::text::is_white_space(
            crate::text::trim_end_ws(s).last(),
        ),
    decreases s.len(),
{
    if s.len() > 0 && crate::text::is_white_space(s.last()) {
        let m = lemma_trim_end_shape(s.drop_last());
        assert(s.drop_last().take(m) =~= s.take(m));
        m
    } else {
        assert(s.take(s.len() as int) =~= s);
        s.len() as int
    }
}

/// A non-empty trim of a text without `,` is a tag.
proof fn lemma_trim_is_tag(x: Seq<char>)
    requires
        forall|i: int| 0 <= i < x.len() ==> x[i] != ',',
        trim_ws(x).len() > 0,
    ensures
        is_tag(trim_ws(x)),
{
    let y = crate::text::trim_start_ws(x);
    let k = lemma_trim_start_shape(x);
    let m = lemma_trim_end_shape(y);
    let t = trim_ws(x);
    assert(t == y.take(m));
    assert(y.len() > 0);
    assert(t[0] == y[0]);
    assert forall|i: int| 0 <= i < t.len() implies t[i] != ',' by {
        assert(t[i] == y[i]);
        assert(y[i] == x[i + k]);
    }
}

proof fn lemma_first_comma_exists(s: Seq<char>, j: int)
    requires
        0 <= j < s.len(),
        s[j] == ',',
    ensures
        exists|i: int| crate::text::is_first_index(s, ',', i),
    decreases j,
{
    if exists|k: int| 0 <= k < j && s[k] == ',' {
        let k = choose|k: int| 0 <= k < j && s[k] == ',';
        lemma_first_comma_exists(s, k);
    } else {
        assert(crate::text::is_first_index(s, ',', j));
    }
}

/// Every piece that splitting makes is a tag.
pub proof fn lemma_tags_are_tags(s: Seq<char>)
    ensures
        forall|k: int| 0 <= k < tags_of(s).len() ==> is_tag(#[trigger] tags_of(s)[k]),
    decreases s.len(),
{
    if exists|i: int| crate::text::is_first_index(s, ',', i) {
        let i = choose|i: int| crate::text::is_first_index(s, ',', i);
        let t = trim_ws(s.take(i));
        lemma_tags_are_tags(s.skip(i + 1));
        if t.len() > 0 {
            lemma_trim_is_tag(s.take(i));
        }
        let first = if t.len() == 0 {
            Seq::<Seq<char>>::empty()
        } else {
            seq![t]
        };
        assert(tags_of(s) == first + tags_of(s.skip(i + 1)));
        assert forall|k: int| 0 <= k < tags_of(s).len() implies is_tag(#[trigger] tags_of(s)[k]) by {
            if k < first.len() {
                assert(tags_of(s)[k] == t);
            } else {
                assert(tags_of(s)[k] == tags_of(s.skip(i + 1))[k - first.len()]);
            }
        }
    } else {
        assert forall|j: int| 0 <= j < s.len() implies s[j] != ',' by {
            if s[j] == ',' {
                lemma_first_comma_exists(s, j);
            }
        }
        if trim_ws(s).len() > 0 {
            lemma_trim_is_tag(s);
        }
    }
}

proof fn lemma_joined_front(ts: Seq<Seq<char>>, sep: Seq<char>)
    requires
        ts.len() >= 2,
    ensures
        joined(ts, sep) == ts[0] + sep + joined(ts.drop_first(), sep),
    decreases ts.len(),
{
    if ts.len() == 2 {
        assert(ts.drop_last().len() == 1);
        assert(ts.drop_first().len() == 1);
        assert(joined(ts.drop_last(), sep) == ts[0]);
        assert(joined(ts.drop_first(), sep) == ts[1]);
    } else {
        lemma_joined_front(ts.drop_last(), sep);
        assert(ts.drop_last().drop_first() =~= ts.drop_first().drop_last());
        assert(ts.drop_first().last() == ts.last());
        assert(ts.drop_last()[0] == ts[0]);
        assert(joined(ts.drop_first(), sep) == joined(ts.drop_first().drop_last(), sep) + sep
            + ts.drop_first().last());
        assert(ts[0] + sep + joined(ts.drop_last().drop_first(), sep) + sep + ts.last() =~= ts[0]
            + sep + (joined(ts.drop_first().drop_last(), sep) + sep + ts.last()));
    }
}

proof fn lemma_no_comma_tags(x: Seq<char>)
    requires
        forall|i: int| 0 <= i < x.len() ==> x[i] != ',',
    ensures
        tags_of(x) == (if trim_ws(x).len() == 0 {
            Seq::<Seq<char>>::empty()
        } else {
            seq![trim_ws(x)]
        }),
{
    assert(!exists|i: int| crate::text::is_first_index(x, ',', i));
}

/// Splitting white space followed by tags joined with `", "` gives the
/// tags back.
proof fn lemma_split_joined(ts: Seq<Seq<char>>, w: Seq<char>)
    requires
        forall|k: int| 0 <= k < ts.len() ==> is_tag(#[trigger] ts[k]),
        all_white(w),
    ensures
        tags_of(w + joined(ts, seq![',', ' '])) == ts,
    decreases ts.len(),
{
    let sep = seq![',', ' '];
    if ts.len() == 0 {
        let x = w + joined(ts, sep);
        assert(x =~= w);
        lemma_trim_white_then(w, Seq::empty());
        assert(w + Seq::<char>::empty() =~= w);
        lemma_no_comma_tags(x);
        assert(ts =~= Seq::<Seq<char>>::empty());
    } else if ts.len() == 1 {
        let t0 = ts[0];
        assert(is_tag(t0));
        let x = w + joined(ts, sep);
        assert(x =~= w + t0);
        assert forall|i: int| 0 <= i < x.len() implies x[i] != ',' by {
            if i >= w.len() {
                assert(x[i] == t0[i - w.len()]);
            }
        }
        lemma_trim_white_then(w, t0);
        lemma_no_comma_tags(x);
        assert(ts =~= seq![t0]);
    } else {
        let t0 = ts[0];
        assert(is_tag(t0));
        let rest = ts.drop_first();
        lemma_joined_front(ts, sep);
        let j = joined(rest, sep);
        let x = w + joined(ts, sep);
        assert(x =~= (w + t0) + seq![','] + (seq![' '] + j));
        let i = (w.len() + t0.len()) as int;
        assert(crate::text::is_first_index(x, ',', i)) by {
            assert forall|k: int| 0 <= k < i implies x[k] != ',' by {
                if k >= w.len() {
                    assert(x[k] == t0[k - w.len()]);
                }
            }
        }
        crate::text::lemma_split_once_at(x, ',', i);
        assert(x.take(i) =~= w + t0);
        assert(x.skip(i + 1) =~= seq![' '] + j);
        lemma_trim_white_then(w, t0);
        assert forall|k: int| 0 <= k < rest.len() implies is_tag(#[trigger] rest[k]) by {
            assert(rest[k] == ts[k + 1]);
        }
        assert(all_white(seq![' ']));
        lemma_split_joined(rest, seq![' ']);
        assert(tags_of(x) == seq![t0] + tags_of(x.skip(i + 1)));
        assert(seq![t0] + rest =~= ts);
    }
}

/// Joining the tags of a text with `", "` and splitting again gives the
/// same tags.
pub proof fn lemma_tags_rejoin(s: Seq<char>)
    ensures
        tags_of(joined(tags_of(s), seq![',', ' '])) == tags_of(s),
{
    lemma_tags_are_tags(s);
    let j = joined(tags_of(s), seq![',', ' ']);
    assert(Seq::<char>::empty() + j =~= j);
    lemma_split_joined(tags_of(s), Seq::empty());
}

} // verus!
