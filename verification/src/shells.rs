//! Local shell discovery: reading the shell of a passwd entry and the order
//! in which candidate interpreters are probed.

use vstd::prelude::*;
use vstd::string::*;

use crate::text::{
    chars_of, find_first, is_first_index, lemma_split_once_at, parse_unsigned,
    parse_unsigned_range, push_str, split_once, string_of_range,
};

verus! {

/// Shell names probed, in order, when nothing else names a usable shell.
pub const CANDIDATES: [&'static str; 5] = ["zsh", "bash", "fish", "dash", "sh"];

/// Directories searched, in order, for a shell given by name.
pub const SEARCH_DIRS: [&'static str; 3] = ["/usr/bin", "/usr/local/bin", "/bin"];

/// Field `n` (counted from 0) of `s` split at `c` (`s.split(c).nth(n)`).
pub open spec fn nth_field(s: Seq<char>, c: char, n: nat) -> Option<Seq<char>>
    decreases n,
{
    match split_once(s, c) {
        None => if n == 0 {
            Some(s)
        } else {
            None
        },
        Some((first, rest)) => if n == 0 {
            Some(first)
        } else {
            nth_field(rest, c, (n - 1) as nat)
        },
    }
}

/// The shell of a passwd line (field 6), unless it is missing or empty.
pub open spec fn passwd_line_shell(line: Seq<char>) -> Option<Seq<char>> {
    match nth_field(line, ':', 6) {
        Some(shell) => if shell.len() == 0 {
            None
        } else {
            Some(shell)
        },
        None => None,
    }
}

/// A line of text without the `\r` of a `\r\n` ending.
pub open spec fn strip_cr(line: Seq<char>) -> Seq<char> {
    if line.len() > 0 && line.last() == '\r' {
        line.drop_last()
    } else {
        line
    }
}

/// The shell of the first passwd entry whose uid field is `uid`, reading the
/// lines of `text` (`str::lines`) in order; a line without a numeric uid field
/// ends the search with nothing.
pub open spec fn passwd_shell_for(text: Seq<char>, uid: nat) -> Option<Seq<char>>
    decreases text.len(),
{
    if text.len() == 0 {
        None
    } else if exists|i: int| is_first_index(text, '\n', i) {
        let i = choose|i: int| is_first_index(text, '\n', i);
        let line = strip_cr(text.take(i));
        match nth_field(line, ':', 2) {
            None => None,
            Some(f) => match parse_unsigned(f, 0xffff_ffff) {
                None => None,
                Some(u) => if u == uid {
                    passwd_line_shell(line)
                } else {
                    passwd_shell_for(text.skip(i + 1), uid)
                },
            },
        }
    } else {
        match nth_field(text, ':', 2) {
            None => None,
            Some(f) => match parse_unsigned(f, 0xffff_ffff) {
                None => None,
                Some(u) => if u == uid {
                    passwd_line_shell(text)
                } else {
                    None
                },
            },
        }
    }
}

/// The bounds of field `n` of `v[lo..hi]` split at `c`.
fn field_range(v: &Vec<char>, lo: usize, hi: usize, c: char, n: usize) -> (r: Option<
    (usize, usize),
>)
    requires
        lo <= hi <= v.len(),
    ensures
        match nth_field(v@.subrange(lo as int, hi as int), c, n as nat) {
            Some(f) => r matches Some((a, b)) && lo <= a <= b <= hi && v@.subrange(
                a as int,
                b as int,
            ) == f,
            None => r is None,
        },
    decreases n,
{
    let ghost s = v@.subrange(lo as int, hi as int);
    match find_first(v, lo, hi, c) {
        None => {
            if n == 0 {
                Some((lo, hi))
            } else {
                None
            }
        },
        Some(i) => {
            proof {
                lemma_split_once_at(s, c, i as int);
            }
            assert(s.take(i as int) =~= v@.subrange(lo as int, lo + i));
            assert(s.skip(i + 1) =~= v@.subrange(lo + i + 1, hi as int));
            if n == 0 {
                Some((lo, lo + i))
            } else {
                field_range(v, lo + i + 1, hi, c, n - 1)
            }
        },
    }
}

/// Parses the shell field (index 6) of a passwd line; an empty field is none.
pub fn shell_from_passwd_line(line: &str) -> (r: Option<String>)
    ensures
        match passwd_line_shell(line@) {
            Some(shell) => r matches Some(s) && s@ == shell,
            None => r is None,
        },
{
    let v = chars_of(line);
    assert(v@.subrange(0, v.len() as int) =~= v@);
    match field_range(&v, 0, v.len(), ':', 6) {
        Some((a, b)) => {
            if a == b {
                None
            } else {
                Some(string_of_range(&v, a, b))
            }
        },
        None => None,
    }
}

fn line_shell_range(v: &Vec<char>, lo: usize, hi: usize) -> (r: Option<String>)
    requires
        lo <= hi <= v.len(),
    ensures
        match passwd_line_shell(v@.subrange(lo as int, hi as int)) {
            Some(shell) => r matches Some(s) && s@ == shell,
            None => r is None,
        },
{
    match field_range(v, lo, hi, ':', 6) {
        Some((a, b)) => {
            if a == b {
                None
            } else {
                Some(string_of_range(v, a, b))
            }
        },
        None => None,
    }
}

/// Whether the uid field of line `v[lo..hi]` reads as `uid`; `None` when the
/// line has no numeric uid field.
fn line_uid_is(v: &Vec<char>, lo: usize, hi: usize, uid: u32) -> (r: Option<bool>)
    requires
        lo <= hi <= v.len(),
    ensures
        match nth_field(v@.subrange(lo as int, hi as int), ':', 2) {
            None => r is None,
            Some(f) => match parse_unsigned(f, 0xffff_ffff) {
                None => r is None,
                Some(u) => r == Some(u == uid),
            },
        },
{
    match field_range(v, lo, hi, ':', 2) {
        None => None,
        Some((a, b)) => match parse_unsigned_range(v, a, b, 0xffff_ffff) {
            None => None,
            Some(u) => Some(u == uid as u64),
        },
    }
}

/// The shell of the passwd entry for `uid` in the passwd file text `passwd`.
pub fn passwd_shell_in(passwd: &str, uid: u32) -> (r: Option<String>)
    ensures
        match passwd_shell_for(passwd@, uid as nat) {
            Some(shell) => r matches Some(s) && s@ == shell,
            None => r is None,
        },
{
    let v = chars_of(passwd);
    let mut pos: usize = 0;
    assert(v@.subrange(0, v.len() as int) =~= v@);
    while pos < v.len()
        invariant
            pos <= v.len(),
            passwd_shell_for(passwd@, uid as nat) == passwd_shell_for(
                v@.subrange(pos as int, v.len() as int),
                uid as nat,
            ),
            v@ == passwd@,
        decreases v.len() - pos,
    {
        let ghost text = v@.subrange(pos as int, v.len() as int);
        match find_first(&v, pos, v.len(), '\n') {
            Some(i) => {
                proof {
                    let k = choose|k: int| is_first_index(text, '\n', k);
                    assert(k == i) by {
                        if k < i {
                            assert(text[k] != '\n');
                        }
                        if i < k {
                            assert(text[i as int] != '\n');
                        }
                    }
                }
                let nl = pos + i;
                let mut end = nl;
                if end > pos && v[end - 1] == '\r' {
                    end = end - 1;
                }
                proof {
                    let l = text.take(i as int);
                    assert(l =~= v@.subrange(pos as int, nl as int));
                    if nl > pos {
                        assert(l.last() == v@[nl - 1]);
                        assert(l.drop_last() =~= v@.subrange(pos as int, nl - 1));
                    }
                    assert(strip_cr(l) == v@.subrange(pos as int, end as int));
                    assert(text.skip(i + 1) =~= v@.subrange(nl + 1, v.len() as int));
                }
                match line_uid_is(&v, pos, end, uid) {
                    None => {
                        return None;
                    },
                    Some(true) => {
                        return line_shell_range(&v, pos, end);
                    },
                    Some(false) => {},
                }
                pos = nl + 1;
            },
            None => {
                return match line_uid_is(&v, pos, v.len(), uid) {
                    None => None,
                    Some(true) => line_shell_range(&v, pos, v.len()),
                    Some(false) => None,
                };
            },
        }
    }
    None
}

/// `list` with each element of `found` appended unless it is already there.
pub open spec fn append_new(list: Seq<Seq<char>>, found: Seq<Seq<char>>) -> Seq<Seq<char>>
    decreases found.len(),
{
    if found.len() == 0 {
        list
    } else {
        let next = if list.contains(found[0]) {
            list
        } else {
            list.push(found[0])
        };
        append_new(next, found.drop_first())
    }
}

/// The views of a list of strings.
pub open spec fn views(v: Seq<String>) -> Seq<Seq<char>> {
    v.map_values(|s: String| s@)
}

fn contains_string(list: &Vec<String>, s: &String) -> (b: bool)
    ensures
        b == views(list@).contains(s@),
{
    let mut i: usize = 0;
    while i < list.len()
        invariant
            0 <= i <= list.len(),
            forall|j: int| 0 <= j < i ==> list@[j]@ != s@,
        decreases list.len() - i,
    {
        if list[i] == *s {
            assert(views(list@)[i as int] == s@);
            return true;
        }
        i += 1;
    }
    assert(!views(list@).contains(s@)) by {
        if views(list@).contains(s@) {
            let k = choose|k: int| 0 <= k < views(list@).len() && views(list@)[k] == s@;
            assert(list@[k]@ == s@);
        }
    }
    false
}

/// Interpreters for the selector: the detected one first, then each found
/// candidate that is not listed yet, in order.
pub fn list_shells(detected: String, found: Vec<String>) -> (r: Vec<String>)
    ensures
        views(r@) == append_new(seq![detected@], views(found@)),
{
    let ghost d = detected@;
    let mut shells: Vec<String> = Vec::new();
    shells.push(detected);
    assert(views(shells@) =~= seq![d]);
    assert(views(found@).skip(0) =~= views(found@));
    let mut i: usize = 0;
    while i < found.len()
        invariant
            0 <= i <= found.len(),
            append_new(seq![d], views(found@)) == append_new(
                views(shells@),
                views(found@).skip(i as int),
            ),
        decreases found.len() - i,
    {
        let ghost before = views(shells@);
        let ghost rest = views(found@).skip(i as int);
        assert(rest[0] == found@[i as int]@);
        assert(rest.drop_first() =~= views(found@).skip(i + 1));
        if !contains_string(&shells, &found[i]) {
            shells.push(found[i].clone());
            assert(views(shells@) =~= before.push(found@[i as int]@));
        }
        i += 1;
    }
    assert(views(found@).skip(found.len() as int) =~= Seq::<Seq<char>>::empty());
    shells
}

/// `dir/name` for each search directory, in order: where a shell named
/// `name` is looked for.
pub fn search_paths(name: &str) -> (r: Vec<String>)
    ensures
        r@.len() == 3,
        forall|i: int|
            0 <= i < 3 ==> #[trigger] r@[i]@ == SEARCH_DIRS[i]@ + seq!['/'] + name@,
{
    let mut r: Vec<String> = Vec::new();
    let mut i: usize = 0;
    while i < 3
        invariant
            0 <= i <= 3,
            r@.len() == i,
            forall|j: int| 0 <= j < i ==> #[trigger] r@[j]@ == SEARCH_DIRS[j]@ + seq!['/'] + name@,
        decreases 3 - i,
    {
        let mut p = String::from_str(SEARCH_DIRS[i]);
        crate::text::push_char(&mut p, '/');
        push_str(&mut p, name);
        r.push(p);
        i += 1;
    }
    r
}

} // verus!

verus! {

/// The interpreter list starts with the detected one and never lists one
/// twice.
pub proof fn lemma_shell_list_shape(detected: Seq<char>, found: Seq<Seq<char>>)
    ensures
        append_new(seq![detected], found)[0] == detected,
        append_new(seq![detected], found).no_duplicates(),
{
    lemma_append_new_keeps(seq![detected], found);
    let r = append_new(seq![detected], found);
    assert(r.take(1)[0] == r[0]);
}

proof fn lemma_append_new_keeps(list: Seq<Seq<char>>, found: Seq<Seq<char>>)
    requires
        list.no_duplicates(),
        list.len() > 0,
    ensures
        append_new(list, found).len() >= list.len(),
        append_new(list, found).take(list.len() as int) == list,
        append_new(list, found).no_duplicates(),
    decreases found.len(),
{
    if found.len() > 0 {
        let next = if list.contains(found[0]) {
            list
        } else {
            list.push(found[0])
        };
        if !list.contains(found[0]) {
            assert forall|i: int, j: int| 0 <= i < next.len() && 0 <= j < next.len() && i != j
                implies next[i] != next[j] by {
                if i == list.len() as int {
                    assert(next[j] == list[j]);
                } else if j == list.len() as int {
                    assert(next[i] == list[i]);
                } else {
                    assert(next[i] == list[i] && next[j] == list[j]);
                }
            }
        }
        lemma_append_new_keeps(next, found.drop_first());
        assert(next.take(list.len() as int) =~= list);
        let r = append_new(next, found.drop_first());
        assert(r.take(list.len() as int) =~= r.take(next.len() as int).take(list.len() as int));
    } else {
        assert(list.take(list.len() as int) =~= list);
    }
}

} // verus!
