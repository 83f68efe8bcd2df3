//! Remote (Unix) and local (Unix or Windows) path arithmetic used by the
//! SFTP browser: joining, parents, and the paths of a transfer.

use vstd::prelude::*;
use vstd::string::*;

use crate::text::{
    chars_of, find_last, is_last_index, lemma_rsplit_once_at, push_range, push_str,
    rsplit_once, string_of_range,
};

verus! {

/// A path separator of a local path (`/` or `\`).
pub open spec fn is_local_sep(c: char) -> bool {
    c == '/' || c == '\\'
}

/// `s.trim_end_matches('/')`.
pub open spec fn trim_end_slash(s: Seq<char>) -> Seq<char>
    decreases s.len(),
{
    if s.len() > 0 && s.last() == '/' {
        trim_end_slash(s.drop_last())
    } else {
        s
    }
}

/// `s.trim_end_matches(['/', '\\'])`.
pub open spec fn trim_end_local_seps(s: Seq<char>) -> Seq<char>
    decreases s.len(),
{
    if s.len() > 0 && is_local_sep(s.last()) {
        trim_end_local_seps(s.drop_last())
    } else {
        s
    }
}

/// `i` is the position of the last local separator in `s`.
pub open spec fn is_last_local_sep(s: Seq<char>, i: int) -> bool {
    &&& 0 <= i < s.len()
    &&& is_local_sep(s[i])
    &&& forall|j: int| i < j < s.len() ==> !is_local_sep(#[trigger] s[j])
}

/// A remote path joined with a child name, without doubled separators.
pub open spec fn joined_remote(parent: Seq<char>, child: Seq<char>) -> Seq<char> {
    if parent == seq!['.'] {
        child
    } else if parent == seq!['/'] {
        seq!['/'] + child
    } else {
        parent + seq!['/'] + child
    }
}

/// The parent of a remote path: `.` for a bare name, `/` at the root.
pub open spec fn remote_parent(path: Seq<char>) -> Seq<char> {
    match rsplit_once(path, '/') {
        Some((parent, _)) => if parent.len() == 0 {
            seq!['/']
        } else {
            parent
        },
        None => seq!['.'],
    }
}

/// The parent of a remote path after trailing separators are dropped.
pub open spec fn remote_parent_trimmed(path: Seq<char>) -> Seq<char> {
    let t = trim_end_slash(path);
    if t.len() == 0 {
        seq!['/']
    } else {
        remote_parent(t)
    }
}

/// The parent of a local path (`/` or `\` separated) after trailing
/// separators are dropped; a separator at the start is kept as the root.
pub open spec fn local_parent(path: Seq<char>) -> Seq<char> {
    let t = trim_end_local_seps(path);
    if t.len() == 0 {
        seq!['.']
    } else if exists|i: int| is_last_local_sep(t, i) {
        let i = choose|i: int| is_last_local_sep(t, i);
        if i == 0 {
            t.take(1)
        } else {
            t.take(i)
        }
    } else {
        seq!['.']
    }
}

/// The remote directory that opening `name` in `dir` leads to.
pub open spec fn remote_child(dir: Seq<char>, name: Seq<char>) -> Seq<char> {
    let base = trim_end_slash(dir);
    if base.len() == 0 || base == seq!['/'] {
        seq!['/'] + name
    } else {
        base + seq!['/'] + name
    }
}

/// The local directory that opening `name` in `dir` leads to.
pub open spec fn local_child(dir: Seq<char>, name: Seq<char>) -> Seq<char> {
    let base = trim_end_local_seps(dir);
    if base.len() == 0 {
        name
    } else {
        base + seq!['/'] + name
    }
}

/// The remote path of a transferred file `name` in `dir`.
pub open spec fn remote_transfer(dir: Seq<char>, name: Seq<char>) -> Seq<char> {
    trim_end_slash(dir) + seq!['/'] + name
}

/// The local path of a transferred file `name` in `dir`.
pub open spec fn local_transfer(dir: Seq<char>, name: Seq<char>) -> Seq<char> {
    trim_end_local_seps(dir) + seq!['/'] + name
}

/// The end of `v[lo..hi]` once trailing `/` (and, with `backslash`, `\`)
/// characters are dropped.
fn trim_end_range(v: &Vec<char>, lo: usize, hi: usize, backslash: bool) -> (e: usize)
    requires
        lo <= hi <= v.len(),
    ensures
        lo <= e <= hi,
        backslash ==> v@.subrange(lo as int, e as int) == trim_end_local_seps(
            v@.subrange(lo as int, hi as int),
        ),
        !backslash ==> v@.subrange(lo as int, e as int) == trim_end_slash(
            v@.subrange(lo as int, hi as int),
        ),
{
    let mut e = hi;
    while e > lo && (v[e - 1] == '/' || (backslash && v[e - 1] == '\\'))
        invariant
            lo <= e <= hi <= v.len(),
            backslash ==> trim_end_local_seps(v@.subrange(lo as int, hi as int))
                == trim_end_local_seps(v@.subrange(lo as int, e as int)),
            !backslash ==> trim_end_slash(v@.subrange(lo as int, hi as int)) == trim_end_slash(
                v@.subrange(lo as int, e as int),
            ),
        decreases e - lo,
    {
        proof {
            let s = v@.subrange(lo as int, e as int);
            assert(s.last() == v@[e - 1]);
            assert(s.drop_last() =~= v@.subrange(lo as int, e - 1));
        }
        e -= 1;
    }
    proof {
        let s = v@.subrange(lo as int, e as int);
        if e > lo {
            assert(s.last() == v@[e - 1]);
        }
    }
    e
}

fn is_dot(v: &Vec<char>) -> (b: bool)
    ensures
        b == (v@ == seq!['.']),
{
    if v.len() == 1 && v[0] == '.' {
        assert(v@ =~= seq!['.']);
        true
    } else {
        false
    }
}

fn is_slash(v: &Vec<char>) -> (b: bool)
    ensures
        b == (v@ == seq!['/']),
{
    if v.len() == 1 && v[0] == '/' {
        assert(v@ =~= seq!['/']);
        true
    } else {
        false
    }
}

fn one_char(c: char) -> (s: String)
    ensures
        s@ == seq![c],
{
    let mut s = String::new();
    crate::text::push_char(&mut s, c);
    assert(s@ =~= seq![c]);
    s
}

/// Join a remote directory and a child name without duplicate separators.
pub fn join_remote(parent: &str, child: &str) -> (r: String)
    ensures
        r@ == joined_remote(parent@, child@),
{
    let p = chars_of(parent);
    if is_dot(&p) {
        String::from_str(child)
    } else if is_slash(&p) {
        let mut r = one_char('/');
        push_str(&mut r, child);
        r
    } else {
        let mut r = String::from_str(parent);
        crate::text::push_char(&mut r, '/');
        push_str(&mut r, child);
        r
    }
}

/// The parent of a remote path: `var/log` → `var`, `/var` → `/`, `file.txt` → `.`.
pub fn parent_path(path: &str) -> (r: String)
    ensures
        r@ == remote_parent(path@),
{
    let v = chars_of(path);
    assert(v@.subrange(0, v.len() as int) =~= v@);
    match find_last(&v, 0, v.len(), '/') {
        Some(i) => {
            proof {
                lemma_rsplit_once_at(v@, '/', i as int);
            }
            if i == 0 {
                one_char('/')
            } else {
                assert(v@.take(i as int) =~= v@.subrange(0, i as int));
                string_of_range(&v, 0, i)
            }
        },
        None => one_char('.'),
    }
}

/// The parent of a remote path, ignoring trailing separators; the root is its
/// own parent.
pub fn parent_remote_path(path: &str) -> (r: String)
    ensures
        r@ == remote_parent_trimmed(path@),
{
    let v = chars_of(path);
    let e = trim_end_range(&v, 0, v.len(), false);
    assert(v@.subrange(0, v.len() as int) =~= v@);
    let ghost t = v@.subrange(0, e as int);
    if e == 0 {
        return one_char('/');
    }
    match find_last(&v, 0, e, '/') {
        Some(i) => {
            proof {
                lemma_rsplit_once_at(t, '/', i as int);
            }
            if i == 0 {
                one_char('/')
            } else {
                assert(t.take(i as int) =~= v@.subrange(0, i as int));
                string_of_range(&v, 0, i)
            }
        },
        None => one_char('.'),
    }
}

/// The parent of a local path (`/` or `\` separated), ignoring trailing
/// separators: `/home/user` → `/home`, `C:\Users\x` → `C:\Users`,
/// `file.txt` → `.`.
pub fn parent_local_path(path: &str) -> (r: String)
    ensures
        r@ == local_parent(path@),
{
    let v = chars_of(path);
    let e = trim_end_range(&v, 0, v.len(), true);
    assert(v@.subrange(0, v.len() as int) =~= v@);
    let ghost t = v@.subrange(0, e as int);
    if e == 0 {
        return one_char('.');
    }
    let mut i = e;
    while i > 0 && !(v[i - 1] == '/' || v[i - 1] == '\\')
        invariant
            0 <= i <= e <= v.len(),
            t == v@.subrange(0, e as int),
            forall|j: int| i <= j < e ==> !is_local_sep(#[trigger] t[j]),
        decreases i,
    {
        i -= 1;
    }
    if i == 0 {
        assert(!exists|k: int| is_last_local_sep(t, k)) by {
            if exists|k: int| is_last_local_sep(t, k) {
                let k = choose|k: int| is_last_local_sep(t, k);
                assert(!is_local_sep(t[k]));
            }
        }
        return one_char('.');
    }
    let sep = i - 1;
    assert(is_last_local_sep(t, sep as int));
    proof {
        let k = choose|k: int| is_last_local_sep(t, k);
        assert(k == sep) by {
            if k < sep {
                assert(!is_local_sep(t[sep as int]));
            }
            if sep < k {
                assert(!is_local_sep(t[k]));
            }
        }
    }
    if sep == 0 {
        assert(t.take(1) =~= v@.subrange(0, 1));
        string_of_range(&v, 0, 1)
    } else {
        assert(t.take(sep as int) =~= v@.subrange(0, sep as int));
        string_of_range(&v, 0, sep)
    }
}

/// The remote directory reached by opening `name` inside `dir`.
pub fn remote_child_path(dir: &str, name: &str) -> (r: String)
    ensures
        r@ == remote_child(dir@, name@),
{
    let v = chars_of(dir);
    let e = trim_end_range(&v, 0, v.len(), false);
    assert(v@.subrange(0, v.len() as int) =~= v@);
    let ghost base = v@.subrange(0, e as int);
    let root = e == 0 || (e == 1 && v[0] == '/');
    assert(root == (base.len() == 0 || base == seq!['/'])) by {
        if e == 1 && v[0] == '/' {
            assert(base =~= seq!['/']);
        }
    }
    let mut r = String::new();
    if !root {
        push_range(&mut r, &v, 0, e);
    }
    crate::text::push_char(&mut r, '/');
    push_str(&mut r, name);
    assert(r@ =~= remote_child(dir@, name@));
    r
}

/// The local directory reached by opening `name` inside `dir`.
pub fn local_child_path(dir: &str, name: &str) -> (r: String)
    ensures
        r@ == local_child(dir@, name@),
{
    let v = chars_of(dir);
    let e = trim_end_range(&v, 0, v.len(), true);
    assert(v@.subrange(0, v.len() as int) =~= v@);
    if e == 0 {
        return String::from_str(name);
    }
    let mut r = String::new();
    push_range(&mut r, &v, 0, e);
    crate::text::push_char(&mut r, '/');
    push_str(&mut r, name);
    assert(r@ =~= local_child(dir@, name@));
    r
}

/// The remote path of file `name` transferred to or from remote `dir`.
pub fn remote_transfer_path(dir: &str, name: &str) -> (r: String)
    ensures
        r@ == remote_transfer(dir@, name@),
{
    let v = chars_of(dir);
    let e = trim_end_range(&v, 0, v.len(), false);
    assert(v@.subrange(0, v.len() as int) =~= v@);
    let mut r = String::new();
    push_range(&mut r, &v, 0, e);
    crate::text::push_char(&mut r, '/');
    push_str(&mut r, name);
    assert(r@ =~= remote_transfer(dir@, name@));
    r
}

/// The local path of file `name` transferred to or from local `dir`.
pub fn local_transfer_path(dir: &str, name: &str) -> (r: String)
    ensures
        r@ == local_transfer(dir@, name@),
{
    let v = chars_of(dir);
    let e = trim_end_range(&v, 0, v.len(), true);
    assert(v@.subrange(0, v.len() as int) =~= v@);
    let mut r = String::new();
    push_range(&mut r, &v, 0, e);
    crate::text::push_char(&mut r, '/');
    push_str(&mut r, name);
    assert(r@ =~= local_transfer(dir@, name@));
    r
}

} // verus!

verus! {

/// Opening a child and then going to the parent returns to the directory:
/// for a non-empty directory and a child name without `/`, the parent of the
/// joined path is the directory.
pub proof fn lemma_parent_of_joined(dir: Seq<char>, child: Seq<char>)
    requires
        dir.len() > 0,
        forall|i: int| 0 <= i < child.len() ==> child[i] != '/',
    ensures
        remote_parent(joined_remote(dir, child)) == dir,
{
    let j = joined_remote(dir, child);
    if dir == seq!['.'] {
        if exists|i: int| is_last_index(j, '/', i) {
            let i = choose|i: int| is_last_index(j, '/', i);
            assert(child[i] == '/');
        }
    } else if dir == seq!['/'] {
        assert(is_last_index(j, '/', 0)) by {
            assert forall|k: int| 0 < k < j.len() implies j[k] != '/' by {
                assert(j[k] == child[k - 1]);
            }
        }
        lemma_rsplit_once_at(j, '/', 0);
    } else {
        let n = dir.len() as int;
        assert(is_last_index(j, '/', n)) by {
            assert(j[n] == '/');
            assert forall|k: int| n < k < j.len() implies j[k] != '/' by {
                assert(j[k] == child[k - n - 1]);
            }
        }
        lemma_rsplit_once_at(j, '/', n);
        assert(j.take(n) =~= dir);
    }
}

} // verus!

verus! {

/// Dropping the trailing `/`s of `d` keeps a prefix of `d` that does not
/// end in `/`, and everything after it is `/`.
proof fn lemma_trim_end_slash_shape(d: Seq<char>)
    ensures
        trim_end_slash(d).len() <= d.len(),
        d.take(trim_end_slash(d).len() as int) == trim_end_slash(d),
        forall|i: int| trim_end_slash(d).len() <= i < d.len() ==> d[i] == '/',
        trim_end_slash(d).len() == 0 || trim_end_slash(d).last() != '/',
    decreases d.len(),
{
    if d.len() > 0 && d.last() == '/' {
        lemma_trim_end_slash_shape(d.drop_last());
        let t = trim_end_slash(d);
        assert(d.drop_last().take(t.len() as int) =~= d.take(t.len() as int));
        assert forall|i: int| t.len() <= i < d.len() implies d[i] == '/' by {
            if i < d.len() - 1 {
                assert(d.drop_last()[i] == d[i]);
            }
        }
    } else {
        assert(d.take(d.len() as int) =~= d);
    }
}

/// The remote path of a transfer names the file under the directory: it
/// ends with `/` and the file name, and what comes before that `/` is the
/// directory without its trailing `/`s (everything after it in the
/// directory is `/`, and it does not itself end in `/`).
pub proof fn lemma_remote_transfer_path_shape(dir: Seq<char>, name: Seq<char>)
    ensures
        ({
            let r = remote_transfer(dir, name);
            let k = r.len() - name.len() - 1;
            let base = r.take(k);
            &&& 0 <= k
            &&& r[k] == '/'
            &&& r.skip(k + 1) == name
            &&& base.len() <= dir.len()
            &&& dir.take(base.len() as int) == base
            &&& (forall|i: int| base.len() <= i < dir.len() ==> dir[i] == '/')
            &&& (base.len() == 0 || base.last() != '/')
        }),
{
    lemma_trim_end_slash_shape(dir);
    let t = trim_end_slash(dir);
    let r = remote_transfer(dir, name);
    let k = r.len() - name.len() - 1;
    assert(k == t.len());
    assert(r.take(k) =~= t);
    assert(r.skip(k + 1) =~= name);
    assert(r[k] == '/');
}

/// When the file name has no `/`, the parent of its remote transfer path
/// is the directory without its trailing `/`s (the root when that is
/// empty).
pub proof fn lemma_remote_transfer_parent(dir: Seq<char>, name: Seq<char>)
    requires
        forall|i: int| 0 <= i < name.len() ==> name[i] != '/',
    ensures
        remote_parent(remote_transfer(dir, name)) == (if trim_end_slash(dir).len() == 0 {
            seq!['/']
        } else {
            trim_end_slash(dir)
        }),
{
    let t = trim_end_slash(dir);
    let r = remote_transfer(dir, name);
    let k = t.len() as int;
    assert(r[k] == '/');
    assert(is_last_index(r, '/', k)) by {
        assert forall|j: int| k < j < r.len() implies r[j] != '/' by {
            assert(r[j] == name[j - k - 1]);
        }
    }
    lemma_rsplit_once_at(r, '/', k);
    assert(r.take(k) =~= t);
}

} // verus!
