//! Saved connection profiles and the rules of the profile store: unique
//! names, adding, removing, marking as used, and importing.

use vstd::prelude::*;
use vstd::string::*;

use crate::config::{join_path, path_joined};
use crate::error::{prefixed, AppError};
use crate::text::text_eq;

verus! {

/// How a profile authenticates.
#[derive(Clone, Copy, Debug, PartialEq, Eq, Structural)]
pub enum Authentication {
    /// No authentication (`None` in saved profiles).
    NoAuth,
    Password,
    PrivateKey,
}

/// A saved connection profile. Secrets are never part of it.
#[derive(Debug)]
pub struct Profile {
    pub name: String,
    pub host: String,
    pub port: u16,
    pub username: String,
    pub identity_file: Option<String>,
    pub authentication: Authentication,
    pub accept_unknown_host_key: bool,
    pub group: Option<String>,
    pub tags: Vec<String>,
    pub last_used: Option<u64>,
    pub favorite: bool,
}

/// The mathematical value of a profile.
pub struct ProfileView {
    pub name: Seq<char>,
    pub host: Seq<char>,
    pub port: u16,
    pub username: Seq<char>,
    pub identity_file: Option<Seq<char>>,
    pub authentication: Authentication,
    pub accept_unknown_host_key: bool,
    pub group: Option<Seq<char>>,
    pub tags: Seq<Seq<char>>,
    pub last_used: Option<u64>,
    pub favorite: bool,
}

/// The text of an optional string.
pub open spec fn opt_view(o: Option<String>) -> Option<Seq<char>> {
    match o {
        Some(s) => Some(s@),
        None => None,
    }
}

/// The texts of a list of strings.
pub open spec fn strings_view(v: Seq<String>) -> Seq<Seq<char>> {
    v.map_values(|s: String| s@)
}

impl View for Profile {
    type V = ProfileView;

    open spec fn view(&self) -> ProfileView {
        ProfileView {
            name: self.name@,
            host: self.host@,
            port: self.port,
            username: self.username@,
            identity_file: opt_view(self.identity_file),
            authentication: self.authentication,
            accept_unknown_host_key: self.accept_unknown_host_key,
            group: opt_view(self.group),
            tags: strings_view(self.tags@),
            last_used: self.last_used,
            favorite: self.favorite,
        }
    }
}

/// A copy of an optional string.
pub fn clone_opt(o: &Option<String>) -> (r: Option<String>)
    ensures
        opt_view(r) == opt_view(*o),
{
    match o {
        Some(s) => Some(s.clone()),
        None => None,
    }
}

/// A copy of a list of strings.
pub fn clone_strings(v: &Vec<String>) -> (r: Vec<String>)
    ensures
        strings_view(r@) == strings_view(v@),
{
    let mut r: Vec<String> = Vec::new();
    let mut i: usize = 0;
    while i < v.len()
        invariant
            0 <= i <= v.len(),
            r@.len() == i,
            forall|j: int| 0 <= j < i ==> #[trigger] r@[j]@ == v@[j]@,
        decreases v.len() - i,
    {
        let c = v[i].clone();
        r.push(c);
        i += 1;
    }
    assert(strings_view(r@) =~= strings_view(v@));
    r
}

impl Profile {
    /// A copy of this profile.
    pub fn duplicate(&self) -> (r: Profile)
        ensures
            r@ == self@,
    {
        Profile {
            name: self.name.clone(),
            host: self.host.clone(),
            port: self.port,
            username: self.username.clone(),
            identity_file: clone_opt(&self.identity_file),
            authentication: self.authentication,
            accept_unknown_host_key: self.accept_unknown_host_key,
            group: clone_opt(&self.group),
            tags: clone_strings(&self.tags),
            last_used: self.last_used,
            favorite: self.favorite,
        }
    }
}

/// The values of a list of profiles.
pub open spec fn profiles_view(v: Seq<Profile>) -> Seq<ProfileView> {
    v.map_values(|p: Profile| p@)
}

/// `i` is the first position of a profile named `name`.
pub open spec fn is_first_named(ps: Seq<ProfileView>, name: Seq<char>, i: int) -> bool {
    &&& 0 <= i < ps.len()
    &&& ps[i].name == name
    &&& forall|j: int| 0 <= j < i ==> ps[j].name != name
}

/// Whether some profile is named `name`.
pub open spec fn has_named(ps: Seq<ProfileView>, name: Seq<char>) -> bool {
    exists|i: int| 0 <= i < ps.len() && ps[i].name == name
}

/// Whether no two profiles share a name.
pub open spec fn names_unique(ps: Seq<ProfileView>) -> bool {
    forall|i: int, j: int| 0 <= i < j < ps.len() ==> ps[i].name != ps[j].name
}

/// The profiles after importing `incoming` into `current`: each incoming
/// profile whose name is not present yet is appended, in order.
pub open spec fn imported(current: Seq<ProfileView>, incoming: Seq<ProfileView>) -> Seq<ProfileView>
    decreases incoming.len(),
{
    if incoming.len() == 0 {
        current
    } else {
        let next = if has_named(current, incoming[0].name) {
            current
        } else {
            current.push(incoming[0])
        };
        imported(next, incoming.drop_first())
    }
}

/// The position of the first profile named `name`.
pub fn position_named(profiles: &Vec<Profile>, name: &str) -> (r: Option<usize>)
    ensures
        match r {
            Some(i) => is_first_named(profiles_view(profiles@), name@, i as int),
            None => !has_named(profiles_view(profiles@), name@),
        },
{
    let ghost ps = profiles_view(profiles@);
    let mut i: usize = 0;
    while i < profiles.len()
        invariant
            0 <= i <= profiles.len(),
            ps == profiles_view(profiles@),
            forall|j: int| 0 <= j < i ==> ps[j].name != name@,
        decreases profiles.len() - i,
    {
        if text_eq(profiles[i].name.as_str(), name) {
            return Some(i);
        }
        i += 1;
    }
    assert(!has_named(ps, name@)) by {
        if has_named(ps, name@) {
            let k = choose|k: int| 0 <= k < ps.len() && ps[k].name == name@;
            assert(ps[k].name != name@);
        }
    }
    None
}

/// Add a profile, refusing a name that is already taken.
pub fn add_profile(profiles: &mut Vec<Profile>, profile: Profile) -> (r: Result<(), AppError>)
    ensures
        has_named(profiles_view(old(profiles)@), profile@.name) ==> {
            &&& r matches Err(AppError::Profile(m))
            &&& m@ == "profile already exists: "@ + profile@.name
            &&& profiles_view(final(profiles)@) == profiles_view(old(profiles)@)
        },
        !has_named(profiles_view(old(profiles)@), profile@.name) ==> {
            &&& r is Ok
            &&& profiles_view(final(profiles)@) == profiles_view(old(profiles)@).push(profile@)
        },
{
    if position_named(profiles, profile.name.as_str()).is_some() {
        return Err(AppError::Profile(prefixed("profile already exists: ", &profile.name)));
    }
    let ghost before = profiles_view(profiles@);
    profiles.push(profile);
    assert(profiles_view(profiles@) =~= before.push(profile@));
    Ok(())
}

/// Remove the first profile named `name` and return it.
pub fn remove_profile(profiles: &mut Vec<Profile>, name: &str) -> (r: Result<Profile, AppError>)
    ensures
        !has_named(profiles_view(old(profiles)@), name@) ==> {
            &&& r matches Err(AppError::Profile(m))
            &&& m@ == "profile not found: "@ + name@
            &&& profiles_view(final(profiles)@) == profiles_view(old(profiles)@)
        },
        forall|i: int| #[trigger]
            is_first_named(profiles_view(old(profiles)@), name@, i) ==> {
                &&& r matches Ok(p)
                &&& p@ == profiles_view(old(profiles)@)[i]
                &&& profiles_view(final(profiles)@) == profiles_view(old(profiles)@).remove(i)
            },
{
    let ghost before = profiles_view(profiles@);
    match position_named(profiles, name) {
        None => {
            let mut m = String::from_str("profile not found: ");
            crate::text::push_str(&mut m, name);
            Err(AppError::Profile(m))
        },
        Some(i) => {
            let removed = profiles.remove(i);
            assert(profiles_view(profiles@) =~= before.remove(i as int));
            assert forall|k: int| #[trigger] is_first_named(before, name@, k) implies k
                == i by {
                if k < i {
                    assert(before[k].name != name@);
                }
                if i < k {
                    assert(before[i as int].name != name@);
                }
            }
            Ok(removed)
        },
    }
}

/// Mark the first profile named `name` as used at time `now` (seconds since
/// the Unix epoch); nothing changes when no profile has that name.
pub fn touch_profile(profiles: &mut Vec<Profile>, name: &str, now: u64)
    ensures
        !has_named(profiles_view(old(profiles)@), name@) ==> profiles_view(final(profiles)@)
            == profiles_view(old(profiles)@),
        forall|i: int| #[trigger]
            is_first_named(profiles_view(old(profiles)@), name@, i) ==> profiles_view(
                final(profiles)@,
            ) == profiles_view(old(profiles)@).update(
                i,
                ProfileView { last_used: Some(now), ..profiles_view(old(profiles)@)[i] },
            ),
{
    let ghost before = profiles_view(profiles@);
    match position_named(profiles, name) {
        None => {},
        Some(i) => {
            let mut p = profiles.remove(i);
            p.last_used = Some(now);
            profiles.insert(i, p);
            assert(profiles_view(profiles@) =~= before.update(
                i as int,
                ProfileView { last_used: Some(now), ..before[i as int] },
            ));
            assert forall|k: int| #[trigger] is_first_named(before, name@, k) implies k
                == i by {
                if k < i {
                    assert(before[k].name != name@);
                }
                if i < k {
                    assert(before[i as int].name != name@);
                }
            }
        },
    }
}

/// Import `incoming` profiles into `current`, skipping each one whose name is
/// already present (including names imported earlier in the same batch), and
/// return how many were added.
pub fn import_profiles(current: &mut Vec<Profile>, incoming: Vec<Profile>) -> (r: usize)
    ensures
        profiles_view(final(current)@) == imported(
            profiles_view(old(current)@),
            profiles_view(incoming@),
        ),
        r == final(current)@.len() - old(current)@.len(),
{
    let ghost all = profiles_view(incoming@);
    let ghost start = profiles_view(current@);
    let ghost start_len = current@.len();
    let mut imported_count: usize = 0;
    let mut incoming = incoming;
    let n = incoming.len();
    assert(all.len() == n);
    let mut k: usize = 0;
    assert(all.skip(0) =~= all);
    while incoming.len() > 0
        invariant
            k + incoming.len() == all.len(),
            all.len() <= usize::MAX,
            imported_count <= k,
            profiles_view(incoming@) == all.skip(k as int),
            imported(start, all) == imported(profiles_view(current@), all.skip(k as int)),
            imported_count == current@.len() - start_len,
            current@.len() >= start_len,
            current@.len() <= start_len + k,
        decreases incoming.len(),
    {
        let ghost rest = all.skip(k as int);
        let p = incoming.remove(0);
        proof {
            assert(p@ == rest[0]);
            assert(rest.drop_first() =~= all.skip(k + 1));
            assert(profiles_view(incoming@) =~= all.skip(k + 1));
        }
        let ghost before = profiles_view(current@);
        if position_named(current, p.name.as_str()).is_none() {
            current.push(p);
            imported_count += 1;
            assert(profiles_view(current@) =~= before.push(rest[0]));
        }
        k += 1;
    }
    assert(all.skip(k as int) =~= Seq::<ProfileView>::empty());
    imported_count
}

/// Where saved profiles live: a TOML file in the configuration directory.
pub struct ProfileStore {
    pub path: String,
}

impl ProfileStore {
    /// A store whose file is `profiles.toml` in configuration directory `dir`.
    pub fn in_dir(dir: &str) -> (s: ProfileStore)
        ensures
            s.path@ == path_joined(dir@, "profiles.toml"@),
    {
        ProfileStore { path: join_path(dir, "profiles.toml") }
    }

    /// The store in the platform configuration directory.
    pub fn new() -> (s: ProfileStore)
        ensures
            exists|dir: Seq<char>| s.path@ == path_joined(dir, "profiles.toml"@),
    {
        let dir = crate::config::config_dir();
        Self::in_dir(dir.as_str())
    }
}

} // verus!

verus! {

/// Removing a profile just added gives back the list as it was: when no
/// profile is named `p.name`, `p` is the first profile of that name in the
/// list with `p` added, and removing it restores the list.
pub proof fn lemma_remove_undoes_add(ps: Seq<ProfileView>, p: ProfileView)
    requires
        !has_named(ps, p.name),
    ensures
        is_first_named(ps.push(p), p.name, ps.len() as int),
        ps.push(p).remove(ps.len() as int) == ps,
{
    assert forall|j: int| 0 <= j < ps.len() implies ps.push(p)[j].name != p.name by {
        assert(ps.push(p)[j] == ps[j]);
    }
    assert(ps.push(p).remove(ps.len() as int) =~= ps);
}

/// Importing keeps the names of a list with unique names unique, and
/// importing the same profiles again adds nothing (it counts 0 added),
/// whatever the stored list.
pub proof fn lemma_import_unique_and_idempotent(current: Seq<ProfileView>, incoming: Seq<ProfileView>)
    ensures
        names_unique(current) ==> names_unique(imported(current, incoming)),
        imported(imported(current, incoming), incoming) == imported(current, incoming),
        imported(imported(current, incoming), incoming).len() - imported(current, incoming).len()
            == 0,
{
    if names_unique(current) {
        lemma_import_unique(current, incoming);
    }
    lemma_import_contains_names(current, incoming);
    lemma_import_nothing_new(imported(current, incoming), incoming);
}

proof fn lemma_import_unique(current: Seq<ProfileView>, incoming: Seq<ProfileView>)
    requires
        names_unique(current),
    ensures
        names_unique(imported(current, incoming)),
    decreases incoming.len(),
{
    if incoming.len() > 0 {
        let x = incoming[0];
        let next = if has_named(current, x.name) {
            current
        } else {
            current.push(x)
        };
        if !has_named(current, x.name) {
            assert forall|i: int, j: int| 0 <= i < j < next.len() implies next[i].name
                != next[j].name by {
                if j == current.len() {
                    assert(next[i] == current[i]);
                } else {
                    assert(next[i] == current[i] && next[j] == current[j]);
                }
            }
        }
        lemma_import_unique(next, incoming.drop_first());
    }
}

/// After an import every incoming name is present.
proof fn lemma_import_contains_names(current: Seq<ProfileView>, incoming: Seq<ProfileView>)
    ensures
        forall|k: int| 0 <= k < incoming.len() ==> has_named(imported(current, incoming), #[trigger] incoming[k].name),
        forall|n: Seq<char>| has_named(current, n) ==> has_named(imported(current, incoming), n),
    decreases incoming.len(),
{
    if incoming.len() > 0 {
        let x = incoming[0];
        let next = if has_named(current, x.name) {
            current
        } else {
            current.push(x)
        };
        assert forall|n: Seq<char>| has_named(current, n) implies has_named(next, n) by {
            let i = choose|i: int| 0 <= i < current.len() && current[i].name == n;
            assert(next[i] == current[i]);
        }
        assert(has_named(next, x.name)) by {
            if !has_named(current, x.name) {
                assert(next[current.len() as int] == x);
            }
        }
        lemma_import_contains_names(next, incoming.drop_first());
        assert forall|k: int| 0 <= k < incoming.len() implies has_named(
            imported(current, incoming),
            #[trigger] incoming[k].name,
        ) by {
            if k > 0 {
                assert(incoming[k] == incoming.drop_first()[k - 1]);
            }
        }
    }
}

/// Importing profiles whose names are all present changes nothing.
proof fn lemma_import_nothing_new(current: Seq<ProfileView>, incoming: Seq<ProfileView>)
    requires
        forall|k: int| 0 <= k < incoming.len() ==> has_named(current, #[trigger] incoming[k].name),
    ensures
        imported(current, incoming) == current,
    decreases incoming.len(),
{
    if incoming.len() > 0 {
        assert(has_named(current, incoming[0].name));
        assert forall|k: int| 0 <= k < incoming.drop_first().len() implies has_named(
            current,
            #[trigger] incoming.drop_first()[k].name,
        ) by {
            assert(incoming.drop_first()[k] == incoming[k + 1]);
        }
        lemma_import_nothing_new(current, incoming.drop_first());
    }
}

} // verus!
