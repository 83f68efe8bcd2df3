//! The profile-management view's state and rules: which profiles are listed
//! and in what order, the group counts, the modal dialogs and what a saved
//! form turns into.

use vstd::prelude::*;
use vstd::string::*;

use crate::profile_form::{
    form_error, split_tags, tags_of, texts, validate_form, ProfileForm, ValidationError,
};
use crate::profiles::{
    clone_opt, opt_view, profiles_view, strings_view, Authentication, Profile,
    ProfileView,
};
use crate::text::{
    chars_of, decimal, join_texts, joined, parse_unsigned, parse_unsigned_range, push_decimal,
    push_str, string_of_range, string_views, text_eq, trim_range, trim_ws,
};

verus! {

/// Sort orders of the profile list.
#[derive(Debug, Clone, Copy, PartialEq, Eq, Structural)]
pub enum SortBy {
    /// Favorites first, then by name.
    Favorite,
    /// By name.
    Name,
    /// Most recently used first, then by name.
    LastUsed,
}

impl Default for SortBy {
    fn default() -> (s: Self)
        ensures
            s == SortBy::Favorite,
    {
        SortBy::Favorite
    }
}

/// An action the profile view asks the application to take.
#[derive(Debug, Clone)]
pub enum ProfilesAction {
    /// Connect to a saved profile (opens an SSH terminal tab).
    Connect(String),
    /// Open the SFTP browser for a profile.
    OpenSftp(String),
    /// Open the tunnel panel for a profile.
    OpenTunnels(String),
    /// Open the telemetry panel for a profile.
    OpenTelemetry(String),
}

/// A profile as submitted by the editor, with its secret, for the service
/// layer to create or update.
#[derive(Debug)]
pub struct ProfileInput {
    pub original_name: Option<String>,
    pub name: String,
    pub host: String,
    pub port: u16,
    pub username: String,
    pub identity_file: Option<String>,
    pub authentication: String,
    pub accept_unknown_host_key: bool,
    pub group: Option<String>,
    pub tags: Option<Vec<String>>,
    pub favorite: bool,
    pub secret: Option<String>,
}

/// What a modal dialog is editing.
pub enum ModalKind {
    Edit {
        form: ProfileForm,
        keys: Vec<String>,
        editing: Option<Profile>,
        existing_names: Vec<String>,
    },
    Duplicate { source: String, new_name: String },
    Delete { name: String },
    Import { content: String, status: Option<String> },
}

/// The create/edit/duplicate/delete/import dialog.
pub struct ProfileModal {
    pub kind: ModalKind,
    pub error: Option<String>,
    pub testing: bool,
    pub test_result: Option<Option<String>>,
}

/// The text of a trimmed string, `None` when it is empty.
pub open spec fn non_empty_trimmed(s: Seq<char>) -> Option<Seq<char>> {
    if trim_ws(s).len() == 0 {
        None
    } else {
        Some(trim_ws(s))
    }
}

/// The editor's authentication text for a profile.
pub open spec fn auth_text(a: Authentication) -> Seq<char> {
    match a {
        Authentication::NoAuth => "none"@,
        Authentication::Password => "password"@,
        Authentication::PrivateKey => "private-key"@,
    }
}

/// The names of `all` except the one being edited.
pub open spec fn other_names(all: Seq<ProfileView>, editing: Option<Seq<char>>) -> Seq<Seq<char>>
    decreases all.len(),
{
    if all.len() == 0 {
        Seq::empty()
    } else {
        let rest = other_names(all.drop_last(), editing);
        if editing == Some(all.last().name) {
            rest
        } else {
            rest.push(all.last().name)
        }
    }
}

/// Whether a form holds a profile's fields as the editor shows them.
pub open spec fn form_of_profile(f: ProfileForm, p: ProfileView) -> bool {
    &&& opt_view(f.original_name) == Some(p.name)
    &&& f.name@ == p.name
    &&& f.host@ == p.host
    &&& f.port@ == decimal(p.port as nat)
    &&& f.username@ == p.username
    &&& f.identity_file@ == (match p.identity_file {
        Some(s) => s,
        None => Seq::empty(),
    })
    &&& f.authentication@ == auth_text(p.authentication)
    &&& f.accept_unknown_host_key == p.accept_unknown_host_key
    &&& f.group@ == (match p.group {
        Some(s) => s,
        None => Seq::empty(),
    })
    &&& f.tags@ == joined(p.tags, ", "@)
    &&& f.favorite == p.favorite
    &&& f.secret@.len() == 0
}

fn opt_or_empty(o: &Option<String>) -> (s: String)
    ensures
        s@ == (match opt_view(*o) {
            Some(t) => t,
            None => Seq::empty(),
        }),
{
    match o {
        Some(t) => t.clone(),
        None => String::new(),
    }
}

fn auth_string(a: Authentication) -> (s: String)
    ensures
        s@ == auth_text(a),
{
    match a {
        Authentication::NoAuth => String::from_str("none"),
        Authentication::Password => String::from_str("password"),
        Authentication::PrivateKey => String::from_str("private-key"),
    }
}

fn number_text(n: u16) -> (s: String)
    ensures
        s@ == decimal(n as nat),
{
    let mut s = String::new();
    push_decimal(&mut s, n as u64);
    assert(s@ =~= decimal(n as nat));
    s
}

/// The editor form showing a saved profile.
pub fn form_for_profile(p: &Profile) -> (f: ProfileForm)
    ensures
        form_of_profile(f, p@),
{
    ProfileForm {
        original_name: Some(p.name.clone()),
        name: p.name.clone(),
        host: p.host.clone(),
        port: number_text(p.port),
        username: p.username.clone(),
        identity_file: opt_or_empty(&p.identity_file),
        authentication: auth_string(p.authentication),
        accept_unknown_host_key: p.accept_unknown_host_key,
        group: opt_or_empty(&p.group),
        tags: join_texts(&p.tags, ", "),
        favorite: p.favorite,
        secret: String::new(),
    }
}

/// The names of `all` except `editing`'s.
pub fn names_except(all: &Vec<Profile>, editing: &Option<Profile>) -> (r: Vec<String>)
    ensures
        texts(r@) == other_names(
            profiles_view(all@),
            match editing {
                Some(e) => Some(e.name@),
                None => None,
            },
        ),
{
    let ghost ed = match editing {
        Some(e) => Some(e.name@),
        None => None::<Seq<char>>,
    };
    let mut r: Vec<String> = Vec::new();
    let mut i: usize = 0;
    while i < all.len()
        invariant
            0 <= i <= all.len(),
            ed == match editing {
                Some(e) => Some(e.name@),
                None => None,
            },
            texts(r@) == other_names(profiles_view(all@).take(i as int), ed),
        decreases all.len() - i,
    {
        let skip = match editing {
            Some(e) => text_eq(e.name.as_str(), all[i].name.as_str()),
            None => false,
        };
        let ghost before = texts(r@);
        proof {
            assert(profiles_view(all@).take(i as int + 1).drop_last() =~= profiles_view(all@).take(
                i as int,
            ));
        }
        if !skip {
            r.push(all[i].name.clone());
            assert(texts(r@) =~= before.push(all@[i as int]@.name));
        }
        i += 1;
    }
    assert(profiles_view(all@).take(all.len() as int) =~= profiles_view(all@));
    r
}

impl ProfileModal {
    /// The editor for a new profile (`editing` none) or for `editing`, with
    /// the identity files `keys` to pick from; names already taken are those
    /// of `all` except the edited one.
    pub fn new(editing: Option<Profile>, all: &Vec<Profile>, keys: Vec<String>) -> (m: ProfileModal)
        ensures
            m.error is None,
            !m.testing,
            m.test_result is None,
            m.kind matches ModalKind::Edit { form, keys: k, editing: e, existing_names } && {
                &&& k == keys
                &&& texts(existing_names@) == other_names(
                    profiles_view(all@),
                    match editing {
                        Some(p) => Some(p.name@),
                        None => None,
                    },
                )
                &&& match editing {
                    Some(p) => e matches Some(q) && q@ == p@ && form_of_profile(form, p@),
                    None => e is None && form.original_name is None && form.name@.len() == 0
                        && form.port@.len() == 0 && form.authentication@.len() == 0,
                }
            },
    {
        let existing_names = names_except(all, &editing);
        let form = match &editing {
            Some(p) => form_for_profile(p),
            None => ProfileForm::empty(),
        };
        ProfileModal {
            kind: ModalKind::Edit { form, keys, editing, existing_names },
            error: None,
            testing: false,
            test_result: None,
        }
    }

    /// The dialog duplicating `source` under `new_name`.
    pub fn new_duplicate(source: String, new_name: String) -> (m: ProfileModal)
        ensures
            m.kind matches ModalKind::Duplicate { source: s, new_name: n } && s == source && n
                == new_name,
            m.error is None && !m.testing && m.test_result is None,
    {
        ProfileModal {
            kind: ModalKind::Duplicate { source, new_name },
            error: None,
            testing: false,
            test_result: None,
        }
    }

    /// The dialog confirming the deletion of `name`.
    pub fn new_delete(name: String) -> (m: ProfileModal)
        ensures
            m.kind matches ModalKind::Delete { name: n } && n == name,
            m.error is None && !m.testing && m.test_result is None,
    {
        ProfileModal {
            kind: ModalKind::Delete { name },
            error: None,
            testing: false,
            test_result: None,
        }
    }

    /// The dialog importing pasted profiles, empty.
    pub fn new_import() -> (m: ProfileModal)
        ensures
            m.kind matches ModalKind::Import { content, status } && content@.len() == 0
                && status is None,
            m.error is None && !m.testing && m.test_result is None,
    {
        ProfileModal {
            kind: ModalKind::Import { content: String::new(), status: None },
            error: None,
            testing: false,
            test_result: None,
        }
    }

    /// The dialog's title.
    pub fn title(&self) -> (t: String)
        ensures
            t@ == match self.kind {
                ModalKind::Edit { editing: Some(p), .. } => "Editar "@ + p.name@,
                ModalKind::Edit { editing: None, .. } => "Nueva conexión"@,
                ModalKind::Duplicate { source, .. } => "Duplicar "@ + source@,
                ModalKind::Delete { name } => "Borrar "@ + name@,
                ModalKind::Import { .. } => "Importar config"@,
            },
    {
        match &self.kind {
            ModalKind::Edit { editing: Some(p), .. } => {
                let mut t = String::from_str("Editar ");
                push_str(&mut t, p.name.as_str());
                t
            },
            ModalKind::Edit { editing: None, .. } => String::from_str("Nueva conexión"),
            ModalKind::Duplicate { source, .. } => {
                let mut t = String::from_str("Duplicar ");
                push_str(&mut t, source.as_str());
                t
            },
            ModalKind::Delete { name } => {
                let mut t = String::from_str("Borrar ");
                push_str(&mut t, name.as_str());
                t
            },
            ModalKind::Import { .. } => String::from_str("Importar config"),
        }
    }
}

/// The name a duplicate of `name` is offered under.
pub open spec fn copy_name(name: Seq<char>) -> Seq<char> {
    name + " (copia)"@
}

fn trimmed(s: &str) -> (r: String)
    ensures
        r@ == trim_ws(s@),
{
    let v = chars_of(s);
    assert(v@.subrange(0, v.len() as int) =~= v@);
    let (a, b) = trim_range(&v, 0, v.len());
    string_of_range(&v, a, b)
}

fn non_empty_trimmed_exec(s: &str) -> (r: Option<String>)
    ensures
        opt_view(r) == non_empty_trimmed(s@),
{
    let t = trimmed(s);
    if t.as_str().is_empty() {
        None
    } else {
        Some(t)
    }
}

/// The message of a failed port in the editor's submission.
pub const INVALID_PORT: &'static str = "puerto inválido";

/// Whether an authentication text asks for a secret.
pub open spec fn needs_secret(auth: Seq<char>) -> bool {
    auth == "password"@ || auth == "private-key"@
}

/// What a valid form is submitted as: trimmed texts, the port as a number,
/// the identity file only for private-key authentication, the group only
/// when given, the split tags, the edited profile's favorite flag, and the
/// secret only for authentications that use one.
pub open spec fn input_of(
    f: ProfileForm,
    editing: Option<ProfileView>,
    i: ProfileInput,
) -> bool {
    &&& opt_view(i.original_name) == (match editing {
        Some(p) => Some(p.name),
        None => opt_view(f.original_name),
    })
    &&& i.name@ == trim_ws(f.name@)
    &&& i.host@ == trim_ws(f.host@)
    &&& parse_unsigned(trim_ws(f.port@), 65535) == Some(i.port as nat)
    &&& i.username@ == trim_ws(f.username@)
    &&& opt_view(i.identity_file) == (if f.authentication@ == "private-key"@ {
        non_empty_trimmed(f.identity_file@)
    } else {
        None
    })
    &&& i.authentication@ == f.authentication@
    &&& i.accept_unknown_host_key == f.accept_unknown_host_key
    &&& opt_view(i.group) == non_empty_trimmed(f.group@)
    &&& i.tags matches Some(t) && texts(t@) == tags_of(f.tags@)
    &&& i.favorite == (match editing {
        Some(p) => p.favorite,
        None => false,
    })
    &&& opt_view(i.secret) == (if needs_secret(f.authentication@) {
        Some(f.secret@)
    } else {
        None
    })
}

/// The view of an optional profile.
pub open spec fn editing_view(e: Option<&Profile>) -> Option<ProfileView> {
    match e {
        Some(p) => Some(p@),
        None => None,
    }
}

/// Builds the service input from a form; the port must read as a `u16`.
pub fn build_input(form: &ProfileForm, editing: Option<&Profile>) -> (r: Result<
    ProfileInput,
    String,
>)
    ensures
        parse_unsigned(trim_ws(form.port@), 65535) is None ==> (r matches Err(e) && e@
            == INVALID_PORT@),
        parse_unsigned(trim_ws(form.port@), 65535) is Some ==> (r matches Ok(i) && input_of(
            *form,
            editing_view(editing),
            i,
        )),
{
    proof {
        reveal_strlit("password");
        reveal_strlit("private-key");
    }
    let is_password = text_eq(form.authentication.as_str(), "password");
    let is_key = text_eq(form.authentication.as_str(), "private-key");
    let pv = chars_of(form.port.as_str());
    assert(pv@.subrange(0, pv.len() as int) =~= pv@);
    let (pa, pb) = trim_range(&pv, 0, pv.len());
    let port = match parse_unsigned_range(&pv, pa, pb, 65535) {
        Some(p) => p as u16,
        None => {
            return Err(String::from_str(INVALID_PORT));
        },
    };
    let original_name = match editing {
        Some(p) => Some(p.name.clone()),
        None => clone_opt(&form.original_name),
    };
    Ok(
        ProfileInput {
            original_name,
            name: trimmed(form.name.as_str()),
            host: trimmed(form.host.as_str()),
            port,
            username: trimmed(form.username.as_str()),
            identity_file: if is_key {
                non_empty_trimmed_exec(form.identity_file.as_str())
            } else {
                None
            },
            authentication: form.authentication.clone(),
            accept_unknown_host_key: form.accept_unknown_host_key,
            group: non_empty_trimmed_exec(form.group.as_str()),
            tags: Some(split_tags(form.tags.as_str())),
            favorite: match editing {
                Some(p) => p.favorite,
                None => false,
            },
            secret: if is_password || is_key {
                Some(form.secret.clone())
            } else {
                None
            },
        },
    )
}

/// What saving or testing the editor's form submits: the validation message
/// of the first broken rule, the port message, or the input.
pub fn prepare_input(
    form: &ProfileForm,
    existing_names: &Vec<String>,
    editing: Option<&Profile>,
) -> (r: Result<ProfileInput, String>)
    ensures
        match form_error(form.name@, form.host@, form.port@, form.username@, texts(existing_names@)) {
            Some(msg) => r matches Err(e) && e@ == msg,
            None => if parse_unsigned(trim_ws(form.port@), 65535) is None {
                r matches Err(e) && e@ == INVALID_PORT@
            } else {
                r matches Ok(i) && input_of(*form, editing_view(editing), i)
            },
        },
{
    match validate_form(form, existing_names) {
        Err(ValidationError(msg)) => Err(msg),
        Ok(()) => build_input(form, editing),
    }
}

/// The message after testing a connection.
pub fn test_result_message(result: Result<(), String>) -> (m: String)
    ensures
        match result {
            Ok(()) => m@ == "Conexión correcta."@,
            Err(e) => m@ == "No se pudo conectar: "@ + e@,
        },
{
    match result {
        Ok(()) => String::from_str("Conexión correcta."),
        Err(e) => {
            let mut m = String::from_str("No se pudo conectar: ");
            push_str(&mut m, e.as_str());
            m
        },
    }
}

/// The status line after importing pasted profiles.
pub fn import_status_message(result: Result<usize, String>) -> (m: String)
    ensures
        match result {
            Ok(0) => m@ == "Nada que importar: todos los perfiles ya existen."@,
            Ok(n) => m@ == decimal(n as nat) + " perfil(es) importados."@,
            Err(e) => m@ == "Error al importar: "@ + e@,
        },
{
    match result {
        Ok(0) => String::from_str("Nada que importar: todos los perfiles ya existen."),
        Ok(n) => {
            let mut m = String::new();
            push_decimal(&mut m, n as u64);
            push_str(&mut m, " perfil(es) importados.");
            m
        },
        Err(e) => {
            let mut m = String::from_str("Error al importar: ");
            push_str(&mut m, e.as_str());
            m
        },
    }
}

/// State of the profile-list view.
pub struct ProfilesView {
    pub query: String,
    pub group: String,
    pub sort: SortBy,
    pub profiles: Vec<Profile>,
    pub loaded: bool,
    pub error: Option<String>,
    pub status: Option<String>,
    pub modal: Option<ProfileModal>,
}

/// The group a profile is counted under: its group, or the empty text.
pub open spec fn group_key(p: ProfileView) -> Seq<char> {
    match p.group {
        Some(g) => g,
        None => Seq::empty(),
    }
}

/// How many of `ps` are counted under group `k`.
pub open spec fn group_count(ps: Seq<ProfileView>, k: Seq<char>) -> nat
    decreases ps.len(),
{
    if ps.len() == 0 {
        0
    } else {
        group_count(ps.drop_last(), k) + if group_key(ps.last()) == k {
            1nat
        } else {
            0nat
        }
    }
}

/// The group counts: one entry per group that some profile is in, in
/// ascending order of the group name (`str` order), each with how many
/// profiles are in it.
pub open spec fn group_counts_of(ps: Seq<ProfileView>, out: Seq<(Seq<char>, nat)>) -> bool {
    &&& forall|i: int, j: int| 0 <= i < j < out.len() ==> crate::text::text_less(out[i].0, out[j].0)
    &&& forall|i: int| 0 <= i < out.len() ==> #[trigger] out[i].1 == group_count(ps, out[i].0)
    &&& forall|k: Seq<char>|
        group_count(ps, k) > 0 <==> exists|i: int| 0 <= i < out.len() && #[trigger] out[i].0 == k
}

/// The value of a list of group counts.
pub open spec fn counts_view(v: Seq<(String, usize)>) -> Seq<(Seq<char>, nat)> {
    v.map_values(|e: (String, usize)| (e.0@, e.1 as nat))
}

proof fn lemma_group_count_bound(ps: Seq<ProfileView>, k: Seq<char>)
    ensures
        group_count(ps, k) <= ps.len(),
    decreases ps.len(),
{
    if ps.len() > 0 {
        lemma_group_count_bound(ps.drop_last(), k);
    }
}

fn group_of(p: &Profile) -> (k: String)
    ensures
        k@ == group_key(p@),
{
    match &p.group {
        Some(g) => g.clone(),
        None => String::new(),
    }
}

impl ProfilesView {
    /// An empty view: no query, no group filter, favorites first, nothing
    /// loaded.
    pub fn new() -> (v: ProfilesView)
        ensures
            v.query@.len() == 0,
            v.group@.len() == 0,
            v.sort == SortBy::Favorite,
            v.profiles@.len() == 0,
            !v.loaded,
            v.error is None,
            v.status is None,
            v.modal is None,
    {
        ProfilesView {
            query: String::new(),
            group: String::new(),
            sort: SortBy::Favorite,
            profiles: Vec::new(),
            loaded: false,
            error: None,
            status: None,
            modal: None,
        }
    }

    /// The groups of the loaded profiles with their sizes, in ascending
    /// order of name; profiles without a group count under the empty name.
    #[verifier::rlimit(40)]
    pub fn groups(&self) -> (r: Vec<(String, usize)>)
        ensures
            group_counts_of(profiles_view(self.profiles@), counts_view(r@)),
    {
        let ghost all = profiles_view(self.profiles@);
        let mut out: Vec<(String, usize)> = Vec::new();
        let mut i: usize = 0;
        while i < self.profiles.len()
            invariant
                0 <= i <= self.profiles.len(),
                all == profiles_view(self.profiles@),
                group_counts_of(all.take(i as int), counts_view(out@)),
                forall|m: int| 0 <= m < out@.len() ==> out@[m].1 <= i,
            decreases self.profiles.len() - i,
        {
            let key = group_of(&self.profiles[i]);
            let ghost before = all.take(i as int);
            let ghost after = all.take(i as int + 1);
            proof {
                assert(after.drop_last() =~= before);
                assert(after.last() == all[i as int]);
                assert forall|k: Seq<char>| #[trigger] group_count(after, k) == group_count(
                    before,
                    k,
                ) + if k == key@ {
                    1nat
                } else {
                    0nat
                } by {}
            }
            let ghost old_out = counts_view(out@);
            let ghost out_before = out@;
            let mut j: usize = 0;
            while j < out.len() && crate::text::text_less_exec(out[j].0.as_str(), key.as_str())
                invariant
                    0 <= j <= out.len(),
                    out@ == out_before,
                    forall|m: int| 0 <= m < j ==> crate::text::text_less(out@[m].0@, key@),
                decreases out.len() - j,
            {
                j += 1;
            }
            let found = j < out.len() && text_eq(out[j].0.as_str(), key.as_str());
            if found {
                let c = out[j].1;
                proof {
                    lemma_group_count_bound(before, key@);
                    assert(old_out[j as int] == (out_before[j as int].0@, out_before[j as int].1 as nat));
                    assert(old_out[j as int].0 == key@);
                    assert(old_out[j as int].1 == group_count(before, old_out[j as int].0));
                }
                let entry = (out[j].0.clone(), c + 1);
                out.set(j, entry);
                proof {
                    let nv = counts_view(out@);
                    assert(nv =~= old_out.update(j as int, (key@, (c + 1) as nat)));
                    assert forall|m: int| 0 <= m < nv.len() implies #[trigger] nv[m].1
                        == group_count(after, nv[m].0) by {
                        if m != j {
                            assert(nv[m] == old_out[m]);
                            assert(old_out[m].1 == group_count(before, old_out[m].0));
                        }
                        if m != j && old_out[m].0 == key@ {
                            if m < j {
                                assert(crate::text::text_less(old_out[m].0, old_out[j as int].0));
                            } else {
                                assert(crate::text::text_less(old_out[j as int].0, old_out[m].0));
                            }
                            crate::text::lemma_text_less_irreflexive(key@);
                        }
                    }
                    assert forall|k: Seq<char>|
                        group_count(after, k) > 0 <==> exists|m: int|
                            0 <= m < nv.len() && #[trigger] nv[m].0 == k by {
                        if group_count(after, k) > 0 {
                            if k != key@ {
                                let m = choose|m: int| 0 <= m < old_out.len() && old_out[m].0 == k;
                                assert(nv[m].0 == k);
                            } else {
                                assert(nv[j as int].0 == k);
                            }
                        }
                        if exists|m: int| 0 <= m < nv.len() && #[trigger] nv[m].0 == k {
                            let m = choose|m: int| 0 <= m < nv.len() && nv[m].0 == k;
                            assert(old_out[m].0 == k);
                        }
                    }
                }
            } else {
                proof {
                    // the key is not among the entries
                    assert forall|m: int| 0 <= m < old_out.len() implies old_out[m].0 != key@ by {
                        if m < j {
                            crate::text::lemma_text_less_irreflexive(key@);
                        } else {
                            crate::text::lemma_text_less_total(out@[j as int].0@, key@);
                            if m > j {
                                crate::text::lemma_text_less_transitive(
                                    key@,
                                    old_out[j as int].0,
                                    old_out[m].0,
                                );
                            }
                            crate::text::lemma_text_less_irreflexive(key@);
                        }
                    }
                    assert(group_count(before, key@) == 0);
                }
                out.insert(j, (key, 1));
                proof {
                    let nv = counts_view(out@);
                    assert(nv =~= old_out.insert(j as int, (key@, 1nat)));
                    assert forall|m: int| 0 <= m < nv.len() implies #[trigger] nv[m].1
                        == group_count(after, nv[m].0) by {
                        if m < j {
                            assert(nv[m] == old_out[m]);
                        } else if m > j {
                            assert(nv[m] == old_out[m - 1]);
                        }
                    }
                    assert forall|a: int, b: int| 0 <= a < b < nv.len() implies crate::text::text_less(
                        nv[a].0,
                        nv[b].0,
                    ) by {
                        if b == j {
                            assert(crate::text::text_less(old_out[a].0, key@));
                        } else if a == j {
                            crate::text::lemma_text_less_total(old_out[j as int].0, key@);
                            if b - 1 > j {
                                crate::text::lemma_text_less_transitive(
                                    key@,
                                    old_out[j as int].0,
                                    old_out[b - 1].0,
                                );
                            }
                        } else if a < j && b > j {
                            assert(crate::text::text_less(old_out[a].0, old_out[b - 1].0));
                        }
                    }
                    assert forall|k: Seq<char>|
                        group_count(after, k) > 0 <==> exists|m: int|
                            0 <= m < nv.len() && #[trigger] nv[m].0 == k by {
                        if group_count(after, k) > 0 {
                            if k != key@ {
                                let m = choose|m: int| 0 <= m < old_out.len() && old_out[m].0 == k;
                                if m < j {
                                    assert(nv[m].0 == k);
                                } else {
                                    assert(nv[m + 1].0 == k);
                                }
                            } else {
                                assert(nv[j as int].0 == k);
                            }
                        }
                        if exists|m: int| 0 <= m < nv.len() && #[trigger] nv[m].0 == k {
                            let m = choose|m: int| 0 <= m < nv.len() && nv[m].0 == k;
                            if m < j {
                                assert(old_out[m].0 == k);
                            } else if m > j {
                                assert(old_out[m - 1].0 == k);
                            }
                        }
                    }
                }
            }
            i += 1;
        }
        proof {
            assert(all.take(self.profiles.len() as int) =~= all);
        }
        out
    }

    /// Opens the dialog duplicating `name` as `<name> (copia)`.
    pub fn open_duplicate(&mut self, name: &str)
        ensures
            final(self).modal matches Some(m) && m.kind matches ModalKind::Duplicate {
                source,
                new_name,
            } && source@ == name@ && new_name@ == copy_name(name@),
            final(self).profiles == old(self).profiles,
            final(self).query == old(self).query,
            final(self).group == old(self).group,
            final(self).sort == old(self).sort,
    {
        let mut new_name = name.to_owned();
        push_str(&mut new_name, " (copia)");
        self.modal = Some(ProfileModal::new_duplicate(name.to_owned(), new_name));
    }

    /// Opens the dialog confirming the deletion of `name`.
    pub fn open_delete(&mut self, name: &str)
        ensures
            final(self).modal matches Some(m) && m.kind matches ModalKind::Delete { name: n }
                && n@ == name@,
            final(self).profiles == old(self).profiles,
            final(self).query == old(self).query,
            final(self).group == old(self).group,
            final(self).sort == old(self).sort,
    {
        self.modal = Some(ProfileModal::new_delete(name.to_owned()));
    }

    /// Takes the outcome of loading the profiles: the list and no error on
    /// success, the error (and the list as it was) on failure; either way the
    /// view counts as loaded.
    pub fn apply_loaded(&mut self, loaded: Result<Vec<Profile>, String>)
        ensures
            final(self).loaded,
            match loaded {
                Ok(ps) => final(self).profiles@ == ps@ && final(self).error is None,
                Err(e) => final(self).profiles@ == old(self).profiles@ && final(self).error
                    == Some(e),
            },
            final(self).query == old(self).query,
            final(self).group == old(self).group,
            final(self).sort == old(self).sort,
            final(self).status == old(self).status,
    {
        match loaded {
            Ok(ps) => {
                self.profiles = ps;
                self.error = None;
            },
            Err(e) => {
                self.error = Some(e);
            },
        }
        self.loaded = true;
    }
}

/// The group filter that shows every profile.
pub const ALL_GROUPS: &'static str = "__all__";

/// The group filter that shows the profiles without a group.
pub const UNGROUPED: &'static str = "__ungrouped__";

/// Whether a profile passes the group filter.
pub open spec fn passes_group(p: ProfileView, group: Seq<char>) -> bool {
    if group == UNGROUPED@ {
        p.group is None
    } else if group != ALL_GROUPS@ {
        p.group == Some(group)
    } else {
        true
    }
}

/// The text a query is searched in: name, host, user, group and tags,
/// separated by spaces.
pub open spec fn haystack(p: ProfileView) -> Seq<char> {
    p.name + " "@ + p.host + " "@ + p.username + " "@ + group_key(p) + " "@ + joined(p.tags, " "@)
}

/// Whether a profile matches a lowercase query (an empty query matches all).
pub open spec fn matches_needle(p: ProfileView, needle: Seq<char>) -> bool {
    needle.len() == 0 || crate::text::contains_text(crate::text::lowercase(haystack(p)), needle)
}

/// Whether a profile is listed under a group filter and a lowercase query.
pub open spec fn is_listed(p: ProfileView, group: Seq<char>, needle: Seq<char>) -> bool {
    passes_group(p, group) && matches_needle(p, needle)
}

/// The listed profiles, in their saved order.
pub open spec fn listed(ps: Seq<ProfileView>, group: Seq<char>, needle: Seq<char>) -> Seq<ProfileView> {
    ps.filter(|p: ProfileView| is_listed(p, group, needle))
}

/// The last use of a profile, `0` when never used.
pub open spec fn last_used_or_zero(p: ProfileView) -> u64 {
    match p.last_used {
        Some(t) => t,
        None => 0,
    }
}

/// Whether `a` comes strictly before `b` in a sort order.
pub open spec fn sorts_before(a: ProfileView, b: ProfileView, sort: SortBy) -> bool {
    let by_name = crate::text::text_less(a.name, b.name);
    match sort {
        SortBy::Name => by_name,
        SortBy::LastUsed => last_used_or_zero(b) < last_used_or_zero(a) || (last_used_or_zero(a)
            == last_used_or_zero(b) && by_name),
        SortBy::Favorite => (a.favorite && !b.favorite) || (a.favorite == b.favorite && by_name),
    }
}

/// `x` inserted into `s` before the first element it sorts strictly before
/// (after every element it does not).
pub open spec fn insert_in_order(s: Seq<ProfileView>, x: ProfileView, sort: SortBy) -> Seq<
    ProfileView,
>
    decreases s.len(),
{
    if s.len() == 0 {
        seq![x]
    } else if sorts_before(x, s[0], sort) {
        seq![x] + s
    } else {
        seq![s[0]] + insert_in_order(s.drop_first(), x, sort)
    }
}

/// The stable sort of `s`: elements in order, and equal ones in the order
/// they came.
pub open spec fn stable_sorted(s: Seq<ProfileView>, sort: SortBy) -> Seq<ProfileView>
    decreases s.len(),
{
    if s.len() == 0 {
        Seq::empty()
    } else {
        insert_in_order(stable_sorted(s.drop_last(), sort), s.last(), sort)
    }
}

proof fn lemma_insert_at(s: Seq<ProfileView>, x: ProfileView, sort: SortBy, j: int)
    requires
        0 <= j <= s.len(),
        forall|m: int| 0 <= m < j ==> !sorts_before(x, #[trigger] s[m], sort),
        j == s.len() || sorts_before(x, s[j], sort),
    ensures
        insert_in_order(s, x, sort) == s.insert(j, x),
    decreases j,
{
    if s.len() == 0 {
        assert(s.insert(j, x) =~= seq![x]);
    } else if j == 0 {
        assert(s.insert(0, x) =~= seq![x] + s);
    } else {
        assert(!sorts_before(x, s[0], sort));
        let t = s.drop_first();
        assert forall|m: int| 0 <= m < j - 1 implies !sorts_before(x, #[trigger] t[m], sort) by {
            assert(t[m] == s[m + 1]);
        }
        lemma_insert_at(t, x, sort, j - 1);
        assert(seq![s[0]] + t.insert(j - 1, x) =~= s.insert(j, x));
    }
}

fn last_used_exec(p: &Profile) -> (t: u64)
    ensures
        t == last_used_or_zero(p@),
{
    match p.last_used {
        Some(t) => t,
        None => 0,
    }
}

/// Whether `a` comes strictly before `b` in `sort` order.
pub fn sorts_before_exec(a: &Profile, b: &Profile, sort: SortBy) -> (r: bool)
    ensures
        r == sorts_before(a@, b@, sort),
{
    let by_name = crate::text::text_less_exec(a.name.as_str(), b.name.as_str());
    match sort {
        SortBy::Name => by_name,
        SortBy::LastUsed => {
            let la = last_used_exec(a);
            let lb = last_used_exec(b);
            lb < la || (la == lb && by_name)
        },
        SortBy::Favorite => (a.favorite && !b.favorite) || (a.favorite == b.favorite && by_name),
    }
}

fn haystack_exec(p: &Profile) -> (h: String)
    ensures
        h@ == haystack(p@),
{
    let mut h = p.name.clone();
    push_str(&mut h, " ");
    push_str(&mut h, p.host.as_str());
    push_str(&mut h, " ");
    push_str(&mut h, p.username.as_str());
    push_str(&mut h, " ");
    let g = group_of(p);
    push_str(&mut h, g.as_str());
    push_str(&mut h, " ");
    let tags = join_texts(&p.tags, " ");
    push_str(&mut h, tags.as_str());
    proof {
        assert(string_views(p.tags@) =~= strings_view(p.tags@));
    }
    h
}

fn passes_group_exec(p: &Profile, group: &str) -> (r: bool)
    ensures
        r == passes_group(p@, group@),
{
    if text_eq(group, UNGROUPED) {
        p.group.is_none()
    } else if !text_eq(group, ALL_GROUPS) {
        match &p.group {
            Some(g) => text_eq(g.as_str(), group),
            None => false,
        }
    } else {
        true
    }
}

impl ProfilesView {
    /// The profiles shown: those passing the group filter (`__all__` for
    /// every group, `__ungrouped__` for none) whose name, host, user, group
    /// or tags contain the trimmed query ignoring case, stably sorted by the
    /// chosen order (favorites first or most recent first, then by name; or
    /// by name).
    pub fn ordered(&self) -> (r: Vec<Profile>)
        ensures
            profiles_view(r@) == stable_sorted(
                listed(
                    profiles_view(self.profiles@),
                    self.group@,
                    crate::text::lowercase(trim_ws(self.query@)),
                ),
                self.sort,
            ),
    {
        let ghost all = profiles_view(self.profiles@);
        let q = trimmed(self.query.as_str());
        let needle = crate::text::to_lowercase(q.as_str());
        let ghost pred = |p: ProfileView| is_listed(p, self.group@, needle@);
        proof {
            reveal(Seq::filter);
            assert(all.take(0).filter(pred) =~= Seq::<ProfileView>::empty());
        }
        let mut kept: Vec<Profile> = Vec::new();
        let mut i: usize = 0;
        while i < self.profiles.len()
            invariant
                0 <= i <= self.profiles.len(),
                all == profiles_view(self.profiles@),
                needle@ == crate::text::lowercase(trim_ws(self.query@)),
                pred == (|p: ProfileView| is_listed(p, self.group@, needle@)),
                profiles_view(kept@) == all.take(i as int).filter(pred),
            decreases self.profiles.len() - i,
        {
            let p = &self.profiles[i];
            let mut keep = passes_group_exec(p, self.group.as_str());
            if keep && !needle.as_str().is_empty() {
                let hay = haystack_exec(p);
                let low = crate::text::to_lowercase(hay.as_str());
                keep = crate::text::text_contains(low.as_str(), needle.as_str());
            }
            proof {
                reveal(Seq::filter);
                let t1 = all.take(i as int + 1);
                assert(t1.drop_last() =~= all.take(i as int));
                assert(t1.last() == p@);
                assert(keep == pred(p@));
                assert(t1.filter(pred) == (if pred(t1.last()) {
                    t1.drop_last().filter(pred).push(t1.last())
                } else {
                    t1.drop_last().filter(pred)
                }));
            }
            if keep {
                let ghost before = profiles_view(kept@);
                kept.push(p.duplicate());
                assert(profiles_view(kept@) =~= before.push(p@));
            }
            i += 1;
        }
        proof {
            assert(all.take(all.len() as int) =~= all);
        }
        let ghost filtered = profiles_view(kept@);
        let mut out: Vec<Profile> = Vec::new();
        let mut k: usize = 0;
        while k < kept.len()
            invariant
                0 <= k <= kept.len(),
                filtered == profiles_view(kept@),
                profiles_view(out@) == stable_sorted(filtered.take(k as int), self.sort),
            decreases kept.len() - k,
        {
            let x = &kept[k];
            let ghost sorted_before = profiles_view(out@);
            let mut j: usize = 0;
            while j < out.len() && !sorts_before_exec(x, &out[j], self.sort)
                invariant
                    0 <= j <= out.len(),
                    profiles_view(out@) == sorted_before,
                    forall|m: int| 0 <= m < j ==> !sorts_before(x@, #[trigger] sorted_before[m], self.sort),
                decreases out.len() - j,
            {
                j += 1;
            }
            proof {
                lemma_insert_at(sorted_before, x@, self.sort, j as int);
                assert(filtered.take(k as int + 1).drop_last() =~= filtered.take(k as int));
                assert(filtered.take(k as int + 1).last() == x@);
            }
            out.insert(j, x.duplicate());
            assert(profiles_view(out@) =~= sorted_before.insert(j as int, x@));
            k += 1;
        }
        proof {
            assert(filtered.take(filtered.len() as int) =~= filtered);
        }
        out
    }
}

/// No later element of `s` sorts strictly before an earlier one.
pub open spec fn is_sorted_by(s: Seq<ProfileView>, sort: SortBy) -> bool {
    forall|i: int, j: int| 0 <= i < j < s.len() ==> !sorts_before(#[trigger] s[j], #[trigger] s[i], sort)
}

/// Every sort order is a strict order: never both ways, and transitive.
pub proof fn lemma_sorts_before_strict(a: ProfileView, b: ProfileView, c: ProfileView, sort: SortBy)
    ensures
        sorts_before(a, b, sort) ==> !sorts_before(b, a, sort),
        sorts_before(a, b, sort) && sorts_before(b, c, sort) ==> sorts_before(a, c, sort),
{
    if crate::text::text_less(a.name, b.name) {
        crate::text::lemma_text_less_asymmetric(a.name, b.name);
    }
    if crate::text::text_less(a.name, b.name) && crate::text::text_less(b.name, c.name) {
        crate::text::lemma_text_less_transitive(a.name, b.name, c.name);
    }
}

proof fn lemma_insert_position(s: Seq<ProfileView>, x: ProfileView, sort: SortBy) -> (j: int)
    ensures
        0 <= j <= s.len(),
        forall|m: int| 0 <= m < j ==> !sorts_before(x, #[trigger] s[m], sort),
        j == s.len() || sorts_before(x, s[j], sort),
        insert_in_order(s, x, sort) == s.insert(j, x),
    decreases s.len(),
{
    if s.len() == 0 {
        assert(s.insert(0, x) =~= seq![x]);
        0
    } else if sorts_before(x, s[0], sort) {
        assert(s.insert(0, x) =~= seq![x] + s);
        0
    } else {
        let t = s.drop_first();
        let k = lemma_insert_position(t, x, sort);
        assert forall|m: int| 0 <= m < k + 1 implies !sorts_before(x, #[trigger] s[m], sort) by {
            if m > 0 {
                assert(s[m] == t[m - 1]);
            }
        }
        assert(seq![s[0]] + t.insert(k, x) =~= s.insert(k + 1, x));
        k + 1
    }
}

/// Inserting in order keeps a sorted list sorted and adds exactly `x`.
pub proof fn lemma_insert_in_order_sorted(s: Seq<ProfileView>, x: ProfileView, sort: SortBy)
    requires
        is_sorted_by(s, sort),
    ensures
        is_sorted_by(insert_in_order(s, x, sort), sort),
        insert_in_order(s, x, sort).to_multiset() == s.to_multiset().insert(x),
{
    broadcast use vstd::seq_lib::to_multiset_insert;

    let j = lemma_insert_position(s, x, sort);
    let r = s.insert(j, x);
    assert forall|a: int, b: int| 0 <= a < b < r.len() implies !sorts_before(
        #[trigger] r[b],
        #[trigger] r[a],
        sort,
    ) by {
        if b == j {
            assert(r[a] == s[a]);
        } else if a == j {
            assert(r[b] == s[b - 1]);
            lemma_sorts_before_strict(x, s[j], x, sort);
            if b - 1 > j {
                lemma_sorts_before_strict(s[b - 1], x, s[j], sort);
            }
        } else {
            let sa = if a < j { a } else { a - 1 };
            let sb = if b < j { b } else { b - 1 };
            assert(r[a] == s[sa]);
            assert(r[b] == s[sb]);
        }
    }
}

/// The stable sort of a list is sorted and holds exactly the list's
/// elements.
pub proof fn lemma_stable_sorted_is_sorted_permutation(s: Seq<ProfileView>, sort: SortBy)
    ensures
        is_sorted_by(stable_sorted(s, sort), sort),
        stable_sorted(s, sort).to_multiset() == s.to_multiset(),
    decreases s.len(),
{
    broadcast use vstd::seq_lib::to_multiset_build;

    if s.len() == 0 {
        assert(s =~= Seq::<ProfileView>::empty());
    } else {
        lemma_stable_sorted_is_sorted_permutation(s.drop_last(), sort);
        lemma_insert_in_order_sorted(stable_sorted(s.drop_last(), sort), s.last(), sort);
        assert(s =~= s.drop_last().push(s.last()));
        vstd::seq_lib::to_multiset_build(s.drop_last(), s.last());
    }
}

} // verus!

verus! {

/// What becomes of the open modal after a frame.
#[derive(Debug, Clone, Copy, PartialEq, Eq, Structural)]
pub enum ModalStep {
    /// It stays open.
    Keep,
    /// It closes; the list is reloaded when something was saved, deleted or
    /// imported.
    Close { reload: bool },
}

/// The modal closes when its work is done or its window was closed, and
/// the list is reloaded only if something changed.
pub fn modal_step(done: bool, open: bool, changed: bool) -> (s: ModalStep)
    ensures
        s == (if done || !open {
            ModalStep::Close { reload: changed }
        } else {
            ModalStep::Keep
        }),
{
    if done || !open {
        ModalStep::Close { reload: changed }
    } else {
        ModalStep::Keep
    }
}

} // verus!

verus! {

proof fn lemma_joined_contains(parts: Seq<Seq<char>>, sep: Seq<char>, k: int)
    requires
        0 <= k < parts.len(),
    ensures
        crate::text::contains_text(joined(parts, sep), parts[k]),
    decreases parts.len(),
{
    let j = joined(parts, sep);
    let n = parts[k].len() as int;
    if parts.len() == 1 {
        assert(j.subrange(0, n) =~= parts[k]);
        assert(crate::text::occurs_at(j, parts[k], 0));
    } else {
        let front = joined(parts.drop_last(), sep);
        assert(j == front + sep + parts.last());
        if k == parts.len() - 1 {
            let i = (front.len() + sep.len()) as int;
            assert(j.subrange(i, i + n) =~= parts[k]);
            assert(crate::text::occurs_at(j, parts[k], i));
        } else {
            lemma_joined_contains(parts.drop_last(), sep, k);
            assert(parts.drop_last()[k] == parts[k]);
            let i = choose|i: int| crate::text::occurs_at(front, parts[k], i);
            assert(j.subrange(i, i + n) =~= front.subrange(i, i + n));
            assert(crate::text::occurs_at(j, parts[k], i));
        }
    }
}

proof fn lemma_occurs_in_sum(a: Seq<char>, x: Seq<char>, b: Seq<char>)
    ensures
        crate::text::occurs_at(a + x + b, x, a.len() as int),
{
    assert((a + x + b).subrange(a.len() as int, (a.len() + x.len()) as int) =~= x);
}

/// The text a query is searched in holds the profile's name, host, user
/// name, group (when it has one) and every tag.
pub proof fn lemma_haystack_holds_every_field(p: ProfileView)
    ensures
        crate::text::contains_text(haystack(p), p.name),
        crate::text::contains_text(haystack(p), p.host),
        crate::text::contains_text(haystack(p), p.username),
        p.group matches Some(g) ==> crate::text::contains_text(haystack(p), g),
        forall|k: int|
            0 <= k < p.tags.len() ==> crate::text::contains_text(haystack(p), #[trigger] p.tags[k]),
{
    let sp = " "@;
    let h = haystack(p);
    let tags = joined(p.tags, sp);
    let g = group_key(p);
    lemma_occurs_in_sum(Seq::empty(), p.name, sp + p.host + sp + p.username + sp + g + sp + tags);
    assert(Seq::<char>::empty() + p.name + (sp + p.host + sp + p.username + sp + g + sp + tags) =~= h);
    lemma_occurs_in_sum(p.name + sp, p.host, sp + p.username + sp + g + sp + tags);
    assert(p.name + sp + p.host + (sp + p.username + sp + g + sp + tags) =~= h);
    lemma_occurs_in_sum(p.name + sp + p.host + sp, p.username, sp + g + sp + tags);
    assert(p.name + sp + p.host + sp + p.username + (sp + g + sp + tags) =~= h);
    lemma_occurs_in_sum(p.name + sp + p.host + sp + p.username + sp, g, sp + tags);
    assert(p.name + sp + p.host + sp + p.username + sp + g + (sp + tags) =~= h);
    assert forall|k: int| 0 <= k < p.tags.len() implies crate::text::contains_text(
        h,
        #[trigger] p.tags[k],
    ) by {
        lemma_joined_contains(p.tags, sp, k);
        let pre = p.name + sp + p.host + sp + p.username + sp + g + sp;
        assert(pre + tags =~= h);
        let i = choose|i: int| crate::text::occurs_at(tags, p.tags[k], i);
        let n = p.tags[k].len() as int;
        assert(h.subrange(pre.len() + i, pre.len() + i + n) =~= tags.subrange(i, i + n));
        assert(crate::text::occurs_at(h, p.tags[k], pre.len() + i));
    }
}

/// The shown profiles are exactly the saved ones that pass the group filter
/// and, for a non-empty query, whose lowercased searched text (name, host,
/// user, group, tags) contains the query; the order does not change which.
pub proof fn lemma_shown_profiles_are_the_matches(
    ps: Seq<ProfileView>,
    group: Seq<char>,
    needle: Seq<char>,
    sort: SortBy,
    p: ProfileView,
)
    ensures
        stable_sorted(listed(ps, group, needle), sort).contains(p) <==> (ps.contains(p)
            && passes_group(p, group) && (needle.len() == 0 || crate::text::contains_text(
            crate::text::lowercase(haystack(p)),
            needle,
        ))),
{
    broadcast use vstd::seq_lib::group_to_multiset_ensures;

    let pred = |q: ProfileView| is_listed(q, group, needle);
    let l = listed(ps, group, needle);
    lemma_stable_sorted_is_sorted_permutation(l, sort);
    assert(stable_sorted(l, sort).contains(p) <==> l.contains(p)) by {
        assert(stable_sorted(l, sort).to_multiset().count(p) == l.to_multiset().count(p));
    }
    ps.filter_lemma(pred);
    if l.contains(p) {
        let i = choose|i: int| 0 <= i < l.len() && l[i] == p;
        assert(pred(l[i]));
        ps.lemma_filter_contains_rev(pred, p);
    }
    if ps.contains(p) && pred(p) {
        let i = choose|i: int| 0 <= i < ps.len() && ps[i] == p;
        assert(pred(ps[i]));
        assert(l.contains(ps[i]));
    }
}

} // verus!
