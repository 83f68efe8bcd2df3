//! The terminal client's state: the list selection, the "new connection"
//! form and the bytes a key press sends to a remote shell.

use vstd::prelude::*;
use vstd::string::*;
use vstd::utf8::*;

use vstd::arithmetic::div_mod::{
    lemma_add_mod_noop_right, lemma_mod_add_multiples_vanish, lemma_mod_self_0, lemma_small_mod,
};

use crate::cli_profiles::Authentication;
use crate::text::{chars_of, parse_unsigned, parse_unsigned_range, push_char, text_eq};

verus! {

/// The terminal client's list view.
pub struct App {
    pub should_quit: bool,
    pub selected_profile: usize,
    pub status: String,
    pub profiles: Vec<String>,
}

/// The status line of a fresh client.
pub const NO_PROFILES_STATUS: &'static str = "No profiles yet. Press n to add one in a future release.";

/// The placeholder entry of a fresh client's list.
pub const NO_SAVED_CONNECTIONS: &'static str = "No saved connections";

impl Default for App {
    fn default() -> (a: Self)
        ensures
            !a.should_quit,
            a.selected_profile == 0,
            a.status@ == NO_PROFILES_STATUS@,
            a.profiles@.len() == 1,
            a.profiles@[0]@ == NO_SAVED_CONNECTIONS@,
    {
        let mut profiles: Vec<String> = Vec::new();
        profiles.push(String::from_str(NO_SAVED_CONNECTIONS));
        App {
            should_quit: false,
            selected_profile: 0,
            status: String::from_str(NO_PROFILES_STATUS),
            profiles,
        }
    }
}

/// The entry after `selected` in a list of `len` entries, wrapping to the
/// first.
pub open spec fn next_index(selected: int, len: int) -> int {
    if len == 0 {
        selected
    } else {
        (selected + 1) % len
    }
}

/// The entry before `selected` in a list of `len` entries, wrapping to the
/// last.
pub open spec fn previous_index(selected: int, len: int) -> int {
    if len == 0 {
        selected
    } else if selected == 0 {
        len - 1
    } else {
        selected - 1
    }
}

impl App {
    /// Asks the event loop to stop.
    pub fn quit(&mut self)
        ensures
            final(self).should_quit,
            final(self).selected_profile == old(self).selected_profile,
            final(self).status == old(self).status,
            final(self).profiles == old(self).profiles,
    {
        self.should_quit = true;
    }

    /// Selects the next entry, wrapping from the last to the first; an empty
    /// list keeps its selection.
    pub fn select_next(&mut self)
        requires
            old(self).selected_profile < usize::MAX,
        ensures
            final(self).selected_profile == next_index(
                old(self).selected_profile as int,
                old(self).profiles.len() as int,
            ),
            final(self).should_quit == old(self).should_quit,
            final(self).status == old(self).status,
            final(self).profiles == old(self).profiles,
    {
        if self.profiles.len() > 0 {
            self.selected_profile = (self.selected_profile + 1) % self.profiles.len();
        }
    }

    /// Selects the previous entry, wrapping from the first to the last; an
    /// empty list keeps its selection.
    pub fn select_previous(&mut self)
        ensures
            final(self).selected_profile == previous_index(
                old(self).selected_profile as int,
                old(self).profiles.len() as int,
            ),
            final(self).should_quit == old(self).should_quit,
            final(self).status == old(self).status,
            final(self).profiles == old(self).profiles,
    {
        if self.profiles.len() > 0 {
            self.selected_profile = if self.selected_profile == 0 {
                self.profiles.len() - 1
            } else {
                self.selected_profile - 1
            };
        }
    }
}

/// Moving the selection keeps it inside a non-empty list, and moving back
/// undoes moving forward (and the other way round).
pub proof fn lemma_selection_round_trip(selected: int, len: int)
    requires
        0 <= selected < len,
    ensures
        0 <= next_index(selected, len) < len,
        0 <= previous_index(selected, len) < len,
        previous_index(next_index(selected, len), len) == selected,
        next_index(previous_index(selected, len), len) == selected,
{
    if selected + 1 < len {
        lemma_small_mod((selected + 1) as nat, len as nat);
    } else {
        lemma_mod_self_0(len);
    }
    if selected > 0 {
        lemma_small_mod(selected as nat, len as nat);
    } else {
        lemma_mod_self_0(len);
    }
}

/// The selection after stepping forward `n` times.
pub open spec fn steps_forward(selected: int, len: int, n: nat) -> int
    decreases n,
{
    if n == 0 {
        selected
    } else {
        next_index(steps_forward(selected, len, (n - 1) as nat), len)
    }
}

proof fn lemma_steps_forward_value(selected: int, len: int, n: nat)
    requires
        0 <= selected < len,
    ensures
        steps_forward(selected, len, n) == (selected + n) % len,
    decreases n,
{
    if n == 0 {
        lemma_small_mod(selected as nat, len as nat);
    } else {
        lemma_steps_forward_value(selected, len, (n - 1) as nat);
        lemma_add_mod_noop_right(1, selected + n - 1, len);
    }
}

/// Selecting the next entry as many times as the list is long comes back to
/// the selected entry.
pub proof fn lemma_full_cycle(selected: int, len: int)
    requires
        0 <= selected < len,
    ensures
        steps_forward(selected, len, len as nat) == selected,
{
    lemma_steps_forward_value(selected, len, len as nat);
    lemma_mod_add_multiples_vanish(selected, len);
    lemma_small_mod(selected as nat, len as nat);
}

/// A key the terminal client reacts to.
#[derive(Debug, Clone, Copy, PartialEq, Eq)]
pub enum KeyCode {
    Char(char),
    Enter,
    Tab,
    BackTab,
    Backspace,
    Left,
    Right,
    Up,
    Down,
    Home,
    End,
    Delete,
    PageUp,
    PageDown,
    Esc,
    Other,
}

/// `char::to_ascii_lowercase`.
pub open spec fn ascii_lower(c: char) -> char {
    if 'A' <= c && c <= 'Z' {
        ((c as u32) + 32) as char
    } else {
        c
    }
}

/// The control byte of Ctrl with a letter: the letter's low byte minus
/// `0x60`, wrapping.
pub open spec fn control_byte(c: char) -> u8 {
    (((ascii_lower(c) as u32) % 256 + 256 - 96) % 256) as u8
}

/// The bytes a key sends to the remote shell, `None` for keys that send
/// nothing.
pub open spec fn key_sequence(code: KeyCode, control: bool) -> Option<Seq<u8>> {
    if control && code is Char {
        Some(seq![control_byte(code->Char_0)])
    } else {
        match code {
            KeyCode::Char(c) => Some(encode_utf8(seq![c])),
            KeyCode::Enter => Some(seq![13u8]),
            KeyCode::Tab => Some(seq![9u8]),
            KeyCode::Backspace => Some(seq![0x7fu8]),
            KeyCode::Left => Some(seq![0x1bu8, 0x5bu8, 0x44u8]),
            KeyCode::Right => Some(seq![0x1bu8, 0x5bu8, 0x43u8]),
            KeyCode::Up => Some(seq![0x1bu8, 0x5bu8, 0x41u8]),
            KeyCode::Down => Some(seq![0x1bu8, 0x5bu8, 0x42u8]),
            KeyCode::Home => Some(seq![0x1bu8, 0x5bu8, 0x48u8]),
            KeyCode::End => Some(seq![0x1bu8, 0x5bu8, 0x46u8]),
            KeyCode::Delete => Some(seq![0x1bu8, 0x5bu8, 0x33u8, 0x7eu8]),
            KeyCode::PageUp => Some(seq![0x1bu8, 0x5bu8, 0x35u8, 0x7eu8]),
            KeyCode::PageDown => Some(seq![0x1bu8, 0x5bu8, 0x36u8, 0x7eu8]),
            KeyCode::Esc => Some(seq![0x1bu8]),
            _ => None,
        }
    }
}

fn csi(last: u8) -> (v: Vec<u8>)
    ensures
        v@ == seq![0x1bu8, 0x5bu8, last],
{
    let mut v: Vec<u8> = Vec::new();
    v.push(0x1b);
    v.push(0x5b);
    v.push(last);
    v
}

fn csi_tilde(n: u8) -> (v: Vec<u8>)
    ensures
        v@ == seq![0x1bu8, 0x5bu8, n, 0x7eu8],
{
    let mut v: Vec<u8> = Vec::new();
    v.push(0x1b);
    v.push(0x5b);
    v.push(n);
    v.push(0x7e);
    v
}

fn one_byte(b: u8) -> (v: Vec<u8>)
    ensures
        v@ == seq![b],
{
    let mut v: Vec<u8> = Vec::new();
    v.push(b);
    v
}

/// The bytes a key press sends to the remote shell.
pub fn key_bytes(code: KeyCode, control: bool) -> (r: Option<Vec<u8>>)
    ensures
        match (r, key_sequence(code, control)) {
            (Some(v), Some(s)) => v@ == s,
            (None, None) => true,
            _ => false,
        },
{
    if control {
        if let KeyCode::Char(c) = code {
            let lower = if 'A' <= c && c <= 'Z' {
                ((c as u32) + 32) as u8
            } else {
                ((c as u32) % 256) as u8
            };
            let byte = ((lower as u16 + 256 - 96) % 256) as u8;
            proof {
                assert(ascii_lower(c) as u32 % 256 == lower as u32);
            }
            return Some(one_byte(byte));
        }
    }
    match code {
        KeyCode::Char(c) => {
            let mut s = String::new();
            push_char(&mut s, c);
            let v = vstd::slice::slice_to_vec(s.as_str().as_bytes());
            proof {
                assert(s@ =~= seq![c]);
            }
            Some(v)
        },
        KeyCode::Enter => Some(one_byte(13)),
        KeyCode::Tab => Some(one_byte(9)),
        KeyCode::Backspace => Some(one_byte(0x7f)),
        KeyCode::Left => Some(csi(0x44)),
        KeyCode::Right => Some(csi(0x43)),
        KeyCode::Up => Some(csi(0x41)),
        KeyCode::Down => Some(csi(0x42)),
        KeyCode::Home => Some(csi(0x48)),
        KeyCode::End => Some(csi(0x46)),
        KeyCode::Delete => Some(csi_tilde(0x33)),
        KeyCode::PageUp => Some(csi_tilde(0x35)),
        KeyCode::PageDown => Some(csi_tilde(0x36)),
        KeyCode::Esc => Some(one_byte(0x1b)),
        _ => None,
    }
}


/// The number of fields of the "new connection" form: name, host, port,
/// user, identity file, authentication and whether to accept an unknown host
/// key.
pub const FORM_FIELDS: usize = 7;

/// The "new connection" form: one text per field, the identity files that
/// can be picked, the focused field and the error line.
pub struct CreateForm {
    pub values: Vec<String>,
    pub key_options: Vec<String>,
    pub field: usize,
    pub error: String,
}

/// A new profile as entered in the form, before it is saved.
pub struct ProfileDraft {
    pub name: String,
    pub host: String,
    pub port: String,
    pub username: String,
    pub identity_file: String,
    pub authentication: Authentication,
    pub accept_unknown_host_key: bool,
}

/// What the form asks the client to do.
pub enum Action {
    Create(ProfileDraft),
}

/// The texts of a list of strings.
pub open spec fn texts(v: Seq<String>) -> Seq<Seq<char>> {
    v.map_values(|s: String| s@)
}

/// The mathematical value of the form, without the identity file choices.
#[verifier::ext_equal]
pub struct FormView {
    pub values: Seq<Seq<char>>,
    pub field: int,
    pub error: Seq<char>,
}

impl CreateForm {
    /// The form's value.
    pub open spec fn view_of(&self) -> FormView {
        FormView { values: texts(self.values@), field: self.field as int, error: self.error@ }
    }

    /// Seven fields, one of them focused.
    pub open spec fn wf(&self) -> bool {
        self.values@.len() == FORM_FIELDS && self.field < FORM_FIELDS
    }

    /// An empty form (port `22`, password authentication, unknown host keys
    /// refused) offering the identity files `key_options`.
    pub fn with_key_options(key_options: Vec<String>) -> (f: CreateForm)
        ensures
            f.wf(),
            f.view_of().values == seq![
                Seq::<char>::empty(),
                Seq::<char>::empty(),
                "22"@,
                Seq::<char>::empty(),
                Seq::<char>::empty(),
                "password"@,
                "no"@,
            ],
            f.field == 0,
            f.error@ == Seq::<char>::empty(),
            f.key_options == key_options,
    {
        let mut values: Vec<String> = Vec::new();
        values.push(String::new());
        values.push(String::new());
        values.push(String::from_str("22"));
        values.push(String::new());
        values.push(String::new());
        values.push(String::from_str("password"));
        values.push(String::from_str("no"));
        let f = CreateForm { values, key_options, field: 0, error: String::new() };
        assert(f.view_of().values =~= seq![
            Seq::<char>::empty(),
            Seq::<char>::empty(),
            "22"@,
            Seq::<char>::empty(),
            Seq::<char>::empty(),
            "password"@,
            "no"@,
        ]);
        f
    }
}

/// The authentication an authentication field text selects.
pub open spec fn auth_choice(v: Seq<char>) -> Authentication {
    if v == "private-key"@ {
        Authentication::PrivateKey
    } else if v == "none"@ {
        Authentication::NoAuth
    } else {
        Authentication::Password
    }
}

/// The authentication text after pressing space on the authentication field.
pub open spec fn next_auth_text(v: Seq<char>) -> Seq<char> {
    if v == "password"@ {
        "private-key"@
    } else if v == "private-key"@ {
        "none"@
    } else {
        "password"@
    }
}

/// The identity file offered after `current` (the first one when `current`
/// is not among them).
pub open spec fn next_key_index(keys: Seq<Seq<char>>, current: Seq<char>) -> int {
    if exists|i: int| 0 <= i < keys.len() && keys[i] == current {
        let i = choose|i: int|
            0 <= i < keys.len() && keys[i] == current && forall|j: int|
                0 <= j < i ==> keys[j] != current;
        (i + 1) % (keys.len() as int)
    } else {
        0
    }
}

/// The message when no identity file can be picked.
pub const NO_KEYS_FOUND: &'static str = "No SSH keys found in ~/.ssh.";

/// The form after a pressed key other than Enter.
pub open spec fn form_after_key(v: FormView, keys: Seq<Seq<char>>, code: KeyCode) -> FormView {
    let f = v.field;
    let text_field = f != 5 && f != 6;
    match code {
        KeyCode::Tab | KeyCode::Down => FormView { field: (f + 1) % 7, ..v },
        KeyCode::BackTab | KeyCode::Up => FormView { field: if f == 0 { 6 } else { f - 1 }, ..v },
        KeyCode::Char(c) => {
            if c == ' ' && f == 5 {
                FormView { values: v.values.update(5, next_auth_text(v.values[5])), ..v }
            } else if c == ' ' && f == 4 {
                if keys.len() == 0 {
                    FormView { error: NO_KEYS_FOUND@, ..v }
                } else {
                    FormView {
                        values: v.values.update(4, keys[next_key_index(keys, v.values[4])]),
                        error: Seq::empty(),
                        ..v
                    }
                }
            } else if c == ' ' && f == 6 {
                FormView {
                    values: v.values.update(6, if v.values[6] == "yes"@ { "no"@ } else { "yes"@ }),
                    ..v
                }
            } else if text_field {
                FormView { values: v.values.update(f, v.values[f].push(c)), ..v }
            } else {
                v
            }
        },
        KeyCode::Backspace => {
            if text_field && v.values[f].len() > 0 {
                FormView { values: v.values.update(f, v.values[f].drop_last()), ..v }
            } else {
                v
            }
        },
        _ => v,
    }
}

/// The messages of a refused submission.
pub const REQUIRED_FIELDS: &'static str = "Name, host and user are required.";

pub const PORT_NOT_A_NUMBER: &'static str = "Port must be a number between 1 and 65535.";

pub const IDENTITY_REQUIRED: &'static str = "Identity file is required for private-key auth.";

pub const IDENTITY_MISSING: &'static str = "Selected identity file does not exist.";

/// Why a submission is refused, if it is: the first rule broken, in order.
/// `identity_is_file` says whether the identity field names an existing file.
pub open spec fn submit_error(values: Seq<Seq<char>>, identity_is_file: bool) -> Option<Seq<char>> {
    if values[0].len() == 0 || values[1].len() == 0 || values[3].len() == 0 {
        Some(REQUIRED_FIELDS@)
    } else if parse_unsigned(values[2], 65535) is None {
        Some(PORT_NOT_A_NUMBER@)
    } else if auth_choice(values[5]) == Authentication::PrivateKey && values[4].len() == 0 {
        Some(IDENTITY_REQUIRED@)
    } else if auth_choice(values[5]) == Authentication::PrivateKey && !identity_is_file {
        Some(IDENTITY_MISSING@)
    } else {
        None
    }
}

/// Whether a draft carries the form's texts and choices.
pub open spec fn draft_of(d: ProfileDraft, values: Seq<Seq<char>>) -> bool {
    &&& d.name@ == values[0]
    &&& d.host@ == values[1]
    &&& d.port@ == values[2]
    &&& d.username@ == values[3]
    &&& d.identity_file@ == values[4]
    &&& d.authentication == auth_choice(values[5])
    &&& d.accept_unknown_host_key == (values[6] == "yes"@)
}

fn is_text(s: &String, lit: &str) -> (r: bool)
    ensures
        r == (s@ == lit@),
{
    text_eq(s.as_str(), lit)
}

fn copy_text(s: &String) -> (r: String)
    ensures
        r@ == s@,
{
    s.clone()
}

fn auth_of(v: &String) -> (a: Authentication)
    ensures
        a == auth_choice(v@),
{
    if is_text(v, "private-key") {
        Authentication::PrivateKey
    } else if is_text(v, "none") {
        Authentication::NoAuth
    } else {
        Authentication::Password
    }
}

fn port_parses(port: &String) -> (r: bool)
    ensures
        r == (parse_unsigned(port@, 65535) is Some),
{
    let v = chars_of(port.as_str());
    assert(v@.subrange(0, v@.len() as int) =~= v@);
    parse_unsigned_range(&v, 0, v.len(), 65535).is_some()
}

/// Submits the form: a draft of the new profile, or `None` with the error
/// line set to the first rule the form breaks. `identity_is_file` says
/// whether the identity field names an existing file.
pub fn submit_create_form(form: &mut CreateForm, identity_is_file: bool) -> (r: Option<Action>)
    requires
        old(form).wf(),
    ensures
        final(form).wf(),
        final(form).values == old(form).values,
        final(form).key_options == old(form).key_options,
        final(form).field == old(form).field,
        match submit_error(old(form).view_of().values, identity_is_file) {
            Some(msg) => r is None && final(form).error@ == msg,
            None => {
                &&& final(form).error == old(form).error
                &&& r matches Some(Action::Create(d)) && draft_of(d, old(form).view_of().values)
            },
        },
{
    let ghost vals = form.view_of().values;
    assert(vals[0] == form.values@[0]@ && vals[1] == form.values@[1]@ && vals[2]
        == form.values@[2]@ && vals[3] == form.values@[3]@ && vals[4] == form.values@[4]@
        && vals[5] == form.values@[5]@ && vals[6] == form.values@[6]@);
    if form.values[0].as_str().is_empty() || form.values[1].as_str().is_empty()
        || form.values[3].as_str().is_empty() {
        form.error = String::from_str(REQUIRED_FIELDS);
        return None;
    }
    if !port_parses(&form.values[2]) {
        form.error = String::from_str(PORT_NOT_A_NUMBER);
        return None;
    }
    let authentication = auth_of(&form.values[5]);
    if authentication == Authentication::PrivateKey && form.values[4].as_str().is_empty() {
        form.error = String::from_str(IDENTITY_REQUIRED);
        return None;
    }
    if authentication == Authentication::PrivateKey && !identity_is_file {
        form.error = String::from_str(IDENTITY_MISSING);
        return None;
    }
    let accept = is_text(&form.values[6], "yes");
    Some(
        Action::Create(
            ProfileDraft {
                name: copy_text(&form.values[0]),
                host: copy_text(&form.values[1]),
                port: copy_text(&form.values[2]),
                username: copy_text(&form.values[3]),
                identity_file: copy_text(&form.values[4]),
                authentication,
                accept_unknown_host_key: accept,
            },
        ),
    )
}

fn first_key_match(keys: &Vec<String>, current: &String) -> (r: Option<usize>)
    ensures
        match r {
            Some(i) => i < keys.len() && keys@[i as int]@ == current@ && forall|j: int|
                0 <= j < i ==> keys@[j]@ != current@,
            None => forall|j: int| 0 <= j < keys.len() ==> keys@[j]@ != current@,
        },
{
    let mut i: usize = 0;
    while i < keys.len()
        invariant
            0 <= i <= keys.len(),
            forall|j: int| 0 <= j < i ==> keys@[j]@ != current@,
        decreases keys.len() - i,
    {
        if text_eq(keys[i].as_str(), current.as_str()) {
            return Some(i);
        }
        i += 1;
    }
    None
}

fn next_key(keys: &Vec<String>, current: &String) -> (i: usize)
    requires
        keys.len() > 0,
    ensures
        i < keys.len(),
        i == next_key_index(texts(keys@), current@),
{
    let ghost ks = texts(keys@);
    match first_key_match(keys, current) {
        Some(i) => {
            assert(ks[i as int] == current@);
            assert(forall|j: int| 0 <= j < i ==> ks[j] != current@);
            let ghost c = choose|k: int|
                0 <= k < ks.len() && ks[k] == current@ && forall|j: int|
                    0 <= j < k ==> ks[j] != current@;
            assert(0 <= c < ks.len() && ks[c] == current@ && forall|j: int|
                0 <= j < c ==> ks[j] != current@);
            proof {
                if c < i {
                    assert(ks[c] != current@);
                }
                if i < c {
                    assert(ks[i as int] != current@);
                }
                assert(c == i);
            }
            (i + 1) % keys.len()
        },
        None => {
            assert(!(exists|k: int| 0 <= k < ks.len() && ks[k] == current@)) by {
                assert forall|k: int| 0 <= k < ks.len() implies ks[k] != current@ by {
                    assert(keys@[k]@ != current@);
                }
            }
            0
        },
    }
}

fn next_auth(v: &String) -> (r: String)
    ensures
        r@ == next_auth_text(v@),
{
    proof {
        reveal_strlit("password");
        reveal_strlit("private-key");
        reveal_strlit("none");
    }
    if is_text(v, "password") {
        String::from_str("private-key")
    } else if is_text(v, "private-key") {
        String::from_str("none")
    } else {
        String::from_str("password")
    }
}

fn without_last(v: &String) -> (r: String)
    requires
        v@.len() > 0,
    ensures
        r@ == v@.drop_last(),
{
    let cs = chars_of(v.as_str());
    crate::text::string_of_range(&cs, 0, cs.len() - 1)
}

fn with_char(v: &String, c: char) -> (r: String)
    ensures
        r@ == v@.push(c),
{
    let mut r = v.clone();
    push_char(&mut r, c);
    r
}

proof fn lemma_texts_set(v: Seq<String>, i: int, s: String)
    requires
        0 <= i < v.len(),
    ensures
        texts(v.update(i, s)) == texts(v).update(i, s@),
{
    assert(texts(v.update(i, s)) =~= texts(v).update(i, s@));
}

/// Applies a key to the form: the focus moves with Tab/Down and
/// BackTab/Up, space cycles the authentication, the identity file and the
/// host-key choice on their fields, other characters and Backspace edit the
/// text fields, and Enter submits. Only pressed keys count.
/// `identity_is_file` says whether the identity field names an existing file.
pub fn handle_create_key(
    form: &mut CreateForm,
    code: KeyCode,
    pressed: bool,
    identity_is_file: bool,
) -> (r: Option<Action>)
    requires
        old(form).wf(),
    ensures
        final(form).wf(),
        final(form).key_options == old(form).key_options,
        !pressed ==> r is None && final(form).view_of() == old(form).view_of(),
        pressed && code != KeyCode::Enter ==> r is None && final(form).view_of() == form_after_key(
            old(form).view_of(),
            texts(old(form).key_options@),
            code,
        ),
        pressed && code == KeyCode::Enter ==> {
            &&& final(form).values == old(form).values
            &&& final(form).field == old(form).field
            &&& match submit_error(old(form).view_of().values, identity_is_file) {
                Some(msg) => r is None && final(form).error@ == msg,
                None => {
                    &&& final(form).error == old(form).error
                    &&& r matches Some(Action::Create(d)) && draft_of(
                        d,
                        old(form).view_of().values,
                    )
                },
            }
        },
{
    if !pressed {
        return None;
    }
    let ghost v0 = form.view_of();
    let ghost keys = texts(form.key_options@);
    let f = form.field;
    let text_field = f != 5 && f != 6;
    match code {
        KeyCode::Tab | KeyCode::Down => {
            form.field = (f + 1) % FORM_FIELDS;
        },
        KeyCode::BackTab | KeyCode::Up => {
            form.field = if f == 0 { FORM_FIELDS - 1 } else { f - 1 };
        },
        KeyCode::Char(c) => {
            if c == ' ' && f == 5 {
                let next = next_auth(&form.values[5]);
                proof {
                    lemma_texts_set(form.values@, 5, next);
                }
                form.values.set(5, next);
            } else if c == ' ' && f == 4 {
                if form.key_options.len() == 0 {
                    form.error = String::from_str(NO_KEYS_FOUND);
                } else {
                    let i = next_key(&form.key_options, &form.values[4]);
                    let chosen = form.key_options[i].clone();
                    proof {
                        lemma_texts_set(form.values@, 4, chosen);
                    }
                    form.values.set(4, chosen);
                    form.error = String::new();
                }
            } else if c == ' ' && f == 6 {
                let yes = is_text(&form.values[6], "yes");
                let next = if yes {
                    String::from_str("no")
                } else {
                    String::from_str("yes")
                };
                proof {
                    lemma_texts_set(form.values@, 6, next);
                }
                form.values.set(6, next);
            } else if text_field {
                let next = with_char(&form.values[f], c);
                proof {
                    lemma_texts_set(form.values@, f as int, next);
                }
                form.values.set(f, next);
            }
        },
        KeyCode::Backspace => {
            if text_field && form.values[f].as_str().is_empty() == false {
                let next = without_last(&form.values[f]);
                proof {
                    lemma_texts_set(form.values@, f as int, next);
                }
                form.values.set(f, next);
            }
        },
        KeyCode::Enter => {
            return submit_create_form(form, identity_is_file);
        },
        _ => {},
    }
    assert(form.view_of() =~= form_after_key(v0, keys, code));
    None
}

} // verus!
