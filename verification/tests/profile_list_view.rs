use sshcli::profiles_view::{modal_step, ModalStep};
use sshcli::profile_form::ProfileForm;
use sshcli::profiles::{Authentication, Profile};
use sshcli::profiles_view::{
    build_input, import_status_message, prepare_input, test_result_message, ModalKind,
    ProfileModal, ProfilesView, SortBy,
};

fn profile(name: &str, group: Option<&str>, favorite: bool, last_used: Option<u64>) -> Profile {
    Profile {
        name: name.into(),
        host: format!("{name}.example.com"),
        port: 22,
        username: "deploy".into(),
        identity_file: None,
        authentication: Authentication::Password,
        accept_unknown_host_key: false,
        group: group.map(|g| g.to_string()),
        tags: vec!["web".into()],
        last_used,
        favorite,
    }
}

fn view() -> ProfilesView {
    let mut v = ProfilesView::new();
    v.group = "__all__".into();
    v.profiles = vec![
        profile("beta", Some("prod"), false, Some(10)),
        profile("alpha", None, false, Some(30)),
        profile("gamma", Some("prod"), true, None),
        profile("delta", Some("dev"), false, Some(30)),
    ];
    v
}

fn names(ps: &[Profile]) -> Vec<String> {
    ps.iter().map(|p| p.name.clone()).collect()
}

#[test]
fn default_sort_is_favorites_first() {
    assert_eq!(SortBy::default(), SortBy::Favorite);
    assert_eq!(names(&view().ordered()), vec!["gamma", "alpha", "beta", "delta"]);
}

#[test]
fn sort_by_name_and_by_last_use() {
    let mut v = view();
    v.sort = SortBy::Name;
    assert_eq!(names(&v.ordered()), vec!["alpha", "beta", "delta", "gamma"]);
    v.sort = SortBy::LastUsed;
    assert_eq!(names(&v.ordered()), vec!["alpha", "delta", "beta", "gamma"]);
}

#[test]
fn group_filters() {
    let mut v = view();
    v.sort = SortBy::Name;
    v.group = "prod".into();
    assert_eq!(names(&v.ordered()), vec!["beta", "gamma"]);
    v.group = "__ungrouped__".into();
    assert_eq!(names(&v.ordered()), vec!["alpha"]);
    v.group = "".into();
    assert!(v.ordered().is_empty());
}

#[test]
fn query_matches_any_field_ignoring_case() {
    let mut v = view();
    v.sort = SortBy::Name;
    v.query = "  DELTA.EXAMPLE ".into();
    assert_eq!(names(&v.ordered()), vec!["delta"]);
    v.query = "Dev".into();
    assert_eq!(names(&v.ordered()), vec!["delta"]);
    v.query = "web".into();
    assert_eq!(v.ordered().len(), 4);
    v.query = "nothing-like-this".into();
    assert!(v.ordered().is_empty());
}

#[test]
fn groups_are_counted_in_name_order() {
    let groups = view().groups();
    assert_eq!(
        groups,
        vec![("".to_string(), 1), ("dev".to_string(), 1), ("prod".to_string(), 2)]
    );
    assert!(ProfilesView::new().groups().is_empty());
}

#[test]
fn duplicate_and_delete_dialogs() {
    let mut v = view();
    v.open_duplicate("beta");
    match &v.modal.as_ref().unwrap().kind {
        ModalKind::Duplicate { source, new_name } => {
            assert_eq!(source, "beta");
            assert_eq!(new_name, "beta (copia)");
        }
        _ => panic!("duplicate dialog"),
    }
    assert_eq!(v.modal.as_ref().unwrap().title(), "Duplicar beta");
    v.open_delete("alpha");
    assert_eq!(v.modal.as_ref().unwrap().title(), "Borrar alpha");
}

#[test]
fn modal_titles() {
    assert_eq!(ProfileModal::new_import().title(), "Importar config");
    let all = vec![profile("a", None, false, None), profile("b", None, false, None)];
    let new = ProfileModal::new(None, &all, vec![]);
    assert_eq!(new.title(), "Nueva conexión");
    let edit = ProfileModal::new(Some(profile("b", Some("g"), true, None)), &all, vec!["k".into()]);
    assert_eq!(edit.title(), "Editar b");
    match edit.kind {
        ModalKind::Edit { form, keys, existing_names, .. } => {
            assert_eq!(keys, vec!["k"]);
            assert_eq!(existing_names, vec!["a"]);
            assert_eq!(form.port, "22");
            assert_eq!(form.authentication, "password");
            assert_eq!(form.group, "g");
            assert_eq!(form.tags, "web");
            assert_eq!(form.original_name, Some("b".into()));
        }
        _ => panic!("edit dialog"),
    }
}

fn form() -> ProfileForm {
    let mut f = ProfileForm::empty();
    f.name = " prod ".into();
    f.host = "example.com".into();
    f.port = " 2222 ".into();
    f.username = "deploy".into();
    f.authentication = "private-key".into();
    f.identity_file = "  ".into();
    f.group = " ops ".into();
    f.tags = "a, b".into();
    f.secret = "pp".into();
    f
}

#[test]
fn form_becomes_service_input() {
    let input = build_input(&form(), None).unwrap();
    assert_eq!(input.name, "prod");
    assert_eq!(input.port, 2222);
    assert_eq!(input.identity_file, None);
    assert_eq!(input.group, Some("ops".into()));
    assert_eq!(input.tags, Some(vec!["a".into(), "b".into()]));
    assert_eq!(input.secret, Some("pp".into()));
    assert!(!input.favorite);
    let mut f = form();
    f.authentication = "none".into();
    f.identity_file = "~/.ssh/id".into();
    let input = build_input(&f, Some(&profile("old", None, true, None))).unwrap();
    assert_eq!(input.identity_file, None);
    assert_eq!(input.secret, None);
    assert!(input.favorite);
    assert_eq!(input.original_name, Some("old".into()));
}

#[test]
fn form_port_must_fit_sixteen_bits() {
    let mut f = form();
    f.port = "70000".into();
    assert_eq!(build_input(&f, None).unwrap_err(), "puerto inválido");
    assert_eq!(
        prepare_input(&f, &vec![], None).unwrap_err(),
        "El puerto debe estar entre 1 y 65535."
    );
    let f = form();
    assert_eq!(
        prepare_input(&f, &vec!["PROD".into()], None).unwrap_err(),
        "Ya existe una conexión con ese nombre."
    );
}

#[test]
fn dialog_messages() {
    assert_eq!(test_result_message(Ok(())), "Conexión correcta.");
    assert_eq!(test_result_message(Err("timeout".into())), "No se pudo conectar: timeout");
    assert_eq!(import_status_message(Ok(0)), "Nada que importar: todos los perfiles ya existen.");
    assert_eq!(import_status_message(Ok(3)), "3 perfil(es) importados.");
    assert_eq!(import_status_message(Err("bad toml".into())), "Error al importar: bad toml");
}

#[test]
fn loading_and_closing_the_modal() {
    let mut view = ProfilesView::new();
    view.apply_loaded(Err("disk".to_string()));
    assert!(view.loaded);
    assert_eq!(view.error, Some("disk".to_string()));
    view.apply_loaded(Ok(Vec::new()));
    assert!(view.error.is_none());
    assert_eq!(modal_step(true, true, true), ModalStep::Close { reload: true });
    assert_eq!(modal_step(false, false, false), ModalStep::Close { reload: false });
    assert_eq!(modal_step(false, true, true), ModalStep::Keep);
}
