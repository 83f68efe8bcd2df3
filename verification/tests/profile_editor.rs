use std::time::{SystemTime, UNIX_EPOCH};

use sshcli::profile_form::{
    format_last_used_card, format_last_used_card_at, format_last_used_duration,
    format_last_used_table, format_last_used_table_at, parse_port, split_tags, validate_form,
    validate_host, ProfileForm,
};

fn now() -> u64 {
    SystemTime::now().duration_since(UNIX_EPOCH).unwrap().as_secs()
}

#[test]
fn table_format_nulls_show_em_dash() {
    assert_eq!(format_last_used_table(None), "—");
}

#[test]
fn card_format_nulls_show_sin_usar() {
    assert_eq!(format_last_used_card(None), "Sin usar");
}

#[test]
fn format_now_is_ahora_mismo() {
    let now = now();
    assert_eq!(format_last_used_table(Some(now)), "Ahora mismo");
}

#[test]
fn format_minutes() {
    let secs = now() - 60 * 5;
    assert_eq!(format_last_used_table(Some(secs)), "Hace 5 min");
}

#[test]
fn format_hours() {
    let secs = now() - 3600 * 3;
    assert_eq!(format_last_used_table(Some(secs)), "Hace 3 h");
}

#[test]
fn format_one_day() {
    let secs = now() - 86400;
    assert_eq!(format_last_used_table(Some(secs)), "Hace 1 día");
}

#[test]
fn format_many_days() {
    let secs = now() - 86400 * 7;
    assert_eq!(format_last_used_table(Some(secs)), "Hace 7 días");
}

#[test]
fn duration_buckets_at_fixed_clock() {
    let now = 1_700_000_000;
    assert_eq!(format_last_used_duration(now, now), "Ahora mismo");
    assert_eq!(format_last_used_duration(now - 89, now), "Ahora mismo");
    assert_eq!(format_last_used_duration(now - 90, now), "Hace 1 min");
    assert_eq!(format_last_used_duration(now - 3599, now), "Hace 59 min");
    assert_eq!(format_last_used_duration(now - 3600, now), "Hace 1 h");
    assert_eq!(format_last_used_duration(now - 86399, now), "Hace 23 h");
    assert_eq!(format_last_used_duration(now - 86400, now), "Hace 1 día");
    assert_eq!(format_last_used_duration(now - 2 * 86400, now), "Hace 2 días");
    assert_eq!(format_last_used_duration(now + 500, now), "Ahora mismo");
    assert_eq!(format_last_used_card_at(Some(now - 120), now), "Hace 2 min");
    assert_eq!(format_last_used_card_at(None, now), "Sin usar");
    assert_eq!(format_last_used_table_at(None, now), "—");
}

#[test]
fn split_tags_trims_and_drops_empty() {
    assert_eq!(split_tags("web, api, , db "), vec!["web", "api", "db"]);
    assert_eq!(split_tags(""), Vec::<String>::new());
    assert_eq!(split_tags("   "), Vec::<String>::new());
    assert_eq!(split_tags("single"), vec!["single"]);
}

fn form() -> ProfileForm {
    let mut f = ProfileForm::empty();
    f.name = "prod".into();
    f.host = "example.com".into();
    f.port = "22".into();
    f.username = "deploy".into();
    f.authentication = "password".into();
    f
}

#[test]
fn validate_rejects_missing_name() {
    let mut f = form();
    f.name = "  ".into();
    let err = validate_form(&f, &vec![]).unwrap_err();
    assert_eq!(err.0, "El nombre es obligatorio.");
}

#[test]
fn validate_rejects_duplicate_name_case_insensitive() {
    let mut f = form();
    f.name = "Prod".into();
    let err = validate_form(&f, &vec!["prod".into()]).unwrap_err();
    assert_eq!(err.0, "Ya existe una conexión con ese nombre.");
}

#[test]
fn validate_rejects_whitespace_in_host() {
    let mut f = form();
    f.host = "example .com".into();
    let err = validate_form(&f, &vec![]).unwrap_err();
    assert_eq!(err.0, "El host no puede contener espacios.");
}

#[test]
fn validate_rejects_out_of_range_port() {
    for bad in ["0", "65536", "-1", "abc"] {
        let mut f = form();
        f.port = bad.into();
        let err = validate_form(&f, &vec![]).unwrap_err();
        assert_eq!(err.0, "El puerto debe estar entre 1 y 65535.");
    }
}

#[test]
fn validate_rejects_missing_username() {
    let mut f = form();
    f.username = "  ".into();
    let err = validate_form(&f, &vec![]).unwrap_err();
    assert_eq!(err.0, "El usuario es obligatorio.");
}

#[test]
fn validate_accepts_valid_form() {
    assert!(validate_form(&form(), &vec![]).is_ok());
}

#[test]
fn validate_reports_missing_host() {
    let mut f = form();
    f.host = "   ".into();
    let err = validate_form(&f, &vec![]).unwrap_err();
    assert_eq!(err.0, "El host es obligatorio.");
}

#[test]
fn validate_host_functions() {
    assert_eq!(validate_host("example.com").unwrap(), "example.com");
    assert_eq!(validate_host("  host  ").unwrap(), "host");
    assert!(validate_host("").is_err());
    assert!(validate_host("a b").is_err());
}

#[test]
fn parse_port_function() {
    assert_eq!(parse_port("22").unwrap(), 22);
    assert_eq!(parse_port("65535").unwrap(), 65535);
    assert_eq!(parse_port("1").unwrap(), 1);
    assert!(parse_port("0").is_err());
    assert!(parse_port("65536").is_err());
    assert!(parse_port("x").is_err());
}

#[test]
fn printed_ports_parse_back_and_tags_rejoin() {
    for port in [1u16, 80, 8080, 65535] {
        assert_eq!(sshcli::profile_form::parse_port(&port.to_string()).unwrap(), port);
    }
    let tags = sshcli::profile_form::split_tags("  web, , db ,prod  ");
    assert_eq!(tags, vec!["web".to_string(), "db".to_string(), "prod".to_string()]);
    assert_eq!(sshcli::profile_form::split_tags(&tags.join(", ")), tags);
}
