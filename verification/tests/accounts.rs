use backup_core::auth::{
    check_old_password, confirm_password, list, old_password_verdict, session_of, SessionRow,
};
use backup_core::error::ErrorKind;
use backup_core::list::parse_comma_separated;

const HASH: &str =
    "$argon2i$v=19$m=4096,t=3,p=1$c29tZXNhbHQ$iWh06vD8Fy27wf9npn6FXWiCX4K6pW6Ue1Bnzz07Z8A";

fn row(id: &str, metadata: &str) -> SessionRow {
    SessionRow {
        id: id.to_string(),
        logged_in: 1_700_000_000,
        last_active: 1_700_000_900,
        user_agent: Some("curl/8".to_string()),
        metadata: metadata.to_string(),
    }
}

#[test]
fn the_old_password_is_checked_before_a_change() {
    assert!(check_old_password(HASH, "password").is_ok());
    let e = check_old_password(HASH, "passwor").unwrap_err();
    assert_eq!(e.kind, ErrorKind::IncorrectPassword);
    assert_eq!(e.message, "Incorrect Password");
    assert_eq!(check_old_password("", "password").unwrap_err().kind, ErrorKind::IncorrectPassword);
    assert!(old_password_verdict(Some(true)).is_ok());
    assert!(old_password_verdict(Some(false)).is_err());
    assert!(old_password_verdict(None).is_err());
}

#[test]
fn a_new_password_must_be_typed_the_same_twice() {
    assert_eq!(confirm_password("s3cret".to_string(), "s3cret").unwrap(), "s3cret");
    let e = confirm_password("s3cret".to_string(), "s3cre").unwrap_err();
    assert_eq!(e.kind, ErrorKind::IncorrectPassword);
    assert_eq!(e.message, "Passwords do not match");
    assert!(confirm_password(String::new(), "").is_ok());
}

#[test]
fn sessions_are_listed_in_the_order_of_their_rows() {
    let rows = vec![row("b", "{\"platforms\":[\"cli\"]}"), row("a", "null")];
    let sessions = list("a".to_string(), &rows).unwrap();
    assert_eq!(sessions.current, "a");
    let ids: Vec<&str> = sessions.sessions.iter().map(|(id, _)| id.as_str()).collect();
    assert_eq!(ids, vec!["b", "a"]);
    let first = &sessions.sessions[0].1;
    assert_eq!(first.logged_in, 1_700_000_000);
    assert_eq!(first.last_active, 1_700_000_900);
    assert_eq!(first.user_agent.as_deref(), Some("curl/8"));
    assert_eq!(first.metadata, "{\"platforms\":[\"cli\"]}");
    assert!(list("x".to_string(), &vec![]).unwrap().sessions.is_empty());
}

#[test]
fn a_session_whose_metadata_is_not_json_is_a_database_error() {
    let rows = vec![row("a", "null"), row("b", "{\"platforms\":"), row("c", "1")];
    let e = list("a".to_string(), &rows).unwrap_err();
    assert_eq!(e.kind, ErrorKind::Database);
    assert!(!e.message.is_empty());
    assert_eq!(session_of(&row("b", "")).unwrap_err().kind, ErrorKind::Database);
    assert!(session_of(&row("b", " [1, 2] ")).is_ok());
}

#[test]
fn a_list_is_split_at_commas_and_trimmed() {
    let cases: Vec<(&str, Vec<&str>)> = vec![
        ("", vec![""]),
        ("abc", vec!["abc"]),
        ("a,b", vec!["a", "b"]),
        (" a , b\t,\nc\r\n", vec!["a", "b", "c"]),
        (",", vec!["", ""]),
        ("a,,b,", vec!["a", "", "b", ""]),
        ("  ,  ", vec!["", ""]),
        ("a b , c  d", vec!["a b", "c  d"]),
        ("\u{a0}x\u{3000},\u{2003}y\u{85}", vec!["x", "y"]),
        ("\u{e9}t\u{e9} , \u{1f600}", vec!["\u{e9}t\u{e9}", "\u{1f600}"]),
        ("\u{200b}z", vec!["\u{200b}z"]),
    ];
    for (arg, expected) in cases {
        assert_eq!(parse_comma_separated(arg), expected, "{:?}", arg);
        let std: Vec<String> = arg.split(',').map(|s| s.trim().to_owned()).collect();
        assert_eq!(parse_comma_separated(arg), std, "{:?}", arg);
    }
}
