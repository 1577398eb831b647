use backup_core::auth::{check_password, password_verdict, PasswordType};
use backup_core::error::ErrorKind;
use backup_core::text::{bytes_equal, contains_text, copy_text, copy_texts, join, text_equal};
use backup_core::version::{
    ensure_trailing_slashes, with_trailing_slash, MarketPlaceUrls, Semver, Version,
};

#[test]
fn test_ensure_trailing_slashed() {
    assert_eq!(
        &ensure_trailing_slashes("http://start9.com"),
        "http://start9.com/"
    );
    assert_eq!(
        &ensure_trailing_slashes("http://start9.com/"),
        "http://start9.com/"
    );
    assert_eq!(
        &ensure_trailing_slashes("http://start9.com/a"),
        "http://start9.com/a/"
    );
}

#[test]
fn gen_pwd() {
    let hash = argon2::hash_encoded(
        b"testing1234",
        &rand::random::<[u8; 16]>()[..],
        &argon2::Config::default(),
    )
    .unwrap();
    println!("{:?}", hash);
    assert!(check_password(&hash, "testing1234").is_ok());
    let e = check_password(&hash, "testing12345").unwrap_err();
    assert_eq!(e.kind, ErrorKind::IncorrectPassword);
    assert_eq!(e.message, "Password Incorrect");
}

#[test]
fn a_text_that_is_no_hash_counts_as_a_wrong_password() {
    let e = check_password("not a hash", "testing1234").unwrap_err();
    assert_eq!(e.kind, ErrorKind::IncorrectPassword);
    assert!(check_password(
        "$argon2i$v=19$m=4096,t=3,p=1$c29tZXNhbHQ$iWh06vD8Fy27wf9npn6FXWiCX4K6pW6Ue1Bnzz07Z8A",
        "password"
    )
    .is_ok());
    assert!(password_verdict(Some(true)).is_ok());
    assert_eq!(password_verdict(Some(false)).unwrap_err().kind, ErrorKind::IncorrectPassword);
    assert_eq!(password_verdict(None).unwrap_err().message, "Password Incorrect");
}

#[test]
fn passwords_come_in_the_clear_or_sealed() {
    assert_eq!(PasswordType::String("pw".to_string()).decrypt(None).unwrap(), "pw");
    assert_eq!(
        PasswordType::String("pw".to_string()).decrypt(Some("other".to_string())).unwrap(),
        "pw"
    );
    assert_eq!(
        PasswordType::EncryptedWire("sealed".to_string()).decrypt(Some("pw".to_string())).unwrap(),
        "pw"
    );
    let e = PasswordType::EncryptedWire("sealed".to_string()).decrypt(None).unwrap_err();
    assert_eq!(e.kind, ErrorKind::Unknown);
    assert_eq!(e.message, "Couldn't decode password");
    assert!(matches!(PasswordType::default(), PasswordType::String(s) if s.is_empty()));
    assert!(matches!(PasswordType::from_str("abc", None), PasswordType::String(s) if s == "abc"));
    assert!(matches!(
        PasswordType::from_str("x", Some(PasswordType::EncryptedWire("w".to_string()))),
        PasswordType::EncryptedWire(w) if w == "w"
    ));
    assert_eq!(PasswordType::String("pw".to_string()).redacted(), "<REDACTED_PASSWORD>");
}

#[test]
fn the_default_marketplace_ends_in_a_slash() {
    assert_eq!(MarketPlaceUrls::Default.url(), "https://registry.start9.com/");
    assert_eq!(with_trailing_slash("a", true), "a");
    assert_eq!(with_trailing_slash("a", false), "a/");
    assert_eq!(ensure_trailing_slashes(""), "/");
    assert_eq!(ensure_trailing_slashes("/"), "/");
    assert_eq!(ensure_trailing_slashes("a/\n"), "a/\n/");
}

#[test]
fn versions_are_ordered_part_by_part() {
    let v = |a, b, c, d| Semver::new(a, b, c, d);
    assert!(v(0, 3, 2, 9).precedes(&v(0, 3, 3, 0)));
    assert!(v(0, 9, 9, 9).precedes(&v(1, 0, 0, 0)));
    assert!(v(1, 2, 3, 4).precedes(&v(1, 2, 3, 5)));
    assert!(!v(1, 2, 3, 4).precedes(&v(1, 2, 3, 4)));
    assert!(!v(1, 2, 4, 0).precedes(&v(1, 2, 3, 9)));
    let this = Version::new();
    assert_eq!(this.semver(), v(0, 3, 3, 0));
    assert!(this.compat(&v(0, 3, 0, 0)));
    assert!(this.compat(&v(0, 3, 3, 0)));
    assert!(this.compat(&v(0, 3, 1, 7)));
    assert!(!this.compat(&v(0, 2, 9, 0)));
    assert!(!this.compat(&v(0, 3, 3, 1)));
}

#[test]
fn texts_are_compared_and_joined() {
    assert!(text_equal("", ""));
    assert!(text_equal("d\u{e9}j\u{e0}", "d\u{e9}j\u{e0}"));
    assert!(!text_equal("a", "A"));
    assert!(!text_equal("a", "ab"));
    assert!(bytes_equal(&[1, 2], &[1, 2]));
    assert!(!bytes_equal(&[1, 2], &[1, 3]));
    assert_eq!(join("ab", "cd"), "abcd");
    assert_eq!(join("", ""), "");
}

#[test]
fn texts_are_found_and_copied() {
    let texts = vec!["main".to_string(), "rpc".to_string()];
    assert!(contains_text(&texts, "rpc"));
    assert!(!contains_text(&texts, "rp"));
    assert!(!contains_text(&Vec::new(), ""));
    assert_eq!(copy_texts(&texts), texts);
    assert_eq!(copy_text(&Some("a".to_string())), Some("a".to_string()));
    assert_eq!(copy_text(&None), None);
}
