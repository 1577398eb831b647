use backup_core::backup::report::{BackupReport, PackageBackupReport, ServerBackupReport};
use backup_core::error::ErrorKind;
use backup_core::notifications::{
    create, delete, delete_before, list, InvalidNotificationLevel, Ledger, Notification,
    NotificationLevel, NotificationManager, NotificationRow, NotificationType,
};
use backup_core::package::PackageId;

fn row(id: i32, level: &str, data: Option<&str>) -> NotificationRow {
    NotificationRow {
        id,
        package_id: None,
        created_at: 1_700_000_000 + id as i64,
        code: 0,
        level: level.to_string(),
        title: format!("title {}", id),
        message: format!("message {}", id),
        data: data.map(|d| d.to_string()),
    }
}

fn filled(n: i32) -> Ledger {
    let rows: Vec<NotificationRow> = (1..=n).map(|id| row(id, "info", Some("null"))).collect();
    Ledger::from_rows(rows, 0).unwrap()
}

fn ids(list: &[Notification]) -> Vec<u32> {
    list.iter().map(|n| n.id).collect()
}

fn report(
    m: &mut NotificationManager,
    l: &mut Ledger,
    title: &str,
    interval: Option<u32>,
    now: i64,
) {
    m.notify_at::<()>(
        l,
        None,
        NotificationLevel::Warning,
        title.to_string(),
        "the disk is nearly full".to_string(),
        "null".to_string(),
        interval,
        now,
    )
    .unwrap();
}

#[test]
fn serialization() {
    let text = "{\"test\":\"abcdefg\",\"num\":32,\"nested\":{\"inner\":null,\"xyz\":[0,2,4]}}";
    let n = Notification::from_row(&row(1, "info", Some(text))).unwrap();
    assert_eq!(n.data.as_deref(), Some(text));
    println!("{}", n.data.unwrap());
}

#[test]
fn levels_have_their_texts() {
    let all = [
        (NotificationLevel::Success, "success"),
        (NotificationLevel::Info, "info"),
        (NotificationLevel::Warning, "warning"),
        (NotificationLevel::Error, "error"),
    ];
    for (level, text) in all {
        assert_eq!(level.to_string(), text);
        assert_eq!(NotificationLevel::from_str(text).ok(), Some(level));
    }
    for text in ["", "Info", "warn", "error ", "successs"] {
        match NotificationLevel::from_str(text) {
            Ok(_) => panic!("{} was read as a level", text),
            Err(InvalidNotificationLevel(s)) => assert_eq!(s, text),
        }
    }
    assert_eq!(
        InvalidNotificationLevel("loud".to_string()).to_string(),
        "Invalid Notification Level: loud"
    );
    let e = InvalidNotificationLevel("loud".to_string()).into_error();
    assert_eq!(e.kind, ErrorKind::ParseDbField);
    assert_eq!(e.message, "Invalid Notification Level: loud");
}

#[test]
fn payload_kinds_have_their_codes() {
    assert_eq!(<() as NotificationType>::code(), 0);
    assert_eq!(<BackupReport as NotificationType>::code(), 1);
}

#[test]
fn a_row_is_read_field_by_field() {
    let mut r = row(7, "warning", Some("{\"a\":[1,2]}"));
    r.package_id = Some("acme-crm".to_string());
    r.code = 1;
    let n = Notification::from_row(&r).unwrap();
    assert_eq!(n.id, 7);
    assert_eq!(n.package_id.unwrap().as_str(), "acme-crm");
    assert_eq!(n.created_at, 1_700_000_007);
    assert_eq!(n.code, 1);
    assert_eq!(n.level, NotificationLevel::Warning);
    assert_eq!(n.title, "title 7");
    assert_eq!(n.message, "message 7");
    assert_eq!(n.data.as_deref(), Some("{\"a\":[1,2]}"));
    let n = Notification::from_row(&row(8, "success", None)).unwrap();
    assert!(n.data.is_none());
}

#[test]
fn signed_numbers_of_a_row_keep_their_bits() {
    let mut r = row(-1, "info", None);
    r.code = i32::MIN;
    let n = Notification::from_row(&r).unwrap();
    assert_eq!(n.id, u32::MAX);
    assert_eq!(n.code, 0x8000_0000);
}

#[test]
fn a_row_with_a_bad_level_or_bad_data_is_a_parse_error() {
    let e = Notification::from_row(&row(1, "loud", Some("null"))).unwrap_err();
    assert_eq!(e.kind, ErrorKind::ParseDbField);
    assert_eq!(e.message, "Invalid Notification Level: loud");
    let e = Notification::from_row(&row(1, "info", Some("{\"a\":"))).unwrap_err();
    assert_eq!(e.kind, ErrorKind::ParseDbField);
    assert!(e.message.starts_with("Invalid Notification Data: "), "{}", e.message);
    assert!(e.message.len() > "Invalid Notification Data: ".len());
    // the level is looked at first
    let e = Notification::from_row(&row(1, "loud", Some("{"))).unwrap_err();
    assert_eq!(e.message, "Invalid Notification Level: loud");
}

#[test]
fn ids_rise_from_one_and_the_counter_counts() {
    let mut m = NotificationManager::new();
    let mut l = Ledger::new();
    assert_eq!(l.unread_count(), 0);
    for i in 0..5 {
        report(&mut m, &mut l, &format!("event {}", i), None, 100 + i);
        assert_eq!(l.unread_count(), i as u64 + 1);
    }
    let got: Vec<i32> = l.rows().iter().map(|r| r.id).collect();
    assert_eq!(got, vec![1, 2, 3, 4, 5]);
    assert_eq!(l.rows()[2].title, "event 2");
    assert_eq!(l.rows()[2].level, "warning");
    assert_eq!(l.rows()[2].created_at, 102);
    assert_eq!(l.rows()[2].code, 0);
    assert_eq!(l.rows()[2].data.as_deref(), Some("null"));
    let listed = l.list(None, None).unwrap();
    assert_eq!(ids(&listed), vec![5, 4, 3, 2, 1]);
    assert_eq!(l.unread_count(), 0);
    report(&mut m, &mut l, "one more", None, 200);
    assert_eq!(l.unread_count(), 1);
    assert_eq!(l.rows().last().unwrap().id, 6);
}

#[test]
fn repeats_within_the_interval_are_held_back() {
    let mut m = NotificationManager::new();
    let mut l = Ledger::new();
    report(&mut m, &mut l, "disk-low", Some(3600), 1_000);
    report(&mut m, &mut l, "disk-low", Some(3600), 1_000);
    report(&mut m, &mut l, "disk-low", Some(3600), 4_599);
    assert_eq!(l.len(), 1);
    assert_eq!(l.unread_count(), 1);
    // at least the interval later it gets a row again
    report(&mut m, &mut l, "disk-low", Some(3600), 4_600);
    assert_eq!(l.len(), 2);
    assert_eq!(l.unread_count(), 2);
    // and the interval now counts from the second row
    report(&mut m, &mut l, "disk-low", Some(3600), 8_199);
    assert_eq!(l.len(), 2);
    report(&mut m, &mut l, "disk-low", Some(3600), 8_200);
    assert_eq!(l.len(), 3);
}

#[test]
fn without_an_interval_every_report_gets_a_row() {
    let mut m = NotificationManager::new();
    let mut l = Ledger::new();
    for _ in 0..3 {
        report(&mut m, &mut l, "disk-low", None, 1_000);
    }
    assert_eq!(l.len(), 3);
    assert_eq!(l.unread_count(), 3);
    // a report without an interval is remembered all the same
    report(&mut m, &mut l, "disk-low", Some(10), 1_005);
    assert_eq!(l.len(), 3);
}

#[test]
fn events_differ_by_package_level_and_title() {
    let mut m = NotificationManager::new();
    let title = "disk-low".to_string();
    let acme = Some(PackageId::new("acme-crm".to_string()));
    let other = Some(PackageId::new("other".to_string()));
    assert!(m.should_notify(&None, &NotificationLevel::Warning, &title, Some(60), 0));
    assert!(!m.should_notify(&None, &NotificationLevel::Warning, &title, Some(60), 59));
    assert!(m.should_notify(&acme, &NotificationLevel::Warning, &title, Some(60), 1));
    assert!(m.should_notify(&other, &NotificationLevel::Warning, &title, Some(60), 1));
    assert!(m.should_notify(&None, &NotificationLevel::Error, &title, Some(60), 1));
    assert!(m.should_notify(&None, &NotificationLevel::Warning, &"cpu".to_string(), Some(60), 1));
    assert!(!m.should_notify(&acme, &NotificationLevel::Warning, &title, Some(60), 60));
    assert!(m.should_notify(&acme, &NotificationLevel::Warning, &title, Some(60), 61));
    assert!(m.should_notify(&None, &NotificationLevel::Warning, &title, Some(60), 60));
}

#[test]
fn an_interval_near_the_end_of_time_does_not_overflow() {
    let mut m = NotificationManager::new();
    let title = "t".to_string();
    assert!(m.should_notify(&None, &NotificationLevel::Info, &title, Some(u32::MAX), i64::MAX));
    assert!(!m.should_notify(&None, &NotificationLevel::Info, &title, Some(u32::MAX), i64::MAX));
    assert!(m.should_notify(&None, &NotificationLevel::Info, &title, Some(0), i64::MAX));
}

#[test]
fn notify_twice_within_a_second_leaves_one_row() {
    let mut m = NotificationManager::new();
    let mut l = Ledger::new();
    for _ in 0..2 {
        m.notify::<()>(
            &mut l,
            None,
            NotificationLevel::Warning,
            "disk-low".to_string(),
            "the disk is nearly full".to_string(),
            "null".to_string(),
            Some(3600),
        )
        .unwrap();
    }
    assert_eq!(l.len(), 1);
    assert_eq!(l.unread_count(), 1);
    // the row's time is the clock's: after the year 2020
    assert!(l.rows()[0].created_at > 1_577_836_800);
}

#[test]
fn data_that_is_not_json_is_a_serialization_error() {
    let mut m = NotificationManager::new();
    let mut l = Ledger::new();
    let e = m
        .notify_at::<BackupReport>(
            &mut l,
            None,
            NotificationLevel::Error,
            "Backup".to_string(),
            "failed".to_string(),
            "{\"server\":".to_string(),
            None,
            5,
        )
        .unwrap_err();
    assert_eq!(e.kind, ErrorKind::Serialization);
    assert_eq!(l.len(), 0);
    assert_eq!(l.unread_count(), 0);
    m.notify_at::<BackupReport>(
        &mut l,
        None,
        NotificationLevel::Error,
        "Backup".to_string(),
        "failed".to_string(),
        "{\"server\":{\"attempted\":true,\"error\":null},\"packages\":{}}".to_string(),
        None,
        5,
    )
    .unwrap();
    assert_eq!(l.rows()[0].code, 1);
}

#[test]
fn a_full_ledger_is_a_database_error() {
    let mut m = NotificationManager::new();
    let mut l = Ledger::from_rows(vec![row(i32::MAX - 1, "info", None)], 3).unwrap();
    let e = m
        .notify_at::<()>(
            &mut l,
            None,
            NotificationLevel::Info,
            "t".to_string(),
            "m".to_string(),
            "null".to_string(),
            None,
            0,
        )
        .unwrap_err();
    assert_eq!(e.kind, ErrorKind::Database);
    assert_eq!(l.len(), 1);
    assert_eq!(l.unread_count(), 3);
    let mut l = Ledger::from_rows(vec![], u64::MAX).unwrap();
    let e = l
        .insert(&None, 0, NotificationLevel::Info, "t".into(), "m".into(), "null".into(), 0)
        .unwrap_err();
    assert_eq!(e.kind, ErrorKind::Database);
    assert_eq!(l.len(), 0);
}

#[test]
fn list_gives_the_newest_first_below_before_up_to_the_limit() {
    let mut l = filled(50);
    assert_eq!(ids(&l.list(Some(10), Some(3)).unwrap()), vec![9, 8, 7]);
    assert_eq!(ids(&l.list(Some(3), Some(10)).unwrap()), vec![2, 1]);
    assert_eq!(ids(&l.list(Some(1), None).unwrap()), Vec::<u32>::new());
    assert_eq!(ids(&l.list(Some(i32::MIN), None).unwrap()), Vec::<u32>::new());
    assert_eq!(ids(&l.list(None, Some(0)).unwrap()), Vec::<u32>::new());
    assert_eq!(ids(&l.list(Some(i32::MAX), Some(2)).unwrap()), vec![50, 49]);
    // forty where no limit is given
    let all = l.list(None, None).unwrap();
    assert_eq!(all.len(), 40);
    assert_eq!(all[0].id, 50);
    assert_eq!(all[39].id, 11);
    assert_eq!(list(&mut l, Some(45), None).unwrap().len(), 40);
}

#[test]
fn only_a_list_of_the_latest_marks_as_read() {
    let rows: Vec<NotificationRow> = (1..=4).map(|id| row(id, "info", None)).collect();
    let mut l = Ledger::from_rows(rows, 4).unwrap();
    l.list(Some(3), None).unwrap();
    assert_eq!(l.unread_count(), 4);
    l.list(None, Some(1)).unwrap();
    assert_eq!(l.unread_count(), 0);
    l.list(None, None).unwrap();
    assert_eq!(l.unread_count(), 0);
}

#[test]
fn a_row_that_cannot_be_read_fails_the_list_and_marks_nothing() {
    let rows = vec![row(1, "info", None), row(2, "loud", None), row(3, "info", None)];
    let mut l = Ledger::from_rows(rows, 3).unwrap();
    let e = l.list(None, None).unwrap_err();
    assert_eq!(e.kind, ErrorKind::ParseDbField);
    assert_eq!(l.unread_count(), 3);
    // rows that are not asked for are not read
    assert_eq!(ids(&l.list(None, Some(1)).unwrap()), vec![3]);
    assert_eq!(l.unread_count(), 0);
    assert_eq!(ids(&l.list(Some(2), None).unwrap()), vec![1]);
    assert_eq!(l.list(Some(3), None).unwrap_err().kind, ErrorKind::ParseDbField);
}

#[test]
fn delete_takes_rows_out_and_leaves_the_counter() {
    let rows: Vec<NotificationRow> = (1..=6).map(|id| row(id, "info", None)).collect();
    let mut l = Ledger::from_rows(rows, 6).unwrap();
    l.delete(3);
    l.delete(3);
    l.delete(99);
    assert_eq!(ids(&l.list(Some(100), None).unwrap()), vec![6, 5, 4, 2, 1]);
    l.delete_before(5);
    assert_eq!(ids(&l.list(Some(100), None).unwrap()), vec![6, 5]);
    delete_before(&mut l, 5);
    delete(&mut l, 6);
    assert_eq!(ids(&l.list(Some(100), None).unwrap()), vec![5]);
    l.delete_before(i32::MAX);
    assert_eq!(l.len(), 0);
    assert_eq!(l.unread_count(), 6);
    // identifiers are not given again
    l.insert(&None, 0, NotificationLevel::Info, "t".into(), "m".into(), "null".into(), 0).unwrap();
    assert_eq!(l.rows()[0].id, 7);
}

#[test]
fn from_rows_wants_rising_identifiers_from_one() {
    assert!(Ledger::from_rows(vec![], 0).is_some());
    assert!(Ledger::from_rows(vec![row(1, "x", None), row(5, "x", None)], 9).is_some());
    assert!(Ledger::from_rows(vec![row(0, "x", None)], 0).is_none());
    assert!(Ledger::from_rows(vec![row(-3, "x", None)], 0).is_none());
    assert!(Ledger::from_rows(vec![row(2, "x", None), row(2, "x", None)], 0).is_none());
    assert!(Ledger::from_rows(vec![row(2, "x", None), row(1, "x", None)], 0).is_none());
    assert!(Ledger::from_rows(vec![row(i32::MAX, "x", None)], 0).is_none());
}

#[test]
fn create_reports_without_payload_and_is_never_held_back() {
    let mut m = NotificationManager::new();
    let mut l = Ledger::new();
    for _ in 0..2 {
        create(
            &mut m,
            &mut l,
            Some(PackageId::new("acme-crm".to_string())),
            NotificationLevel::Success,
            "Installed".to_string(),
            "Acme CRM was installed".to_string(),
        )
        .unwrap();
    }
    assert_eq!(l.len(), 2);
    let n = l.list(None, None).unwrap().remove(0);
    assert_eq!(n.id, 2);
    assert_eq!(n.code, 0);
    assert_eq!(n.level, NotificationLevel::Success);
    assert_eq!(n.package_id.unwrap().as_str(), "acme-crm");
    assert_eq!(n.data.as_deref(), Some("null"));
}

#[test]
fn a_report_counts_its_failures() {
    let report = BackupReport {
        server: ServerBackupReport { attempted: true, error: None },
        packages: vec![
            (PackageId::new("a".to_string()), PackageBackupReport::of(None)),
            (PackageId::new("b".to_string()), PackageBackupReport::of(Some("no space".to_string()))),
            (PackageId::new("c".to_string()), PackageBackupReport { error: None }),
        ],
    };
    assert_eq!(report.failed_packages(), 1);
    assert!(!report.is_clean());
    assert!(report.packages[0].1.succeeded());
    assert!(!report.packages[1].1.succeeded());
    let clean = BackupReport {
        server: ServerBackupReport { attempted: true, error: None },
        packages: vec![],
    };
    assert!(clean.is_clean());
    let unattempted = BackupReport {
        server: ServerBackupReport { attempted: false, error: None },
        packages: vec![],
    };
    assert!(!unattempted.is_clean());
}
