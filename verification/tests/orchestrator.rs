use backup_core::backup::create::{
    backup_archive, backup_dir, backup_metadata, installed_archive, CreateAction, CreateEvent,
    CreatePlan, CreateStage,
};
use backup_core::backup::keys::{project_keys, Key};
use backup_core::backup::procedure::{BackupActions, DockerProcedure, PackageProcedure};
use backup_core::backup::restore::{RestoreAction, RestoreEvent, RestorePlan, RestoreStage};
use backup_core::error::{Error, ErrorKind};
use backup_core::metadata::BackupMetadata;
use backup_core::package::PackageId;
use backup_core::timestamp::Timestamp;
use backup_core::version::Semver;
use backup_core::volume::{Volume, VolumeId, Volumes};

const K1: [u8; 32] = [0x11; 32];
const K2: [u8; 32] = [0x22; 32];
const T1: [u8; 64] = [0xa1; 64];
const T2: [u8; 64] = [0xa2; 64];

fn acme() -> PackageId {
    PackageId::new("acme-crm".to_string())
}

fn success_at() -> Timestamp {
    Timestamp { year: 2023, month: 6, day: 1, hour: 12, minute: 0, second: 0, nanos: 500 }
}

fn declared() -> Volumes {
    Volumes {
        entries: vec![
            (VolumeId::Custom("main".to_string()), Volume::Data { readonly: false }),
            (VolumeId::Custom("assets".to_string()), Volume::Assets),
            (VolumeId::Custom("peer".to_string()), Volume::Pointer { readonly: false }),
        ],
    }
}

fn actions() -> BackupActions {
    let procedure = || {
        PackageProcedure::Docker(DockerProcedure {
            image: "main".to_string(),
            system: false,
            inject: false,
            mounts: vec![VolumeId::Backup, VolumeId::Custom("main".to_string())],
            has_io_format: false,
        })
    };
    BackupActions { create: procedure(), restore: procedure() }
}

fn keys() -> Vec<Key> {
    vec![
        Key { interface: Some("web".to_string()), secret: K1, tor_key: T1 },
        Key { interface: None, secret: [0x33; 32], tor_key: [0xa3; 64] },
        Key { interface: Some("api".to_string()), secret: K2, tor_key: T2 },
    ]
}

fn plan() -> CreatePlan {
    actions().create(
        acme(),
        "Acme CRM".to_string(),
        "1.2.0".to_string(),
        &declared(),
        "/media/backups".to_string(),
        "/data/archive".to_string(),
    )
}

fn kind_of(action: &CreateAction) -> &'static str {
    match action {
        CreateAction::EnsureDirectory(_) => "dir",
        CreateAction::RunProcedure(_) => "run",
        CreateAction::ExportKeys => "keys",
        CreateAction::ReadMarketplaceUrl => "url",
        CreateAction::CommitArchive { .. } => "archive",
        CreateAction::CommitMetadata { .. } => "metadata",
        CreateAction::Finish(Ok(_)) => "ok",
        CreateAction::Finish(Err(_)) => "err",
    }
}

fn failure(action: CreateAction) -> Error {
    match action {
        CreateAction::Finish(Err(e)) => e,
        other => panic!("the backup went on with {}", kind_of(&other)),
    }
}

fn good_events() -> Vec<CreateEvent> {
    vec![
        CreateEvent::Start,
        CreateEvent::DirectoryReady(Ok(())),
        CreateEvent::ProcedureReturned { outcome: Ok(()), at: success_at() },
        CreateEvent::KeysExported(Ok(keys())),
        CreateEvent::MarketplaceUrlRead(Ok(Some("https://registry.start9.com/".to_string()))),
        CreateEvent::ArchiveCommitted(Ok(())),
        CreateEvent::MetadataCommitted(Ok(())),
    ]
}

#[test]
fn paths_follow_the_layout() {
    assert_eq!(backup_dir("/media/backups", &acme()), "/media/backups/acme-crm");
    assert_eq!(backup_archive("/media/backups", &acme()), "/media/backups/acme-crm/acme-crm.s9pk");
    assert_eq!(backup_metadata("/media/backups", &acme()), "/media/backups/acme-crm/metadata.cbor");
    assert_eq!(
        installed_archive("/data/archive", &acme(), "1.2.0"),
        "/data/archive/acme-crm/1.2.0/acme-crm.s9pk"
    );
}

#[test]
fn a_backup_of_acme_crm_goes_through_its_steps() {
    let mut plan = plan();
    assert_eq!(plan.current_stage(), CreateStage::Ready);
    let mut events = good_events().into_iter();

    match plan.step(events.next().unwrap()) {
        CreateAction::EnsureDirectory(path) => assert_eq!(path, "/media/backups/acme-crm"),
        other => panic!("{}", kind_of(&other)),
    }
    match plan.step(events.next().unwrap()) {
        CreateAction::RunProcedure(volumes) => {
            let got: Vec<(String, Volume)> = volumes
                .entries
                .iter()
                .map(|(id, v)| {
                    let name = match id {
                        VolumeId::Backup => "BACKUP".to_string(),
                        VolumeId::Custom(name) => name.clone(),
                    };
                    (name, *v)
                })
                .collect();
            assert_eq!(
                got,
                vec![
                    ("main".to_string(), Volume::Data { readonly: true }),
                    ("assets".to_string(), Volume::Assets),
                    ("peer".to_string(), Volume::Pointer { readonly: true }),
                    ("BACKUP".to_string(), Volume::Backup { readonly: false }),
                ]
            );
        }
        other => panic!("{}", kind_of(&other)),
    }
    assert_eq!(kind_of(&plan.step(events.next().unwrap())), "keys");
    assert_eq!(kind_of(&plan.step(events.next().unwrap())), "url");
    match plan.step(events.next().unwrap()) {
        CreateAction::CommitArchive { from, to } => {
            assert_eq!(from, "/data/archive/acme-crm/1.2.0/acme-crm.s9pk");
            assert_eq!(to, "/media/backups/acme-crm/acme-crm.s9pk");
        }
        other => panic!("{}", kind_of(&other)),
    }
    match plan.step(events.next().unwrap()) {
        CreateAction::CommitMetadata { path, bytes } => {
            assert_eq!(path, "/media/backups/acme-crm/metadata.cbor");
            let m = BackupMetadata::decode(&bytes).unwrap();
            assert_eq!(m.timestamp, success_at());
            let names: Vec<&str> = m.network_keys.iter().map(|e| e.interface.as_str()).collect();
            assert_eq!(names, vec!["web", "api"]);
            assert_eq!(m.network_keys[0].key, K1);
            assert_eq!(m.network_keys[1].key, K2);
            let names: Vec<&str> = m.tor_keys.iter().map(|e| e.interface.as_str()).collect();
            assert_eq!(names, vec!["web", "api"]);
            assert_eq!(m.tor_keys[0].key, T1);
            assert_eq!(m.tor_keys[1].key, T2);
            assert_eq!(m.marketplace_url.as_deref(), Some("https://registry.start9.com/"));
        }
        other => panic!("{}", kind_of(&other)),
    }
    assert_eq!(plan.current_stage(), CreateStage::WritingMetadata);
    match plan.step(events.next().unwrap()) {
        CreateAction::Finish(Ok(info)) => {
            assert_eq!(info.title, "Acme CRM");
            assert_eq!(info.version, "1.2.0");
            assert_eq!(info.os_version, Semver::new(0, 3, 3, 0));
            assert_eq!(info.timestamp, success_at());
        }
        other => panic!("{}", kind_of(&other)),
    }
    assert_eq!(plan.current_stage(), CreateStage::Done);
    // whatever comes now, the result stays
    assert_eq!(kind_of(&plan.step(CreateEvent::Start)), "ok");
    assert_eq!(
        kind_of(&plan.step(CreateEvent::MetadataCommitted(Err(Error::new(
            ErrorKind::Filesystem,
            "late".to_string()
        ))))),
        "ok"
    );
}

#[test]
fn a_failed_procedure_ends_the_backup_with_its_own_message() {
    let mut plan = plan();
    plan.step(CreateEvent::Start);
    plan.step(CreateEvent::DirectoryReady(Ok(())));
    let e = failure(plan.step(CreateEvent::ProcedureReturned {
        outcome: Err("tar: write error".to_string()),
        at: success_at(),
    }));
    assert_eq!(e.kind, ErrorKind::Backup);
    assert_eq!(e.message, "tar: write error");
    assert_eq!(plan.current_stage(), CreateStage::Failed);
    // no retry: the failure is given again
    let e = failure(plan.step(CreateEvent::ProcedureReturned { outcome: Ok(()), at: success_at() }));
    assert_eq!(e.kind, ErrorKind::Backup);
    assert_eq!(e.message, "tar: write error");
}

#[test]
fn each_failing_step_of_a_backup_gives_its_kind_of_error() {
    let faults: Vec<(usize, CreateEvent, ErrorKind, &str)> = vec![
        (1, CreateEvent::DirectoryReady(Err("read-only".to_string())), ErrorKind::Filesystem, "read-only"),
        (
            3,
            CreateEvent::KeysExported(Err(Error::new(ErrorKind::Database, "no keys".to_string()))),
            ErrorKind::Database,
            "no keys",
        ),
        (
            4,
            CreateEvent::MarketplaceUrlRead(Err(Error::new(
                ErrorKind::Database,
                "no record".to_string(),
            ))),
            ErrorKind::Database,
            "no record",
        ),
        (
            5,
            CreateEvent::ArchiveCommitted(Err(Error::new(ErrorKind::Unknown, "cp failed".to_string()))),
            ErrorKind::Filesystem,
            "cp failed",
        ),
        (
            6,
            CreateEvent::MetadataCommitted(Err(Error::new(ErrorKind::Unknown, "disk full".to_string()))),
            ErrorKind::Filesystem,
            "disk full",
        ),
        (2, CreateEvent::Start, ErrorKind::Unknown, "event out of turn"),
        (0, CreateEvent::DirectoryReady(Ok(())), ErrorKind::Unknown, "event out of turn"),
    ];
    for (at, event, kind, message) in faults {
        let mut plan = plan();
        for good in good_events().into_iter().take(at) {
            assert_ne!(kind_of(&plan.step(good)), "err");
        }
        let e = failure(plan.step(event));
        assert_eq!(e.kind, kind);
        assert_eq!(e.message, message);
        assert_eq!(plan.current_stage(), CreateStage::Failed);
    }
}

#[test]
fn an_envelope_that_is_not_valid_is_not_written() {
    let mut plan = plan();
    let mut events = good_events();
    events[4] = CreateEvent::MarketplaceUrlRead(Ok(Some("not a url".to_string())));
    let mut last = None;
    for event in events.into_iter().take(6) {
        last = Some(plan.step(event));
    }
    let e = failure(last.unwrap());
    assert_eq!(e.kind, ErrorKind::Serialization);
    assert_eq!(e.message, "backup metadata is not valid");

    let mut plan = self::plan();
    let mut events = good_events();
    events[2] = CreateEvent::ProcedureReturned {
        outcome: Ok(()),
        at: Timestamp { year: 2023, month: 2, day: 30, hour: 0, minute: 0, second: 0, nanos: 0 },
    };
    let mut last = None;
    for event in events.into_iter().take(6) {
        last = Some(plan.step(event));
    }
    assert_eq!(failure(last.unwrap()).kind, ErrorKind::Serialization);
}

#[test]
fn of_two_keys_for_one_interface_the_later_stays_in_its_place() {
    let keys = vec![
        Key { interface: Some("web".to_string()), secret: [1; 32], tor_key: [2; 64] },
        Key { interface: Some("api".to_string()), secret: [3; 32], tor_key: [4; 64] },
        Key { interface: None, secret: [5; 32], tor_key: [6; 64] },
        Key { interface: Some("web".to_string()), secret: [7; 32], tor_key: [8; 64] },
    ];
    let (network, tor) = project_keys(&keys);
    let got: Vec<(&str, u8)> = network.iter().map(|e| (e.interface.as_str(), e.key[0])).collect();
    assert_eq!(got, vec![("web", 7), ("api", 3)]);
    let got: Vec<(&str, u8)> = tor.iter().map(|e| (e.interface.as_str(), e.key[63])).collect();
    assert_eq!(got, vec![("web", 8), ("api", 4)]);
    let (network, tor) = project_keys(&Vec::new());
    assert!(network.is_empty() && tor.is_empty());
}

fn envelope(url: Option<&str>) -> Vec<u8> {
    BackupMetadata {
        timestamp: success_at(),
        network_keys: vec![],
        tor_keys: vec![],
        marketplace_url: url.map(|u| u.to_string()),
    }
    .encode()
}

fn restore_plan() -> RestorePlan {
    actions().restore(acme(), &declared(), "/media/backups".to_string())
}

fn restore_kind(action: &RestoreAction) -> &'static str {
    match action {
        RestoreAction::RunProcedure(_) => "run",
        RestoreAction::ReadMetadata(_) => "read",
        RestoreAction::WriteMarketplaceUrl(_) => "write",
        RestoreAction::ReconfigureDependents => "reconfigure",
        RestoreAction::Finish(Ok(())) => "ok",
        RestoreAction::Finish(Err(_)) => "err",
    }
}

fn restore_failure(action: RestoreAction) -> Error {
    match action {
        RestoreAction::Finish(Err(e)) => e,
        other => panic!("the restore went on with {}", restore_kind(&other)),
    }
}

#[test]
fn a_restore_of_acme_crm_writes_the_url_and_asks_the_dependents_once() {
    // the backup that is restored is the one that a backup run wrote
    let mut backup = plan();
    let mut written = None;
    for event in good_events() {
        if let CreateAction::CommitMetadata { bytes, .. } = backup.step(event) {
            written = Some(bytes);
        }
    }
    let written = written.unwrap();

    let mut plan = restore_plan();
    let mut asked: Vec<&'static str> = Vec::new();
    match plan.step(RestoreEvent::Start) {
        RestoreAction::RunProcedure(volumes) => {
            asked.push("run");
            assert_eq!(volumes.entries.len(), 4);
            assert_eq!(volumes.entries[0].1, Volume::Data { readonly: false });
            assert_eq!(volumes.entries[2].1, Volume::Pointer { readonly: false });
            assert!(volumes.entries[3].0.is_backup());
            assert_eq!(volumes.entries[3].1, Volume::Backup { readonly: true });
        }
        other => panic!("{}", restore_kind(&other)),
    }
    match plan.step(RestoreEvent::ProcedureReturned(Ok(()))) {
        RestoreAction::ReadMetadata(path) => {
            asked.push("read");
            assert_eq!(path, "/media/backups/acme-crm/metadata.cbor");
        }
        other => panic!("{}", restore_kind(&other)),
    }
    match plan.step(RestoreEvent::MetadataRead(Ok(written))) {
        RestoreAction::WriteMarketplaceUrl(url) => {
            asked.push("write");
            assert_eq!(url.as_deref(), Some("https://registry.start9.com/"));
        }
        other => panic!("{}", restore_kind(&other)),
    }
    assert_eq!(plan.metadata().as_ref().unwrap().network_keys.len(), 2);
    asked.push(restore_kind(&plan.step(RestoreEvent::MarketplaceUrlWritten(Ok(())))));
    asked.push(restore_kind(&plan.step(RestoreEvent::DependentsReconfigured(Ok(())))));
    asked.push(restore_kind(&plan.step(RestoreEvent::DependentsReconfigured(Ok(())))));
    assert_eq!(asked, vec!["run", "read", "write", "reconfigure", "ok", "ok"]);
    assert_eq!(plan.current_stage(), RestoreStage::Done);
}

#[test]
fn a_restore_without_an_envelope_fails_and_writes_nothing() {
    let mut plan = restore_plan();
    assert_eq!(restore_kind(&plan.step(RestoreEvent::Start)), "run");
    assert_eq!(restore_kind(&plan.step(RestoreEvent::ProcedureReturned(Ok(())))), "read");
    let e = restore_failure(plan.step(RestoreEvent::MetadataRead(Err(
        "/media/backups/acme-crm/metadata.cbor: No such file or directory".to_string(),
    ))));
    assert_eq!(e.kind, ErrorKind::Filesystem);
    assert_eq!(e.message, "/media/backups/acme-crm/metadata.cbor: No such file or directory");
    assert!(plan.metadata().is_none());
    for event in [
        RestoreEvent::MetadataRead(Ok(envelope(None))),
        RestoreEvent::MarketplaceUrlWritten(Ok(())),
        RestoreEvent::DependentsReconfigured(Ok(())),
        RestoreEvent::Start,
    ] {
        assert_eq!(restore_failure(plan.step(event)).kind, ErrorKind::Filesystem);
    }
    assert_eq!(plan.current_stage(), RestoreStage::Failed);
}

#[test]
fn each_failing_step_of_a_restore_gives_its_kind_of_error() {
    let good = || {
        vec![
            RestoreEvent::Start,
            RestoreEvent::ProcedureReturned(Ok(())),
            RestoreEvent::MetadataRead(Ok(envelope(None))),
            RestoreEvent::MarketplaceUrlWritten(Ok(())),
            RestoreEvent::DependentsReconfigured(Ok(())),
        ]
    };
    let mut cut = envelope(Some("https://example.com/"));
    cut.truncate(cut.len() - 1);
    let faults: Vec<(usize, RestoreEvent, ErrorKind, &str)> = vec![
        (1, RestoreEvent::ProcedureReturned(Err("untar failed".to_string())), ErrorKind::Restore, "untar failed"),
        (2, RestoreEvent::MetadataRead(Ok(cut)), ErrorKind::Serialization, "malformed backup metadata"),
        (
            3,
            RestoreEvent::MarketplaceUrlWritten(Err(Error::new(ErrorKind::Database, "locked".to_string()))),
            ErrorKind::Database,
            "locked",
        ),
        (
            4,
            RestoreEvent::DependentsReconfigured(Err(Error::new(
                ErrorKind::Unknown,
                "dependent failed".to_string(),
            ))),
            ErrorKind::Unknown,
            "dependent failed",
        ),
        (2, RestoreEvent::MarketplaceUrlWritten(Ok(())), ErrorKind::Unknown, "event out of turn"),
        (0, RestoreEvent::ProcedureReturned(Ok(())), ErrorKind::Unknown, "event out of turn"),
    ];
    for (at, event, kind, message) in faults {
        let mut plan = restore_plan();
        for good in good().into_iter().take(at) {
            assert_ne!(restore_kind(&plan.step(good)), "err");
        }
        let e = restore_failure(plan.step(event));
        assert_eq!(e.kind, kind);
        assert_eq!(e.message, message);
    }
}

#[test]
fn a_restore_writes_no_url_where_the_envelope_has_none() {
    let mut plan = restore_plan();
    plan.step(RestoreEvent::Start);
    plan.step(RestoreEvent::ProcedureReturned(Ok(())));
    match plan.step(RestoreEvent::MetadataRead(Ok(envelope(None)))) {
        RestoreAction::WriteMarketplaceUrl(url) => assert!(url.is_none()),
        other => panic!("{}", restore_kind(&other)),
    }
}

#[test]
fn procedures_are_checked_against_what_the_package_declares() {
    let images = vec!["main".to_string()];
    assert!(actions().validate(false, &declared(), &images).is_ok());

    let docker = |image: &str, system: bool, inject: bool, mounts: Vec<VolumeId>, io: bool| {
        PackageProcedure::Docker(DockerProcedure {
            image: image.to_string(),
            system,
            inject,
            mounts,
            has_io_format: io,
        })
    };
    let check = |p: &PackageProcedure, container: bool, io: bool| {
        p.validate(container, &declared(), &images, io).map_err(|e| {
            assert_eq!(e.kind, ErrorKind::ValidateS9pk);
            e.message
        })
    };
    assert_eq!(check(&PackageProcedure::Script, false, true), Ok(()));
    assert_eq!(
        check(&docker("main", false, false, vec![VolumeId::Custom("nope".to_string())], true), true, true),
        Err("unknown volume: nope".to_string())
    );
    assert_eq!(
        check(
            &docker(
                "other",
                false,
                false,
                vec![VolumeId::Custom("main".to_string()), VolumeId::Custom("x".to_string())],
                true
            ),
            true,
            true
        ),
        Err("unknown volume: x".to_string())
    );
    assert_eq!(
        check(&docker("other", false, false, vec![VolumeId::Backup], true), true, true),
        Err("image not contained in package: other".to_string())
    );
    assert_eq!(
        check(&docker("main", true, false, vec![], true), true, true),
        Err("unknown system image: main".to_string())
    );
    assert_eq!(check(&docker("compat", true, false, vec![], true), true, true), Ok(()));
    assert_eq!(check(&docker("utils", true, false, vec![], true), true, true), Ok(()));
    assert_eq!(
        check(&docker("main", false, true, vec![], true), false, true),
        Err("no container to run in".to_string())
    );
    assert_eq!(check(&docker("main", false, true, vec![], true), true, true), Ok(()));
    assert_eq!(
        check(&docker("main", false, false, vec![], false), true, true),
        Err("expected io-format".to_string())
    );
    assert_eq!(check(&docker("main", false, false, vec![], false), true, false), Ok(()));

    let bad = BackupActions {
        create: docker("main", false, false, vec![], false),
        restore: docker("gone", false, false, vec![], false),
    };
    let e = bad.validate(true, &declared(), &images).unwrap_err();
    assert_eq!(e.kind, ErrorKind::ValidateS9pk);
    assert_eq!(e.message, "Backup Restore: image not contained in package: gone");
    let bad = BackupActions {
        create: docker("gone", false, false, vec![], false),
        restore: docker("gone", true, false, vec![], false),
    };
    assert_eq!(
        bad.validate(true, &declared(), &images).unwrap_err().message,
        "Backup Create: image not contained in package: gone"
    );
}

#[test]
fn a_backup_volume_that_the_package_declares_is_replaced() {
    let mut volumes = declared();
    volumes.entries.insert(1, (VolumeId::Backup, Volume::Backup { readonly: true }));
    let v = volumes.for_backup(true, false);
    assert_eq!(v.entries.len(), 4);
    assert_eq!(v.entries.iter().filter(|(id, _)| id.is_backup()).count(), 1);
    assert_eq!(v.entries[3].1, Volume::Backup { readonly: false });
    assert!(volumes.contains(&VolumeId::Backup));
    assert!(volumes.contains(&VolumeId::Custom("peer".to_string())));
    assert!(!volumes.contains(&VolumeId::Custom("pee".to_string())));
    assert!(!Volumes::new().contains(&VolumeId::Backup));
    assert_eq!(Volume::Certificate.to_readonly(), Volume::Certificate);
    assert_eq!(Volume::Backup { readonly: false }.to_readonly(), Volume::Backup { readonly: true });
}

#[test]
fn a_backup_can_be_called_off_only_before_the_procedure_runs() {
    let mut plan = plan();
    assert!(plan.cancel());
    assert_eq!(plan.current_stage(), CreateStage::Failed);
    let e = failure(plan.step(CreateEvent::Start));
    assert_eq!(e.kind, ErrorKind::Unknown);
    assert_eq!(e.message, "cancelled");
    assert!(!plan.cancel());

    let mut plan = self::plan();
    plan.step(CreateEvent::Start);
    assert!(plan.cancel());
    assert_eq!(failure(plan.step(CreateEvent::DirectoryReady(Ok(())))).message, "cancelled");

    let mut plan = self::plan();
    let mut events = good_events().into_iter();
    plan.step(events.next().unwrap());
    assert_eq!(kind_of(&plan.step(events.next().unwrap())), "run");
    // the procedure is running: the backup goes on
    assert!(!plan.cancel());
    assert_eq!(plan.current_stage(), CreateStage::RunningProcedure);
    assert_eq!(kind_of(&plan.step(events.next().unwrap())), "keys");
    assert!(!plan.cancel());
    for event in events {
        assert!(!plan.cancel());
        assert_ne!(kind_of(&plan.step(event)), "err");
    }
    assert_eq!(plan.current_stage(), CreateStage::Done);
    assert!(!plan.cancel());
    assert_eq!(plan.current_stage(), CreateStage::Done);
}

#[test]
fn a_restore_can_be_called_off_only_before_the_procedure_runs() {
    let mut plan = restore_plan();
    assert!(plan.cancel());
    let e = restore_failure(plan.step(RestoreEvent::Start));
    assert_eq!(e.kind, ErrorKind::Unknown);
    assert_eq!(e.message, "cancelled");

    let mut plan = restore_plan();
    assert_eq!(restore_kind(&plan.step(RestoreEvent::Start)), "run");
    assert!(!plan.cancel());
    assert_eq!(plan.current_stage(), RestoreStage::RunningProcedure);
    assert_eq!(restore_kind(&plan.step(RestoreEvent::ProcedureReturned(Ok(())))), "read");
    assert!(!plan.cancel());
}
