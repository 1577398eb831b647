//! One backup of one package, as a plan: the plan says what to do next, and
//! whoever drives it does that and reports how it went. Nothing is tried
//! twice: the first step that fails ends the backup with its error.
//!
//! The steps, in order: make sure that the package's backup directory is
//! there; run the package's own procedure with the backup volume open for
//! writing and every other volume closed; fetch the package's network keys;
//! read the marketplace that the package came from; copy the package's
//! archive; write the envelope. The envelope's timestamp is the instant at
//! which the package's procedure was reported to have succeeded.

use vstd::prelude::*;
use crate::backup::keys::{
    interfaces_of, key_views, lemma_tables_agree, network_table, project_keys, tor_table, Key,
};
use crate::backup::procedure::BackupActions;
use crate::backup::report::{PackageBackupInfo, PackageBackupInfoView};
use crate::error::{Error, ErrorKind};
use crate::metadata::{
    entries_view, envelope_bytes, parse_envelope, BackupMetadata, MetadataView,
};
use crate::package::PackageId;
use crate::text::join;
use crate::timestamp::Timestamp;
use crate::version::{Semver, Version};
use crate::volume::{with_backup_volume, VolumeIdView, Volume, Volumes};

verus! {

/// Where a backup stands: what it waits for.
#[derive(Clone, Copy, Debug, PartialEq, Eq, Structural)]
pub enum CreateStage {
    /// Nothing was asked for yet.
    Ready,
    /// The backup directory is being made.
    EnsuringDirectory,
    /// The package's procedure is running.
    RunningProcedure,
    /// The network keys are being fetched.
    ExportingKeys,
    /// The marketplace URL is being read.
    ReadingMarketplace,
    /// The archive is being copied.
    CopyingArchive,
    /// The envelope is being written.
    WritingMetadata,
    /// Over: the backup was made.
    Done,
    /// Over: a step failed.
    Failed,
}

/// The report of the step that was asked for.
pub enum CreateEvent {
    /// Nothing was done yet: begin.
    Start,
    /// The backup directory is there, or could not be made.
    DirectoryReady(Result<(), String>),
    /// The package's procedure returned, with its own message where it
    /// failed; `at` is the instant at which its result came in.
    ProcedureReturned { outcome: Result<(), String>, at: Timestamp },
    /// The key store's answer.
    KeysExported(Result<Vec<Key>, Error>),
    /// The marketplace that the installed package's record names.
    MarketplaceUrlRead(Result<Option<String>, Error>),
    /// The archive was copied and committed, or not.
    ArchiveCommitted(Result<(), Error>),
    /// The envelope was committed, or not.
    MetadataCommitted(Result<(), Error>),
}

/// What to do next.
pub enum CreateAction {
    /// Make this directory unless it is there.
    EnsureDirectory(String),
    /// Run the procedure that makes the backup, with these volumes.
    RunProcedure(Volumes),
    /// Fetch the package's network keys.
    ExportKeys,
    /// Read the marketplace URL of the installed package.
    ReadMarketplaceUrl,
    /// Copy the file `from` to `to` by a durable write.
    CommitArchive { from: String, to: String },
    /// Write these bytes to this path by a durable write.
    CommitMetadata { path: String, bytes: Vec<u8> },
    /// Nothing more: the backup ended so.
    Finish(Result<PackageBackupInfo, Error>),
}

/// The directory of a package on the backup volume.
pub open spec fn backup_dir_path(root: Seq<char>, id: Seq<char>) -> Seq<char> {
    root + "/"@ + id
}

/// The path of the archive's copy in a package's backup directory.
pub open spec fn backup_archive_path(root: Seq<char>, id: Seq<char>) -> Seq<char> {
    backup_dir_path(root, id) + "/"@ + id + ".s9pk"@
}

/// The path of the envelope in a package's backup directory.
pub open spec fn metadata_path(root: Seq<char>, id: Seq<char>) -> Seq<char> {
    backup_dir_path(root, id) + "/"@ + "metadata.cbor"@
}

/// The path of the installed archive of a package's version.
pub open spec fn installed_archive_path(
    root: Seq<char>,
    id: Seq<char>,
    version: Seq<char>,
) -> Seq<char> {
    root + "/"@ + id + "/"@ + version + "/"@ + id + ".s9pk"@
}

/// The directory of a package on the backup volume.
pub fn backup_dir(root: &str, id: &PackageId) -> (path: String)
    ensures
        path@ == backup_dir_path(root@, id@),
{
    let base = join(root, "/");
    join(base.as_str(), id.as_str())
}

/// The path of the archive's copy in a package's backup directory.
pub fn backup_archive(root: &str, id: &PackageId) -> (path: String)
    ensures
        path@ == backup_archive_path(root@, id@),
{
    let dir = backup_dir(root, id);
    let a = join(dir.as_str(), "/");
    let b = join(a.as_str(), id.as_str());
    join(b.as_str(), ".s9pk")
}

/// The path of the envelope in a package's backup directory.
pub fn backup_metadata(root: &str, id: &PackageId) -> (path: String)
    ensures
        path@ == metadata_path(root@, id@),
{
    let dir = backup_dir(root, id);
    let a = join(dir.as_str(), "/");
    join(a.as_str(), "metadata.cbor")
}

/// The path of the installed archive of a package's version.
pub fn installed_archive(root: &str, id: &PackageId, version: &str) -> (path: String)
    ensures
        path@ == installed_archive_path(root@, id@, version@),
{
    let a = join(root, "/");
    let b = join(a.as_str(), id.as_str());
    let c = join(b.as_str(), "/");
    let d = join(c.as_str(), version);
    let e = join(d.as_str(), "/");
    let f = join(e.as_str(), id.as_str());
    join(f.as_str(), ".s9pk")
}

impl CreateEvent {
    /// Whether the event is the report that the stage waits for.
    pub open spec fn in_turn(&self, stage: CreateStage) -> bool {
        match (stage, self) {
            (CreateStage::Ready, CreateEvent::Start) => true,
            (CreateStage::EnsuringDirectory, CreateEvent::DirectoryReady(_)) => true,
            (CreateStage::RunningProcedure, CreateEvent::ProcedureReturned { .. }) => true,
            (CreateStage::ExportingKeys, CreateEvent::KeysExported(_)) => true,
            (CreateStage::ReadingMarketplace, CreateEvent::MarketplaceUrlRead(_)) => true,
            (CreateStage::CopyingArchive, CreateEvent::ArchiveCommitted(_)) => true,
            (CreateStage::WritingMetadata, CreateEvent::MetadataCommitted(_)) => true,
            _ => false,
        }
    }

    /// The error that the event stands for: none for a step that went well.
    /// A failed procedure gives an error of the kind `Backup` with the
    /// procedure's own message; a directory that cannot be made and a file
    /// that cannot be committed give one of the kind `Filesystem`; the key
    /// store's and the database's errors are passed on as they are.
    pub open spec fn fault(&self) -> Option<(ErrorKind, Seq<char>)> {
        match self {
            CreateEvent::Start => None,
            CreateEvent::DirectoryReady(Ok(_)) => None,
            CreateEvent::DirectoryReady(Err(message)) => Some((ErrorKind::Filesystem, message@)),
            CreateEvent::ProcedureReturned { outcome: Ok(_), .. } => None,
            CreateEvent::ProcedureReturned { outcome: Err(message), .. } => Some(
                (ErrorKind::Backup, message@),
            ),
            CreateEvent::KeysExported(Ok(_)) => None,
            CreateEvent::KeysExported(Err(e)) => Some(e.parts()),
            CreateEvent::MarketplaceUrlRead(Ok(_)) => None,
            CreateEvent::MarketplaceUrlRead(Err(e)) => Some(e.parts()),
            CreateEvent::ArchiveCommitted(Ok(_)) => None,
            CreateEvent::ArchiveCommitted(Err(e)) => Some((ErrorKind::Filesystem, e.message@)),
            CreateEvent::MetadataCommitted(Ok(_)) => None,
            CreateEvent::MetadataCommitted(Err(e)) => Some((ErrorKind::Filesystem, e.message@)),
        }
    }
}

/// The stage that follows a stage whose step went well.
pub open spec fn stage_after(stage: CreateStage) -> CreateStage {
    match stage {
        CreateStage::Ready => CreateStage::EnsuringDirectory,
        CreateStage::EnsuringDirectory => CreateStage::RunningProcedure,
        CreateStage::RunningProcedure => CreateStage::ExportingKeys,
        CreateStage::ExportingKeys => CreateStage::ReadingMarketplace,
        CreateStage::ReadingMarketplace => CreateStage::CopyingArchive,
        CreateStage::CopyingArchive => CreateStage::WritingMetadata,
        CreateStage::WritingMetadata => CreateStage::Done,
        CreateStage::Done => CreateStage::Done,
        CreateStage::Failed => CreateStage::Failed,
    }
}

/// What a backup has gathered for its envelope.
pub struct Gathered {
    pub timestamp: Option<Timestamp>,
    pub network_keys: Seq<(Seq<char>, Seq<u8>)>,
    pub tor_keys: Seq<(Seq<char>, Seq<u8>)>,
    pub marketplace_url: Option<Seq<char>>,
}

impl Gathered {
    /// The envelope of what was gathered.
    pub open spec fn envelope(self) -> MetadataView {
        MetadataView {
            timestamp: match self.timestamp {
                Some(t) => t,
                None => Timestamp { year: 0, month: 0, day: 0, hour: 0, minute: 0, second: 0, nanos: 0 },
            },
            network_keys: self.network_keys,
            tor_keys: self.tor_keys,
            marketplace_url: self.marketplace_url,
        }
    }

    /// What is gathered once the event has come in at the stage: the
    /// instant of the procedure's success, the tables of the keys, the
    /// marketplace URL, each from the report that brings it.
    pub open spec fn with(self, stage: CreateStage, event: CreateEvent) -> Gathered {
        match (stage, event) {
            (CreateStage::RunningProcedure, CreateEvent::ProcedureReturned { outcome: Ok(_), at }) => {
                Gathered { timestamp: Some(at), ..self }
            },
            (CreateStage::ExportingKeys, CreateEvent::KeysExported(Ok(keys))) => Gathered {
                network_keys: network_table(key_views(keys@)),
                tor_keys: tor_table(key_views(keys@)),
                ..self
            },
            (CreateStage::ReadingMarketplace, CreateEvent::MarketplaceUrlRead(Ok(url))) => {
                Gathered {
                    marketplace_url: match url {
                        Some(text) => Some(text@),
                        None => None,
                    },
                    ..self
                }
            },
            _ => self,
        }
    }
}

/// Why a step ends the backup: an event out of turn, the event's own error,
/// or, when the envelope is due, an envelope that is not valid. `None` where
/// the backup goes on.
pub open spec fn step_fault(stage: CreateStage, gathered: Gathered, event: CreateEvent) -> Option<
    (ErrorKind, Seq<char>),
> {
    if stage == CreateStage::Done || stage == CreateStage::Failed {
        None
    } else if !event.in_turn(stage) {
        Some((ErrorKind::Unknown, "event out of turn"@))
    } else if event.fault().is_some() {
        event.fault()
    } else if stage == CreateStage::CopyingArchive && !gathered.envelope().valid() {
        Some((ErrorKind::Serialization, "backup metadata is not valid"@))
    } else {
        None
    }
}

/// One backup of one package.
pub struct CreatePlan {
    pkg_id: PackageId,
    title: String,
    version: String,
    backup_root: String,
    archive_root: String,
    volumes: Volumes,
    stage: CreateStage,
    stamped: bool,
    metadata: BackupMetadata,
    failure: Option<Error>,
}

impl CreateAction {
    /// The action is the one that the plan asks for at `stage`, with the
    /// paths, volumes, bytes and result that belong to the plan.
    pub open spec fn fits(&self, plan: &CreatePlan) -> bool {
        match (plan.stage(), self) {
            (CreateStage::EnsuringDirectory, CreateAction::EnsureDirectory(path)) => path@
                == backup_dir_path(plan.backup_root(), plan.pkg_id()),
            (CreateStage::RunningProcedure, CreateAction::RunProcedure(volumes)) => volumes@
                == plan.volumes(),
            (CreateStage::ExportingKeys, CreateAction::ExportKeys) => true,
            (CreateStage::ReadingMarketplace, CreateAction::ReadMarketplaceUrl) => true,
            (CreateStage::CopyingArchive, CreateAction::CommitArchive { from, to }) => from@
                == installed_archive_path(plan.archive_root(), plan.pkg_id(), plan.version())
                && to@ == backup_archive_path(plan.backup_root(), plan.pkg_id()),
            (CreateStage::WritingMetadata, CreateAction::CommitMetadata { path, bytes }) => path@
                == metadata_path(plan.backup_root(), plan.pkg_id()) && bytes@ == envelope_bytes(
                plan.gathered().envelope(),
            ) && parse_envelope(bytes@) == Some(plan.gathered().envelope()),
            (CreateStage::Done, CreateAction::Finish(Ok(info))) => info@ == (PackageBackupInfoView {
                os_version: Semver { major: 0, minor: 3, patch: 3, revision: 0 },
                title: plan.title(),
                version: plan.version(),
                timestamp: plan.gathered().envelope().timestamp,
            }),
            (CreateStage::Failed, CreateAction::Finish(Err(e))) => Some(e.parts())
                == plan.failure(),
            _ => false,
        }
    }
}

impl CreatePlan {
    pub closed spec fn pkg_id(&self) -> Seq<char> {
        self.pkg_id@
    }

    pub closed spec fn title(&self) -> Seq<char> {
        self.title@
    }

    pub closed spec fn version(&self) -> Seq<char> {
        self.version@
    }

    pub closed spec fn backup_root(&self) -> Seq<char> {
        self.backup_root@
    }

    pub closed spec fn archive_root(&self) -> Seq<char> {
        self.archive_root@
    }

    /// The volumes that the package's procedure runs with.
    pub closed spec fn volumes(&self) -> Seq<(VolumeIdView, Volume)> {
        self.volumes@
    }

    pub closed spec fn stage(&self) -> CreateStage {
        self.stage
    }

    /// What the backup has gathered for its envelope so far.
    pub closed spec fn gathered(&self) -> Gathered {
        Gathered {
            timestamp: if self.stamped {
                Some(self.metadata.timestamp)
            } else {
                None
            },
            network_keys: self.metadata@.network_keys,
            tor_keys: self.metadata@.tor_keys,
            marketplace_url: self.metadata@.marketplace_url,
        }
    }

    /// The error that ended the backup, if one did.
    pub closed spec fn failure(&self) -> Option<(ErrorKind, Seq<char>)> {
        match self.failure {
            Some(e) => Some(e.parts()),
            None => None,
        }
    }

    pub closed spec fn wf(&self) -> bool {
        &&& !self.stamped ==> self.metadata.timestamp == (Timestamp {
            year: 0,
            month: 0,
            day: 0,
            hour: 0,
            minute: 0,
            second: 0,
            nanos: 0,
        })
        &&& (self.stage == CreateStage::Failed) == self.failure.is_some()
    }

    /// A backup of the package that has not begun. The package's procedure
    /// will run with the package's volumes closed to writing and the backup
    /// volume open.
    pub fn new(
        pkg_id: PackageId,
        title: String,
        version: String,
        volumes: &Volumes,
        backup_root: String,
        archive_root: String,
    ) -> (plan: CreatePlan)
        ensures
            plan.wf(),
            plan.stage() == CreateStage::Ready,
            plan.pkg_id() == pkg_id@,
            plan.title() == title@,
            plan.version() == version@,
            plan.backup_root() == backup_root@,
            plan.archive_root() == archive_root@,
            plan.volumes() == with_backup_volume(volumes@, true, false),
            plan.gathered() == (Gathered {
                timestamp: None,
                network_keys: Seq::empty(),
                tor_keys: Seq::empty(),
                marketplace_url: None,
            }),
            plan.failure().is_none(),
    {
        let metadata = BackupMetadata {
            timestamp: Timestamp { year: 0, month: 0, day: 0, hour: 0, minute: 0, second: 0, nanos: 0 },
            network_keys: Vec::new(),
            tor_keys: Vec::new(),
            marketplace_url: None,
        };
        assert(metadata@.network_keys =~= Seq::empty());
        assert(metadata@.tor_keys =~= Seq::empty());
        CreatePlan {
            pkg_id,
            title,
            version,
            backup_root,
            archive_root,
            volumes: volumes.for_backup(true, false),
            stage: CreateStage::Ready,
            stamped: false,
            metadata,
            failure: None,
        }
    }

    /// Where the backup stands.
    pub fn current_stage(&self) -> (stage: CreateStage)
        ensures
            stage == self.stage(),
    {
        self.stage
    }

    fn fail(&mut self, kind: ErrorKind, message: String) -> (action: CreateAction)
        requires
            old(self).stage != CreateStage::Failed,
            old(self).stage != CreateStage::Done,
            old(self).wf(),
        ensures
            final(self).wf(),
            final(self).stage() == CreateStage::Failed,
            final(self).failure() == Some((kind, message@)),
            final(self).gathered() == old(self).gathered(),
            final(self).same_backup(old(self)),
            action.fits(final(self)),
    {
        let e = Error::new(kind, message);
        let report = e.duplicate();
        self.failure = Some(e);
        self.stage = CreateStage::Failed;
        CreateAction::Finish(Err(report))
    }

    /// The plan is for the same package, paths and volumes as `other`.
    pub open spec fn same_backup(&self, other: &CreatePlan) -> bool {
        &&& self.pkg_id() == other.pkg_id()
        &&& self.title() == other.title()
        &&& self.version() == other.version()
        &&& self.backup_root() == other.backup_root()
        &&& self.archive_root() == other.archive_root()
        &&& self.volumes() == other.volumes()
    }

    /// Whether the backup can still be called off: only as long as the
    /// package's procedure was not asked to run. From then on the package's
    /// own process may be writing to the volume, and the backup goes on to
    /// its end.
    pub open spec fn can_cancel(stage: CreateStage) -> bool {
        stage == CreateStage::Ready || stage == CreateStage::EnsuringDirectory
    }

    /// Asks for the backup to be called off, and says whether it was. A
    /// backup that was called off has failed; one that can no longer be
    /// called off is left exactly as it is.
    pub fn cancel(&mut self) -> (cancelled: bool)
        requires
            old(self).wf(),
        ensures
            final(self).wf(),
            final(self).same_backup(old(self)),
            final(self).gathered() == old(self).gathered(),
            cancelled == Self::can_cancel(old(self).stage()),
            cancelled ==> final(self).stage() == CreateStage::Failed && final(self).failure()
                == Some((ErrorKind::Unknown, "cancelled"@)),
            !cancelled ==> final(self).stage() == old(self).stage() && final(self).failure() == old(
                self,
            ).failure(),
    {
        match self.stage {
            CreateStage::Ready | CreateStage::EnsuringDirectory => {
                self.fail(ErrorKind::Unknown, "cancelled".to_owned());
                true
            },
            _ => false,
        }
    }

    /// Takes the report of the step that was asked for last and says what
    /// to do next. A report of a failure, or one that the plan does not
    /// wait for, ends the backup with an error; so does an envelope that
    /// could not be read back, when it is due. Once the backup is over,
    /// every call gives its result again.
    pub fn step(&mut self, event: CreateEvent) -> (action: CreateAction)
        requires
            old(self).wf(),
        ensures
            final(self).wf(),
            final(self).same_backup(old(self)),
            final(self).stage() == match step_fault(old(self).stage(), old(self).gathered(), event) {
                Some(_) => CreateStage::Failed,
                None => stage_after(old(self).stage()),
            },
            final(self).failure() == match step_fault(
                old(self).stage(),
                old(self).gathered(),
                event,
            ) {
                Some(fault) => Some(fault),
                None => old(self).failure(),
            },
            final(self).gathered() == if old(self).stage() == CreateStage::Done || event.fault().is_some() {
                old(self).gathered()
            } else {
                old(self).gathered().with(old(self).stage(), event)
            },
            action.fits(final(self)),
    {
        match self.stage {
            CreateStage::Done => {
                return self.finish();
            },
            CreateStage::Failed => {
                return match &self.failure {
                    Some(e) => CreateAction::Finish(Err(e.duplicate())),
                    None => CreateAction::Finish(
                        Err(Error::new(ErrorKind::Unknown, "event out of turn".to_owned())),
                    ),
                };
            },
            _ => {},
        }
        match (self.stage, event) {
            (CreateStage::Ready, CreateEvent::Start) => {
                self.stage = CreateStage::EnsuringDirectory;
                CreateAction::EnsureDirectory(backup_dir(self.backup_root.as_str(), &self.pkg_id))
            },
            (CreateStage::EnsuringDirectory, CreateEvent::DirectoryReady(outcome)) => {
                match outcome {
                    Err(message) => self.fail(ErrorKind::Filesystem, message),
                    Ok(()) => {
                        self.stage = CreateStage::RunningProcedure;
                        CreateAction::RunProcedure(self.volumes.duplicate())
                    },
                }
            },
            (CreateStage::RunningProcedure, CreateEvent::ProcedureReturned { outcome, at }) => {
                match outcome {
                    Err(message) => self.fail(ErrorKind::Backup, message),
                    Ok(()) => {
                        self.metadata.timestamp = at;
                        self.stamped = true;
                        self.stage = CreateStage::ExportingKeys;
                        CreateAction::ExportKeys
                    },
                }
            },
            (CreateStage::ExportingKeys, CreateEvent::KeysExported(outcome)) => {
                match outcome {
                    Err(e) => self.fail(e.kind, e.message),
                    Ok(keys) => {
                        let tables = project_keys(&keys);
                        self.metadata.network_keys = tables.0;
                        self.metadata.tor_keys = tables.1;
                        self.stage = CreateStage::ReadingMarketplace;
                        CreateAction::ReadMarketplaceUrl
                    },
                }
            },
            (CreateStage::ReadingMarketplace, CreateEvent::MarketplaceUrlRead(outcome)) => {
                match outcome {
                    Err(e) => self.fail(e.kind, e.message),
                    Ok(url) => {
                        self.metadata.marketplace_url = url;
                        self.stage = CreateStage::CopyingArchive;
                        CreateAction::CommitArchive {
                            from: installed_archive(
                                self.archive_root.as_str(),
                                &self.pkg_id,
                                self.version.as_str(),
                            ),
                            to: backup_archive(self.backup_root.as_str(), &self.pkg_id),
                        }
                    },
                }
            },
            (CreateStage::CopyingArchive, CreateEvent::ArchiveCommitted(outcome)) => {
                match outcome {
                    Err(e) => self.fail(ErrorKind::Filesystem, e.message),
                    Ok(()) => {
                        match self.metadata.encode_valid() {
                            None => self.fail(
                                ErrorKind::Serialization,
                                "backup metadata is not valid".to_owned(),
                            ),
                            Some(bytes) => {
                                self.stage = CreateStage::WritingMetadata;
                                CreateAction::CommitMetadata {
                                    path: backup_metadata(self.backup_root.as_str(), &self.pkg_id),
                                    bytes,
                                }
                            },
                        }
                    },
                }
            },
            (CreateStage::WritingMetadata, CreateEvent::MetadataCommitted(outcome)) => {
                match outcome {
                    Err(e) => self.fail(ErrorKind::Filesystem, e.message),
                    Ok(()) => {
                        self.stage = CreateStage::Done;
                        self.finish()
                    },
                }
            },
            _ => self.fail(ErrorKind::Unknown, "event out of turn".to_owned()),
        }
    }

    fn finish(&self) -> (action: CreateAction)
        requires
            self.wf(),
            self.stage == CreateStage::Done,
        ensures
            action.fits(self),
    {
        CreateAction::Finish(
            Ok(
                PackageBackupInfo {
                    os_version: Version::new().semver(),
                    title: self.title.clone(),
                    version: self.version.clone(),
                    timestamp: self.metadata.timestamp,
                },
            ),
        )
    }
}


/// Where a backup stands and what it has gathered after a run of reports,
/// each taken as `step` takes it.
pub open spec fn create_run(stage: CreateStage, gathered: Gathered, events: Seq<CreateEvent>) -> (
    CreateStage,
    Gathered,
)
    decreases events.len(),
{
    if events.len() == 0 {
        (stage, gathered)
    } else {
        let (before, g) = create_run(stage, gathered, events.drop_last());
        let event = events.last();
        (
            match step_fault(before, g, event) {
                Some(_) => CreateStage::Failed,
                None => stage_after(before),
            },
            if before == CreateStage::Done || event.fault().is_some() {
                g
            } else {
                g.with(before, event)
            },
        )
    }
}

/// How many steps lie behind a stage.
pub open spec fn steps_done(stage: CreateStage) -> int {
    match stage {
        CreateStage::Ready => 0,
        CreateStage::EnsuringDirectory => 1,
        CreateStage::RunningProcedure => 2,
        CreateStage::ExportingKeys => 3,
        CreateStage::ReadingMarketplace => 4,
        CreateStage::CopyingArchive => 5,
        CreateStage::WritingMetadata => 6,
        CreateStage::Done => 7,
        CreateStage::Failed => 0,
    }
}

/// Nothing gathered yet.
pub open spec fn nothing_gathered() -> Gathered {
    Gathered {
        timestamp: None,
        network_keys: Seq::empty(),
        tor_keys: Seq::empty(),
        marketplace_url: None,
    }
}

/// A backup that has not failed has taken its reports in order, each without
/// a fault, and has gathered from them: the envelope's timestamp is the
/// instant at which the package's procedure was reported to have succeeded,
/// the two tables are those of the keys that the key store gave, naming the
/// same interfaces, and the URL is the one that was read. An envelope is
/// only written, and the backup only ends well, with an envelope that is
/// valid.
pub proof fn lemma_create_run(events: Seq<CreateEvent>)
    ensures
        ({
            let (stage, g) = create_run(CreateStage::Ready, nothing_gathered(), events);
            let done = steps_done(stage);
            &&& stage != CreateStage::Failed ==> done == if events.len() < 7 {
                events.len() as int
            } else {
                7
            }
            &&& stage != CreateStage::Failed ==> forall|k: int|
                0 <= k < done ==> (#[trigger] events[k]).fault().is_none()
            &&& done >= 3 ==> (events[2] matches CreateEvent::ProcedureReturned {
                outcome: Ok(_),
                at,
            } && g.timestamp == Some(at))
            &&& done >= 4 ==> (events[3] matches CreateEvent::KeysExported(Ok(keys))
                && g.network_keys == network_table(key_views(keys@)) && g.tor_keys == tor_table(
                key_views(keys@),
            ) && interfaces_of(g.network_keys) == interfaces_of(g.tor_keys))
            &&& done >= 5 ==> (events[4] matches CreateEvent::MarketplaceUrlRead(Ok(url))
                && g.marketplace_url == match url {
                Some(text) => Some(text@),
                None => None,
            })
            &&& done >= 6 ==> g.envelope().valid()
        }),
    decreases events.len(),
{
    if events.len() > 0 {
        let init = events.drop_last();
        lemma_create_run(init);
        let (before, g0) = create_run(CreateStage::Ready, nothing_gathered(), init);
        let (stage, g) = create_run(CreateStage::Ready, nothing_gathered(), events);
        let event = events.last();
        if stage != CreateStage::Failed {
            assert(before != CreateStage::Failed);
            assert forall|k: int| 0 <= k < steps_done(stage) implies (#[trigger] events[k]).fault().is_none() by {
                if k < init.len() {
                    assert(events[k] == init[k]);
                }
            }
            if steps_done(stage) >= 3 {
                if init.len() > 2 {
                    assert(events[2] == init[2]);
                }
            }
            if steps_done(stage) >= 4 {
                if init.len() > 3 {
                    assert(events[3] == init[3]);
                } else {
                    match event {
                        CreateEvent::KeysExported(Ok(keys)) => {
                            let views = key_views(keys@);
                            assert forall|i: int| 0 <= i < views.len() implies (
                            #[trigger] views[i]).secret.len() == 32 && views[i].tor_key.len()
                                == 64 by {
                                vstd::array::array_len_matches_n(&keys@[i].secret);
                                vstd::array::array_len_matches_n(&keys@[i].tor_key);
                            }
                            lemma_tables_agree(views);
                        },
                        _ => {},
                    }
                }
            }
            if steps_done(stage) >= 5 {
                if init.len() > 4 {
                    assert(events[4] == init[4]);
                }
            }
        }
    }
}

/// A backup that is over stays as it ended, whatever is reported to it.
pub proof fn lemma_create_ends(stage: CreateStage, gathered: Gathered, events: Seq<CreateEvent>)
    requires
        stage == CreateStage::Failed || stage == CreateStage::Done,
    ensures
        create_run(stage, gathered, events) == (stage, gathered),
    decreases events.len(),
{
    if events.len() > 0 {
        lemma_create_ends(stage, gathered, events.drop_last());
    }
}


/// No step of a backup is asked for twice: a stage that a backup is at
/// after two runs of reports, one longer than the other, is a stage at
/// which it is over.
pub proof fn lemma_create_asks_once(events: Seq<CreateEvent>, i: int, j: int)
    requires
        0 <= i < j <= events.len(),
        create_run(CreateStage::Ready, nothing_gathered(), events.take(i)).0 == create_run(
            CreateStage::Ready,
            nothing_gathered(),
            events.take(j),
        ).0,
    ensures
        ({
            let stage = create_run(CreateStage::Ready, nothing_gathered(), events.take(i)).0;
            stage == CreateStage::Done || stage == CreateStage::Failed
        }),
{
    lemma_create_run(events.take(i));
    lemma_create_run(events.take(j));
}

impl BackupActions {
    /// Plans a backup of the package: see `CreatePlan::new`. The plan asks
    /// for the procedure that makes the backup to be run; it is
    /// `self.create`.
    pub fn create(
        &self,
        pkg_id: PackageId,
        pkg_title: String,
        pkg_version: String,
        volumes: &Volumes,
        backup_root: String,
        archive_root: String,
    ) -> (plan: CreatePlan)
        ensures
            plan.wf(),
            plan.stage() == CreateStage::Ready,
            plan.pkg_id() == pkg_id@,
            plan.title() == pkg_title@,
            plan.version() == pkg_version@,
            plan.backup_root() == backup_root@,
            plan.archive_root() == archive_root@,
            plan.volumes() == with_backup_volume(volumes@, true, false),
            plan.gathered() == nothing_gathered(),
            plan.failure().is_none(),
    {
        CreatePlan::new(pkg_id, pkg_title, pkg_version, volumes, backup_root, archive_root)
    }
}

} // verus!
