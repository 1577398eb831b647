//! One restore of one package, as a plan: the plan says what to do next, and
//! whoever drives it does that and reports how it went. Nothing is tried
//! twice, and nothing that was done is taken back: the first step that fails
//! ends the restore with its error.
//!
//! The steps, in order: run the package's own procedure with the backup
//! volume closed to writing; read the envelope; write the envelope's
//! marketplace URL to the installed package's record; have the packages that
//! depend on this one configure themselves anew.

use vstd::prelude::*;
use crate::backup::create::{backup_metadata, metadata_path};
use crate::backup::procedure::BackupActions;
use crate::error::{Error, ErrorKind};
use crate::metadata::{parse_envelope, BackupMetadata, MetadataView};
use crate::package::PackageId;
use crate::volume::{with_backup_volume, Volume, VolumeIdView, Volumes};

verus! {

/// Where a restore stands: what it waits for.
#[derive(Clone, Copy, Debug, PartialEq, Eq, Structural)]
pub enum RestoreStage {
    /// Nothing was asked for yet.
    Ready,
    /// The package's procedure is running.
    RunningProcedure,
    /// The envelope is being read.
    ReadingMetadata,
    /// The marketplace URL is being written to the package's record.
    WritingMarketplace,
    /// The dependent packages are configuring themselves anew.
    Reconfiguring,
    /// Over: the package was restored.
    Done,
    /// Over: a step failed.
    Failed,
}

/// The report of the step that was asked for.
pub enum RestoreEvent {
    /// Nothing was done yet: begin.
    Start,
    /// The package's procedure returned, with its own message where it
    /// failed.
    ProcedureReturned(Result<(), String>),
    /// The bytes of the envelope's file, or why it could not be read.
    MetadataRead(Result<Vec<u8>, String>),
    /// The URL was written to the package's record, or not.
    MarketplaceUrlWritten(Result<(), Error>),
    /// The dependent packages were asked, and how that went.
    DependentsReconfigured(Result<(), Error>),
}

/// What to do next.
#[derive(Debug)]
pub enum RestoreAction {
    /// Run the procedure that restores the backup, with these volumes.
    RunProcedure(Volumes),
    /// Read the file at this path.
    ReadMetadata(String),
    /// Write this marketplace URL to the installed package's record.
    WriteMarketplaceUrl(Option<String>),
    /// Read the installed package's record as it is now and have every
    /// package that depends on this one configure itself anew.
    ReconfigureDependents,
    /// Nothing more: the restore ended so.
    Finish(Result<(), Error>),
}

impl RestoreEvent {
    /// Whether the event is the report that the stage waits for.
    pub open spec fn in_turn(&self, stage: RestoreStage) -> bool {
        match (stage, self) {
            (RestoreStage::Ready, RestoreEvent::Start) => true,
            (RestoreStage::RunningProcedure, RestoreEvent::ProcedureReturned(_)) => true,
            (RestoreStage::ReadingMetadata, RestoreEvent::MetadataRead(_)) => true,
            (RestoreStage::WritingMarketplace, RestoreEvent::MarketplaceUrlWritten(_)) => true,
            (RestoreStage::Reconfiguring, RestoreEvent::DependentsReconfigured(_)) => true,
            _ => false,
        }
    }

    /// The error that the event stands for: none for a step that went well.
    /// A failed procedure gives an error of the kind `Restore` with the
    /// procedure's own message; an envelope that cannot be read gives one of
    /// the kind `Filesystem`, and one whose bytes hold no envelope one of the
    /// kind `Serialization`; the errors of the database and of the dependent
    /// packages are passed on as they are.
    pub open spec fn fault(&self) -> Option<(ErrorKind, Seq<char>)> {
        match self {
            RestoreEvent::Start => None,
            RestoreEvent::ProcedureReturned(Ok(_)) => None,
            RestoreEvent::ProcedureReturned(Err(message)) => Some((ErrorKind::Restore, message@)),
            RestoreEvent::MetadataRead(Ok(bytes)) => if parse_envelope(bytes@).is_some() {
                None
            } else {
                Some((ErrorKind::Serialization, "malformed backup metadata"@))
            },
            RestoreEvent::MetadataRead(Err(message)) => Some((ErrorKind::Filesystem, message@)),
            RestoreEvent::MarketplaceUrlWritten(Ok(_)) => None,
            RestoreEvent::MarketplaceUrlWritten(Err(e)) => Some(e.parts()),
            RestoreEvent::DependentsReconfigured(Ok(_)) => None,
            RestoreEvent::DependentsReconfigured(Err(e)) => Some(e.parts()),
        }
    }

    /// The envelope that the event brings, if it brings one.
    pub open spec fn envelope(&self) -> Option<MetadataView> {
        match self {
            RestoreEvent::MetadataRead(Ok(bytes)) => parse_envelope(bytes@),
            _ => None,
        }
    }
}

/// The stage that follows a stage whose step went well.
pub open spec fn stage_after(stage: RestoreStage) -> RestoreStage {
    match stage {
        RestoreStage::Ready => RestoreStage::RunningProcedure,
        RestoreStage::RunningProcedure => RestoreStage::ReadingMetadata,
        RestoreStage::ReadingMetadata => RestoreStage::WritingMarketplace,
        RestoreStage::WritingMarketplace => RestoreStage::Reconfiguring,
        RestoreStage::Reconfiguring => RestoreStage::Done,
        RestoreStage::Done => RestoreStage::Done,
        RestoreStage::Failed => RestoreStage::Failed,
    }
}

/// Why a step ends the restore: an event out of turn, or the event's own
/// error. `None` where the restore goes on.
pub open spec fn step_fault(stage: RestoreStage, event: RestoreEvent) -> Option<
    (ErrorKind, Seq<char>),
> {
    if stage == RestoreStage::Done || stage == RestoreStage::Failed {
        None
    } else if !event.in_turn(stage) {
        Some((ErrorKind::Unknown, "event out of turn"@))
    } else {
        event.fault()
    }
}

/// The stage after a report.
pub open spec fn next_stage(stage: RestoreStage, event: RestoreEvent) -> RestoreStage {
    match step_fault(stage, event) {
        Some(_) => RestoreStage::Failed,
        None => stage_after(stage),
    }
}

/// The envelope that a restore holds after a report: the one that the
/// report of reading it brought.
pub open spec fn next_envelope(
    stage: RestoreStage,
    envelope: Option<MetadataView>,
    event: RestoreEvent,
) -> Option<MetadataView> {
    if stage == RestoreStage::ReadingMetadata && event.in_turn(stage) && event.fault().is_none() {
        event.envelope()
    } else {
        envelope
    }
}

/// One restore of one package.
pub struct RestorePlan {
    pkg_id: PackageId,
    backup_root: String,
    volumes: Volumes,
    stage: RestoreStage,
    metadata: Option<BackupMetadata>,
    failure: Option<Error>,
}

impl RestoreAction {
    /// The action is the one that the plan asks for at its stage, with the
    /// path, volumes, URL and result that belong to the plan.
    pub open spec fn fits(&self, plan: &RestorePlan) -> bool {
        match (plan.stage(), self) {
            (RestoreStage::RunningProcedure, RestoreAction::RunProcedure(volumes)) => volumes@
                == plan.volumes(),
            (RestoreStage::ReadingMetadata, RestoreAction::ReadMetadata(path)) => path@
                == metadata_path(plan.backup_root(), plan.pkg_id()),
            (RestoreStage::WritingMarketplace, RestoreAction::WriteMarketplaceUrl(url)) => {
                plan.envelope() matches Some(envelope) && envelope.marketplace_url == match url {
                    Some(text) => Some(text@),
                    None => None,
                }
            },
            (RestoreStage::Reconfiguring, RestoreAction::ReconfigureDependents) => true,
            (RestoreStage::Done, RestoreAction::Finish(Ok(_))) => true,
            (RestoreStage::Failed, RestoreAction::Finish(Err(e))) => Some(e.parts())
                == plan.failure(),
            _ => false,
        }
    }
}

impl RestorePlan {
    pub closed spec fn pkg_id(&self) -> Seq<char> {
        self.pkg_id@
    }

    pub closed spec fn backup_root(&self) -> Seq<char> {
        self.backup_root@
    }

    /// The volumes that the package's procedure runs with.
    pub closed spec fn volumes(&self) -> Seq<(VolumeIdView, Volume)> {
        self.volumes@
    }

    pub closed spec fn stage(&self) -> RestoreStage {
        self.stage
    }

    /// The envelope, once it was read.
    pub closed spec fn envelope(&self) -> Option<MetadataView> {
        match self.metadata {
            Some(metadata) => Some(metadata@),
            None => None,
        }
    }

    /// The error that ended the restore, if one did.
    pub closed spec fn failure(&self) -> Option<(ErrorKind, Seq<char>)> {
        match self.failure {
            Some(e) => Some(e.parts()),
            None => None,
        }
    }

    pub closed spec fn wf(&self) -> bool {
        &&& (self.stage == RestoreStage::Failed) == self.failure.is_some()
        &&& (self.stage == RestoreStage::WritingMarketplace || self.stage
            == RestoreStage::Reconfiguring || self.stage == RestoreStage::Done)
            ==> self.metadata.is_some()
    }

    /// The plan is for the same package, path and volumes as `other`.
    pub open spec fn same_restore(&self, other: &RestorePlan) -> bool {
        &&& self.pkg_id() == other.pkg_id()
        &&& self.backup_root() == other.backup_root()
        &&& self.volumes() == other.volumes()
    }

    /// A restore of the package that has not begun. The package's procedure
    /// will run with the package's volumes as they are and the backup volume
    /// closed to writing.
    pub fn new(pkg_id: PackageId, volumes: &Volumes, backup_root: String) -> (plan: RestorePlan)
        ensures
            plan.wf(),
            plan.stage() == RestoreStage::Ready,
            plan.pkg_id() == pkg_id@,
            plan.backup_root() == backup_root@,
            plan.volumes() == with_backup_volume(volumes@, false, true),
            plan.envelope().is_none(),
            plan.failure().is_none(),
    {
        RestorePlan {
            pkg_id,
            backup_root,
            volumes: volumes.for_backup(false, true),
            stage: RestoreStage::Ready,
            metadata: None,
            failure: None,
        }
    }

    /// Where the restore stands.
    pub fn current_stage(&self) -> (stage: RestoreStage)
        ensures
            stage == self.stage(),
    {
        self.stage
    }

    /// The envelope, once it was read.
    pub fn metadata(&self) -> (metadata: &Option<BackupMetadata>)
        ensures
            match metadata {
                Some(m) => self.envelope() == Some(m@),
                None => self.envelope().is_none(),
            },
    {
        &self.metadata
    }

    fn fail(&mut self, kind: ErrorKind, message: String) -> (action: RestoreAction)
        requires
            old(self).stage != RestoreStage::Failed,
            old(self).stage != RestoreStage::Done,
            old(self).wf(),
        ensures
            final(self).wf(),
            final(self).stage() == RestoreStage::Failed,
            final(self).failure() == Some((kind, message@)),
            final(self).envelope() == old(self).envelope(),
            final(self).same_restore(old(self)),
            action.fits(final(self)),
    {
        let e = Error::new(kind, message);
        let report = e.duplicate();
        self.failure = Some(e);
        self.stage = RestoreStage::Failed;
        RestoreAction::Finish(Err(report))
    }

    /// Whether the restore can still be called off: only as long as the
    /// package's procedure was not asked to run. From then on the package's
    /// own process may be writing to the volume, and the restore goes on to
    /// its end.
    pub open spec fn can_cancel(stage: RestoreStage) -> bool {
        stage == RestoreStage::Ready
    }

    /// Asks for the restore to be called off, and says whether it was. A
    /// restore that was called off has failed; one that can no longer be
    /// called off is left exactly as it is.
    pub fn cancel(&mut self) -> (cancelled: bool)
        requires
            old(self).wf(),
        ensures
            final(self).wf(),
            final(self).same_restore(old(self)),
            final(self).envelope() == old(self).envelope(),
            cancelled == Self::can_cancel(old(self).stage()),
            cancelled ==> final(self).stage() == RestoreStage::Failed && final(self).failure()
                == Some((ErrorKind::Unknown, "cancelled"@)),
            !cancelled ==> final(self).stage() == old(self).stage() && final(self).failure() == old(
                self,
            ).failure(),
    {
        match self.stage {
            RestoreStage::Ready => {
                self.fail(ErrorKind::Unknown, "cancelled".to_owned());
                true
            },
            _ => false,
        }
    }

    /// Takes the report of the step that was asked for last and says what
    /// to do next. A report of a failure, or one that the plan does not
    /// wait for, ends the restore with an error. Once the restore is over,
    /// every call gives its result again.
    pub fn step(&mut self, event: RestoreEvent) -> (action: RestoreAction)
        requires
            old(self).wf(),
        ensures
            final(self).wf(),
            final(self).same_restore(old(self)),
            final(self).stage() == next_stage(old(self).stage(), event),
            final(self).failure() == match step_fault(old(self).stage(), event) {
                Some(fault) => Some(fault),
                None => old(self).failure(),
            },
            final(self).envelope() == next_envelope(old(self).stage(), old(self).envelope(), event),
            action.fits(final(self)),
    {
        match self.stage {
            RestoreStage::Done => {
                return RestoreAction::Finish(Ok(()));
            },
            RestoreStage::Failed => {
                return match &self.failure {
                    Some(e) => RestoreAction::Finish(Err(e.duplicate())),
                    None => RestoreAction::Finish(
                        Err(Error::new(ErrorKind::Unknown, "event out of turn".to_owned())),
                    ),
                };
            },
            _ => {},
        }
        match (self.stage, event) {
            (RestoreStage::Ready, RestoreEvent::Start) => {
                self.stage = RestoreStage::RunningProcedure;
                RestoreAction::RunProcedure(self.volumes.duplicate())
            },
            (RestoreStage::RunningProcedure, RestoreEvent::ProcedureReturned(outcome)) => {
                match outcome {
                    Err(message) => self.fail(ErrorKind::Restore, message),
                    Ok(()) => {
                        self.stage = RestoreStage::ReadingMetadata;
                        RestoreAction::ReadMetadata(
                            backup_metadata(self.backup_root.as_str(), &self.pkg_id),
                        )
                    },
                }
            },
            (RestoreStage::ReadingMetadata, RestoreEvent::MetadataRead(outcome)) => {
                match outcome {
                    Err(message) => self.fail(ErrorKind::Filesystem, message),
                    Ok(bytes) => {
                        match BackupMetadata::decode(bytes.as_slice()) {
                            Err(e) => self.fail(ErrorKind::Serialization, e.message),
                            Ok(metadata) => {
                                let url = match &metadata.marketplace_url {
                                    Some(text) => Some(text.clone()),
                                    None => None,
                                };
                                self.metadata = Some(metadata);
                                self.stage = RestoreStage::WritingMarketplace;
                                RestoreAction::WriteMarketplaceUrl(url)
                            },
                        }
                    },
                }
            },
            (RestoreStage::WritingMarketplace, RestoreEvent::MarketplaceUrlWritten(outcome)) => {
                match outcome {
                    Err(e) => self.fail(e.kind, e.message),
                    Ok(()) => {
                        self.stage = RestoreStage::Reconfiguring;
                        RestoreAction::ReconfigureDependents
                    },
                }
            },
            (RestoreStage::Reconfiguring, RestoreEvent::DependentsReconfigured(outcome)) => {
                match outcome {
                    Err(e) => self.fail(e.kind, e.message),
                    Ok(()) => {
                        self.stage = RestoreStage::Done;
                        RestoreAction::Finish(Ok(()))
                    },
                }
            },
            _ => self.fail(ErrorKind::Unknown, "event out of turn".to_owned()),
        }
    }
}

/// The stage of a restore after a run of reports, each taken as `step`
/// takes it.
pub open spec fn restore_run(stage: RestoreStage, events: Seq<RestoreEvent>) -> RestoreStage
    decreases events.len(),
{
    if events.len() == 0 {
        stage
    } else {
        next_stage(restore_run(stage, events.drop_last()), events.last())
    }
}

/// The error of a restore after a run of reports: the fault of the report
/// that ended it.
pub open spec fn restore_failure(stage: RestoreStage, events: Seq<RestoreEvent>) -> Option<
    (ErrorKind, Seq<char>),
>
    decreases events.len(),
{
    if events.len() == 0 {
        None
    } else {
        match step_fault(restore_run(stage, events.drop_last()), events.last()) {
            Some(fault) => Some(fault),
            None => restore_failure(stage, events.drop_last()),
        }
    }
}

/// How many steps lie behind a stage.
pub open spec fn steps_done(stage: RestoreStage) -> int {
    match stage {
        RestoreStage::Ready => 0,
        RestoreStage::RunningProcedure => 1,
        RestoreStage::ReadingMetadata => 2,
        RestoreStage::WritingMarketplace => 3,
        RestoreStage::Reconfiguring => 4,
        RestoreStage::Done => 5,
        RestoreStage::Failed => 0,
    }
}

/// A restore that has not failed has taken its reports in order, each
/// without a fault: it has one step behind it for each report, up to the
/// five that there are. So no step is asked for twice; the URL is only
/// written once an envelope was read and held one; and the dependent
/// packages are only asked once the URL was written.
pub proof fn lemma_restore_run(events: Seq<RestoreEvent>)
    ensures
        ({
            let stage = restore_run(RestoreStage::Ready, events);
            let done = steps_done(stage);
            &&& stage != RestoreStage::Failed ==> done == if events.len() < 5 {
                events.len() as int
            } else {
                5
            }
            &&& stage != RestoreStage::Failed ==> forall|k: int|
                0 <= k < done ==> (#[trigger] events[k]).fault().is_none()
            &&& done >= 2 ==> (events[1] matches RestoreEvent::ProcedureReturned(Ok(_)))
            &&& done >= 3 ==> (events[2] matches RestoreEvent::MetadataRead(Ok(bytes))
                && parse_envelope(bytes@).is_some())
            &&& done >= 4 ==> (events[3] matches RestoreEvent::MarketplaceUrlWritten(Ok(_)))
            &&& done >= 5 ==> (events[4] matches RestoreEvent::DependentsReconfigured(Ok(_)))
            &&& stage == RestoreStage::Failed <==> restore_failure(RestoreStage::Ready, events).is_some()
        }),
    decreases events.len(),
{
    if events.len() > 0 {
        let init = events.drop_last();
        lemma_restore_run(init);
        let stage = restore_run(RestoreStage::Ready, events);
        if stage != RestoreStage::Failed {
            assert forall|k: int| 0 <= k < steps_done(stage) implies (
            #[trigger] events[k]).fault().is_none() by {
                if k < init.len() {
                    assert(events[k] == init[k]);
                }
            }
            if init.len() > 1 {
                assert(events[1] == init[1]);
            }
            if init.len() > 2 {
                assert(events[2] == init[2]);
            }
            if init.len() > 3 {
                assert(events[3] == init[3]);
            }
            if init.len() > 4 {
                assert(events[4] == init[4]);
            }
        }
    }
}

/// Whether a restore at this stage has asked for the package's record to be
/// written.
pub open spec fn has_written(stage: RestoreStage) -> bool {
    stage == RestoreStage::WritingMarketplace || stage == RestoreStage::Reconfiguring || stage
        == RestoreStage::Done
}

/// A restore that finds no envelope fails with an error of the kind
/// `Filesystem`, and stays failed whatever is reported after the failed
/// read. At no point, before the read or after it, has such a restore asked
/// for the package's record to be written or for the dependent packages.
pub proof fn lemma_restore_needs_envelope(
    events: Seq<RestoreEvent>,
    message: String,
    later: Seq<RestoreEvent>,
)
    requires
        restore_run(RestoreStage::Ready, events) == RestoreStage::ReadingMetadata,
    ensures
        ({
            let all = events.push(RestoreEvent::MetadataRead(Err(message))) + later;
            &&& restore_run(RestoreStage::Ready, all) == RestoreStage::Failed
            &&& restore_failure(RestoreStage::Ready, all) == Some(
                (ErrorKind::Filesystem, message@),
            )
            &&& forall|k: int|
                0 <= k <= all.len() ==> !has_written(
                    restore_run(RestoreStage::Ready, #[trigger] all.take(k)),
                )
        }),
    decreases later.len(),
{
    let read = events.push(RestoreEvent::MetadataRead(Err(message)));
    let all = read + later;
    if later.len() == 0 {
        assert(all =~= read);
        assert(read.drop_last() =~= events);
        lemma_restore_run(events);
    } else {
        lemma_restore_needs_envelope(events, message, later.drop_last());
        assert(all.drop_last() =~= read + later.drop_last());
    }
    lemma_restore_run(events);
    assert forall|k: int| 0 <= k <= all.len() implies !has_written(
        restore_run(RestoreStage::Ready, #[trigger] all.take(k)),
    ) by {
        if k <= events.len() {
            assert(all.take(k) =~= events.take(k));
            lemma_restore_run(events.take(k));
        } else if k == all.len() {
            assert(all.take(k) =~= all);
        } else {
            let fewer = later.take(k - read.len());
            lemma_restore_needs_envelope(events, message, fewer);
            assert(all.take(k) =~= read + fewer);
        }
    }
}

/// No step of a restore is asked for twice: a stage that a restore is at
/// after two runs of reports, one longer than the other, is a stage at
/// which it is over. So the dependent packages are asked at most once, and
/// exactly once by a restore that ends well.
pub proof fn lemma_restore_asks_once(events: Seq<RestoreEvent>, i: int, j: int)
    requires
        0 <= i < j <= events.len(),
        restore_run(RestoreStage::Ready, events.take(i)) == restore_run(
            RestoreStage::Ready,
            events.take(j),
        ),
    ensures
        restore_run(RestoreStage::Ready, events.take(i)) == RestoreStage::Done || restore_run(
            RestoreStage::Ready,
            events.take(i),
        ) == RestoreStage::Failed,
{
    lemma_restore_run(events.take(i));
    lemma_restore_run(events.take(j));
}

impl BackupActions {
    /// Plans a restore of the package: see `RestorePlan::new`. The plan asks
    /// for the procedure that restores the backup to be run; it is
    /// `self.restore`.
    pub fn restore(&self, pkg_id: PackageId, volumes: &Volumes, backup_root: String) -> (plan:
        RestorePlan)
        ensures
            plan.wf(),
            plan.stage() == RestoreStage::Ready,
            plan.pkg_id() == pkg_id@,
            plan.backup_root() == backup_root@,
            plan.volumes() == with_backup_volume(volumes@, false, true),
            plan.envelope().is_none(),
            plan.failure().is_none(),
    {
        RestorePlan::new(pkg_id, volumes, backup_root)
    }
}

} // verus!
