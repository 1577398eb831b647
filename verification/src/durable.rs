//! The durable write: how bytes get to a path so that a crash leaves the path
//! with what it held before or with all of the new bytes, never with a part.
//!
//! The plan decides the steps; whoever drives it does them on the file system
//! and reports how each went. The bytes go to a temporary path beside the
//! target, are synced, and are renamed onto the target in one step; then the
//! directory is synced. A failure before the rename removes the temporary
//! file and leaves the target alone.

use vstd::prelude::*;
use crate::error::{Error, ErrorKind};
use crate::text::join;

verus! {

/// Where a commit stands.
#[derive(Clone, Copy, Debug, PartialEq, Eq, Structural)]
pub enum CommitStage {
    /// Nothing was done yet.
    Ready,
    /// The bytes are being written to the temporary path.
    Writing,
    /// The temporary file is being synced.
    Syncing,
    /// The temporary file is being renamed onto the target.
    Renaming,
    /// The target holds the new bytes; its directory is being synced.
    SyncingDir,
    /// A step before the rename failed; the temporary file is being removed.
    Discarding,
    /// Over: the target holds the new bytes.
    Committed,
    /// Over: the target is as it was.
    Aborted,
}

/// How the step that was asked for went.
#[derive(Debug)]
pub enum CommitEvent {
    Completed,
    Failed(String),
}

/// What to do next on the file system.
#[derive(Debug)]
pub enum CommitAction {
    /// Create or truncate this path and write the bytes to it.
    WriteTemp(String),
    /// Flush this file and sync it to stable storage.
    SyncTemp(String),
    /// Rename `from` onto `to`, in one atomic step.
    Rename { from: String, to: String },
    /// Sync the directory that holds this path.
    SyncParent(String),
    /// Remove this file.
    RemoveTemp(String),
    /// Nothing more: the commit ended so.
    Finish(Result<(), Error>),
}

/// The kind of an action, without its paths.
#[derive(Clone, Copy, Debug, PartialEq, Eq, Structural)]
pub enum ActionKind {
    WriteTemp,
    SyncTemp,
    Rename,
    SyncParent,
    RemoveTemp,
    Finish,
}

/// The stage that follows `stage` when the step it waits for went well
/// (`ok`) or failed.
pub open spec fn next_stage(stage: CommitStage, ok: bool) -> CommitStage {
    match stage {
        CommitStage::Ready => CommitStage::Writing,
        CommitStage::Writing => if ok {
            CommitStage::Syncing
        } else {
            CommitStage::Discarding
        },
        CommitStage::Syncing => if ok {
            CommitStage::Renaming
        } else {
            CommitStage::Discarding
        },
        CommitStage::Renaming => if ok {
            CommitStage::SyncingDir
        } else {
            CommitStage::Discarding
        },
        CommitStage::SyncingDir => CommitStage::Committed,
        CommitStage::Discarding => CommitStage::Aborted,
        CommitStage::Committed => CommitStage::Committed,
        CommitStage::Aborted => CommitStage::Aborted,
    }
}

/// The step that a stage waits for.
pub open spec fn pending(stage: CommitStage) -> ActionKind {
    match stage {
        CommitStage::Ready => ActionKind::Finish,
        CommitStage::Writing => ActionKind::WriteTemp,
        CommitStage::Syncing => ActionKind::SyncTemp,
        CommitStage::Renaming => ActionKind::Rename,
        CommitStage::SyncingDir => ActionKind::SyncParent,
        CommitStage::Discarding => ActionKind::RemoveTemp,
        CommitStage::Committed => ActionKind::Finish,
        CommitStage::Aborted => ActionKind::Finish,
    }
}

/// The first failure is the one that is reported: a failure is kept once it
/// is there.
pub open spec fn next_failure(
    stage: CommitStage,
    failure: Option<Seq<char>>,
    event: Option<Seq<char>>,
) -> Option<Seq<char>> {
    if stage == CommitStage::Ready || stage == CommitStage::Committed || stage
        == CommitStage::Aborted {
        failure
    } else {
        match failure {
            Some(_) => failure,
            None => event,
        }
    }
}

/// The message of a failed step; `None` for one that went well.
pub open spec fn event_failure(event: CommitEvent) -> Option<Seq<char>> {
    match event {
        CommitEvent::Completed => None,
        CommitEvent::Failed(message) => Some(message@),
    }
}

/// The temporary path of a target: the target's path with `.tmp` behind it,
/// so that both lie in one directory.
pub open spec fn temp_path(target: Seq<char>) -> Seq<char> {
    target + ".tmp"@
}

/// One commit of bytes to a target path.
pub struct CommitPlan {
    target: String,
    temp: String,
    stage: CommitStage,
    failure: Option<String>,
}

impl CommitAction {
    pub open spec fn kind(&self) -> ActionKind {
        match self {
            CommitAction::WriteTemp(_) => ActionKind::WriteTemp,
            CommitAction::SyncTemp(_) => ActionKind::SyncTemp,
            CommitAction::Rename { .. } => ActionKind::Rename,
            CommitAction::SyncParent(_) => ActionKind::SyncParent,
            CommitAction::RemoveTemp(_) => ActionKind::RemoveTemp,
            CommitAction::Finish(_) => ActionKind::Finish,
        }
    }

    /// The action names the paths of this target, and an action that ends
    /// the commit reports this failure, as an error of the kind `Filesystem`
    /// with the failed step's message.
    pub open spec fn fits(&self, target: Seq<char>, failure: Option<Seq<char>>) -> bool {
        match self {
            CommitAction::WriteTemp(path) => path@ == temp_path(target),
            CommitAction::SyncTemp(path) => path@ == temp_path(target),
            CommitAction::Rename { from, to } => from@ == temp_path(target) && to@ == target,
            CommitAction::SyncParent(path) => path@ == target,
            CommitAction::RemoveTemp(path) => path@ == temp_path(target),
            CommitAction::Finish(result) => match failure {
                Some(message) => result matches Err(e) && e.kind == ErrorKind::Filesystem
                    && e.message@ == message,
                None => result.is_ok(),
            },
        }
    }
}

impl CommitPlan {
    pub closed spec fn target(&self) -> Seq<char> {
        self.target@
    }

    pub closed spec fn stage(&self) -> CommitStage {
        self.stage
    }

    /// The message of the first step that failed, if one did.
    pub closed spec fn failure(&self) -> Option<Seq<char>> {
        match self.failure {
            Some(message) => Some(message@),
            None => None,
        }
    }

    pub closed spec fn wf(&self) -> bool {
        self.temp@ == temp_path(self.target@)
    }

    /// A commit to `target` on which nothing was done yet.
    pub fn new(target: String) -> (plan: CommitPlan)
        ensures
            plan.wf(),
            plan.target() == target@,
            plan.stage() == CommitStage::Ready,
            plan.failure().is_none(),
    {
        let temp = join(target.as_str(), ".tmp");
        CommitPlan { target, temp, stage: CommitStage::Ready, failure: None }
    }

    /// Where the commit stands.
    pub fn current_stage(&self) -> (stage: CommitStage)
        ensures
            stage == self.stage(),
    {
        self.stage
    }

    /// Takes the report of the step that was asked for last and says what
    /// to do next. The first call starts the commit, whatever it is given.
    /// Once the commit is over, every call gives its result again.
    pub fn step(&mut self, event: CommitEvent) -> (action: CommitAction)
        requires
            old(self).wf(),
        ensures
            final(self).wf(),
            final(self).target() == old(self).target(),
            final(self).stage() == next_stage(old(self).stage(), event_failure(event).is_none()),
            final(self).failure() == next_failure(
                old(self).stage(),
                old(self).failure(),
                event_failure(event),
            ),
            action.kind() == pending(final(self).stage()),
            action.fits(final(self).target(), final(self).failure()),
    {
        let ok: bool = match &event {
            CommitEvent::Completed => true,
            CommitEvent::Failed(_) => false,
        };
        let waiting: bool = match self.stage {
            CommitStage::Ready | CommitStage::Committed | CommitStage::Aborted => false,
            _ => true,
        };
        if waiting && self.failure.is_none() {
            match event {
                CommitEvent::Failed(message) => {
                    self.failure = Some(message);
                },
                CommitEvent::Completed => {},
            }
        }
        self.stage = match self.stage {
            CommitStage::Ready => CommitStage::Writing,
            CommitStage::Writing => if ok {
                CommitStage::Syncing
            } else {
                CommitStage::Discarding
            },
            CommitStage::Syncing => if ok {
                CommitStage::Renaming
            } else {
                CommitStage::Discarding
            },
            CommitStage::Renaming => if ok {
                CommitStage::SyncingDir
            } else {
                CommitStage::Discarding
            },
            CommitStage::SyncingDir => CommitStage::Committed,
            CommitStage::Discarding => CommitStage::Aborted,
            CommitStage::Committed => CommitStage::Committed,
            CommitStage::Aborted => CommitStage::Aborted,
        };
        match self.stage {
            CommitStage::Writing => CommitAction::WriteTemp(self.temp.clone()),
            CommitStage::Syncing => CommitAction::SyncTemp(self.temp.clone()),
            CommitStage::Renaming => CommitAction::Rename {
                from: self.temp.clone(),
                to: self.target.clone(),
            },
            CommitStage::SyncingDir => CommitAction::SyncParent(self.target.clone()),
            CommitStage::Discarding => CommitAction::RemoveTemp(self.temp.clone()),
            _ => match &self.failure {
                Some(message) => CommitAction::Finish(
                    Err(Error::new(ErrorKind::Filesystem, message.clone())),
                ),
                None => CommitAction::Finish(Ok(())),
            },
        }
    }
}

/// What a step did to the disk: all of it, nothing, or, where a write was
/// cut short, some other content.
pub enum How {
    Completed,
    NotDone,
    Partial(Seq<u8>),
}

/// The two paths of a commit as a disk holds them: the content of each, or
/// `None` where the path holds no file.
pub struct Disk {
    pub target: Option<Seq<u8>>,
    pub temp: Option<Seq<u8>>,
}

/// The disk after a step of this kind, done to this degree. A rename
/// happens wholly or not at all; only a write can leave a part behind, and
/// only in the temporary file.
pub open spec fn disk_after(kind: ActionKind, disk: Disk, bytes: Seq<u8>, how: How) -> Disk {
    match kind {
        ActionKind::WriteTemp => match how {
            How::Completed => Disk { temp: Some(bytes), ..disk },
            How::NotDone => disk,
            How::Partial(part) => Disk { temp: Some(part), ..disk },
        },
        ActionKind::Rename => match how {
            How::Completed => Disk { target: disk.temp, temp: None },
            _ => disk,
        },
        ActionKind::RemoveTemp => match how {
            How::Completed => Disk { temp: None, ..disk },
            _ => disk,
        },
        _ => disk,
    }
}

/// Where a commit that started at `stage` on `disk` stands after the steps
/// whose courses `hows` gives, and what the disk holds then. A step that was
/// not done wholly is reported as failed. At the stage `Ready` no step is
/// waited for: what is reported there only starts the commit. The run may
/// stop after any step: that is a crash.
pub open spec fn run(stage: CommitStage, disk: Disk, bytes: Seq<u8>, hows: Seq<How>) -> (
    CommitStage,
    Disk,
)
    decreases hows.len(),
{
    if hows.len() == 0 {
        (stage, disk)
    } else {
        let (before, d) = run(stage, disk, bytes, hows.drop_last());
        let how = hows.last();
        (next_stage(before, how is Completed), disk_after(pending(before), d, bytes, how))
    }
}

/// Whether the rename has happened when a commit stands at this stage.
pub open spec fn renamed(stage: CommitStage) -> bool {
    stage == CommitStage::SyncingDir || stage == CommitStage::Committed
}

/// Wherever a commit is cut off, the target holds what it held before, or
/// all of the new bytes: before the rename the old content, after it the
/// new, and nothing else at any point. The temporary file holds all of the
/// new bytes from the end of the write until the rename.
pub proof fn lemma_commit_is_atomic(disk: Disk, bytes: Seq<u8>, hows: Seq<How>)
    ensures
        ({
            let (stage, after) = run(CommitStage::Ready, disk, bytes, hows);
            &&& renamed(stage) ==> after.target == Some(bytes)
            &&& !renamed(stage) ==> after.target == disk.target
            &&& (stage == CommitStage::Syncing || stage == CommitStage::Renaming) ==> after.temp
                == Some(bytes)
        }),
    decreases hows.len(),
{
    if hows.len() > 0 {
        lemma_commit_is_atomic(disk, bytes, hows.drop_last());
    }
}

/// A commit whose every step is done wholly ends with the new bytes in the
/// target and no temporary file left.
pub proof fn lemma_commit_completes(disk: Disk, bytes: Seq<u8>)
    ensures
        run(CommitStage::Ready, disk, bytes, Seq::new(5, |i: int| How::Completed)) == (
            CommitStage::Committed,
            Disk { target: Some(bytes), temp: None },
        ),
{
    let hows = Seq::new(5, |i: int| How::Completed);
    let h4 = hows.drop_last();
    let h3 = h4.drop_last();
    let h2 = h3.drop_last();
    let h1 = h2.drop_last();
    let h0 = h1.drop_last();
    assert(h0.len() == 0);
    assert(run(CommitStage::Ready, disk, bytes, h0) == (CommitStage::Ready, disk));
    assert(h1.last() is Completed);
    assert(run(CommitStage::Ready, disk, bytes, h1).0 == CommitStage::Writing);
    assert(h2.last() is Completed);
    assert(run(CommitStage::Ready, disk, bytes, h2).0 == CommitStage::Syncing);
    assert(h3.last() is Completed);
    assert(run(CommitStage::Ready, disk, bytes, h3).0 == CommitStage::Renaming);
    assert(h4.last() is Completed);
    assert(run(CommitStage::Ready, disk, bytes, h4).0 == CommitStage::SyncingDir);
    assert(hows.last() is Completed);
}

/// How much of a path names its directory: the part up to the last slash,
/// the slash included; nothing where the path has no slash.
pub open spec fn directory_len(path: Seq<char>) -> int
    decreases path.len(),
{
    if path.len() == 0 {
        0
    } else if path.last() == '/' {
        path.len() as int
    } else {
        directory_len(path.drop_last())
    }
}

/// The directory that a path lies in.
pub open spec fn directory_of(path: Seq<char>) -> Seq<char> {
    path.take(directory_len(path))
}

proof fn lemma_directory_len_bound(path: Seq<char>)
    ensures
        0 <= directory_len(path) <= path.len(),
    decreases path.len(),
{
    if path.len() > 0 && path.last() != '/' {
        lemma_directory_len_bound(path.drop_last());
    }
}

proof fn lemma_directory_of_longer_name(path: Seq<char>, more: Seq<char>)
    requires
        forall|i: int| 0 <= i < more.len() ==> more[i] != '/',
    ensures
        directory_len(path + more) == directory_len(path),
    decreases more.len(),
{
    if more.len() == 0 {
        assert(path + more =~= path);
    } else {
        let whole = path + more;
        assert(whole.last() == more.last());
        assert(whole.drop_last() =~= path + more.drop_last());
        lemma_directory_of_longer_name(path, more.drop_last());
    }
}

/// The temporary file lies in the directory of the target, so that the
/// rename stays within one file system.
pub proof fn lemma_temp_beside_target(target: Seq<char>)
    ensures
        directory_of(temp_path(target)) == directory_of(target),
{
    reveal_strlit(".tmp");
    let more = ".tmp"@;
    assert(more.len() == 4);
    assert(more[0] == '.' && more[1] == 't' && more[2] == 'm' && more[3] == 'p');
    lemma_directory_of_longer_name(target, more);
    lemma_directory_len_bound(target);
    assert(temp_path(target).take(directory_len(target)) =~= target.take(directory_len(target)));
}

} // verus!
