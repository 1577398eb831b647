//! The procedures that a package brings for making and restoring its backup.
//! They are data: the runtime that executes them is not part of this
//! library. Before one may run it is checked against what the package
//! declares.

use vstd::prelude::*;
use crate::error::{Error, ErrorKind};
use crate::text::{contains_text, join, text_equal, texts_view};
use crate::volume::{declares, VolumeId, VolumeIdView, Volumes};

verus! {

/// A procedure that runs a command in a container.
#[derive(Debug)]
pub struct DockerProcedure {
    /// The image to run.
    pub image: String,
    /// Whether the image is one of the system's own.
    pub system: bool,
    /// Whether the command runs inside the package's main container.
    pub inject: bool,
    /// The volumes that the command mounts.
    pub mounts: Vec<VolumeId>,
    /// Whether the procedure says in which format it talks.
    pub has_io_format: bool,
}

/// A procedure as the package's manifest gives it: by the way it is run.
#[derive(Debug)]
pub enum PackageProcedure {
    /// Run in a container.
    Docker(DockerProcedure),
    /// Run by the script engine, from the package's own script.
    Script,
}

/// The two procedures of a package's backup.
#[derive(Debug)]
pub struct BackupActions {
    pub create: PackageProcedure,
    pub restore: PackageProcedure,
}

/// A container procedure as plain values.
pub struct DockerProcedureView {
    pub image: Seq<char>,
    pub system: bool,
    pub inject: bool,
    pub mounts: Seq<VolumeIdView>,
    pub has_io_format: bool,
}

/// A procedure as plain values.
pub enum ProcedureView {
    Docker(DockerProcedureView),
    Script,
}

/// The mounts as plain values.
pub open spec fn mounts_view(mounts: Seq<VolumeId>) -> Seq<VolumeIdView> {
    Seq::new(mounts.len(), |i: int| mounts[i]@)
}

impl View for DockerProcedure {
    type V = DockerProcedureView;

    open spec fn view(&self) -> DockerProcedureView {
        DockerProcedureView {
            image: self.image@,
            system: self.system,
            inject: self.inject,
            mounts: mounts_view(self.mounts@),
            has_io_format: self.has_io_format,
        }
    }
}

impl View for PackageProcedure {
    type V = ProcedureView;

    open spec fn view(&self) -> ProcedureView {
        match self {
            PackageProcedure::Docker(docker) => ProcedureView::Docker(docker@),
            PackageProcedure::Script => ProcedureView::Script,
        }
    }
}

/// The name of a volume as an operator reads it.
pub open spec fn volume_name(id: VolumeIdView) -> Seq<char> {
    match id {
        VolumeIdView::Backup => "BACKUP"@,
        VolumeIdView::Custom(name) => name,
    }
}

/// Whether the procedure may mount the volume: the backup volume always, any
/// other only where the package declares it.
pub open spec fn may_mount(volumes: Seq<(VolumeIdView, crate::volume::Volume)>, id: VolumeIdView) -> bool {
    id == VolumeIdView::Backup || declares(volumes, id)
}

/// The first mount that the procedure may not mount; the number of mounts
/// where there is none.
pub open spec fn first_unknown_mount(
    mounts: Seq<VolumeIdView>,
    volumes: Seq<(VolumeIdView, crate::volume::Volume)>,
) -> int
    decreases mounts.len(),
{
    if mounts.len() == 0 {
        0
    } else if !may_mount(volumes, mounts[0]) {
        0
    } else {
        1 + first_unknown_mount(mounts.drop_first(), volumes)
    }
}

/// Whether the image is one of the system's own.
pub open spec fn is_system_image(image: Seq<char>) -> bool {
    image == "compat"@ || image == "utils"@
}

/// What is wrong with a procedure, in the order it is looked for: a mount of
/// a volume that the package does not declare; an image that is neither one
/// of the system's own, where the procedure asks for such, nor one of the
/// package's; a command to run inside the main container of a package that
/// declares none; no format where one is expected. `None` where nothing is
/// wrong. A script is never at fault.
pub open spec fn procedure_fault(
    procedure: ProcedureView,
    has_container: bool,
    volumes: Seq<(VolumeIdView, crate::volume::Volume)>,
    image_ids: Seq<Seq<char>>,
    expected_io: bool,
) -> Option<Seq<char>> {
    match procedure {
        ProcedureView::Script => None,
        ProcedureView::Docker(docker) => {
            let unknown = first_unknown_mount(docker.mounts, volumes);
            if unknown < docker.mounts.len() {
                Some("unknown volume: "@ + volume_name(docker.mounts[unknown]))
            } else if docker.system && !is_system_image(docker.image) {
                Some("unknown system image: "@ + docker.image)
            } else if !docker.system && !image_ids.contains(docker.image) {
                Some("image not contained in package: "@ + docker.image)
            } else if docker.inject && !has_container {
                Some("no container to run in"@)
            } else if expected_io && !docker.has_io_format {
                Some("expected io-format"@)
            } else {
                None
            }
        },
    }
}

/// What is wrong with the procedures of a backup: the fault of the one that
/// makes it, under the heading `Backup Create`, else that of the one that
/// restores it, under `Backup Restore`.
pub open spec fn actions_fault(
    create: ProcedureView,
    restore: ProcedureView,
    has_container: bool,
    volumes: Seq<(VolumeIdView, crate::volume::Volume)>,
    image_ids: Seq<Seq<char>>,
) -> Option<Seq<char>> {
    match procedure_fault(create, has_container, volumes, image_ids, false) {
        Some(fault) => Some("Backup Create: "@ + fault),
        None => match procedure_fault(restore, has_container, volumes, image_ids, false) {
            Some(fault) => Some("Backup Restore: "@ + fault),
            None => None,
        },
    }
}

fn name_of(id: &VolumeId) -> (name: String)
    ensures
        name@ == volume_name(id@),
{
    match id {
        VolumeId::Backup => "BACKUP".to_owned(),
        VolumeId::Custom(name) => name.clone(),
    }
}

impl DockerProcedure {
    /// The first mount that the procedure may not mount.
    fn unknown_mount(&self, volumes: &Volumes) -> (at: usize)
        ensures
            at == first_unknown_mount(self@.mounts, volumes@),
            at <= self.mounts@.len(),
    {
        let ghost mounts = self@.mounts;
        let mut i: usize = 0;
        proof {
            assert(mounts.skip(0) =~= mounts);
        }
        while i < self.mounts.len()
            invariant
                i <= self.mounts@.len(),
                mounts == mounts_view(self.mounts@),
                first_unknown_mount(mounts, volumes@) == i + first_unknown_mount(
                    mounts.skip(i as int),
                    volumes@,
                ),
            decreases self.mounts@.len() - i,
        {
            proof {
                let rest = mounts.skip(i as int);
                assert(rest[0] == mounts[i as int]);
                assert(rest.drop_first() =~= mounts.skip(i + 1));
            }
            let id = &self.mounts[i];
            if !id.is_backup() && !volumes.contains(id) {
                return i;
            }
            i += 1;
        }
        i
    }
}

impl PackageProcedure {
    /// Checks the procedure against what the package declares: a container
    /// or none, its volumes, its images. The error is of the kind
    /// `ValidateS9pk` and says what is wrong.
    pub fn validate(
        &self,
        has_container: bool,
        volumes: &Volumes,
        image_ids: &Vec<String>,
        expected_io: bool,
    ) -> (r: Result<(), Error>)
        ensures
            match procedure_fault(
                self@,
                has_container,
                volumes@,
                texts_view(image_ids@),
                expected_io,
            ) {
                Some(fault) => r matches Err(e) && e.kind == ErrorKind::ValidateS9pk && e.message@
                    == fault,
                None => r.is_ok(),
            },
    {
        match self {
            PackageProcedure::Script => Ok(()),
            PackageProcedure::Docker(docker) => {
                let unknown = docker.unknown_mount(volumes);
                if unknown < docker.mounts.len() {
                    let name = name_of(&docker.mounts[unknown]);
                    return Err(
                        Error::new(
                            ErrorKind::ValidateS9pk,
                            join("unknown volume: ", name.as_str()),
                        ),
                    );
                }
                if docker.system {
                    if !(text_equal(docker.image.as_str(), "compat") || text_equal(
                        docker.image.as_str(),
                        "utils",
                    )) {
                        return Err(
                            Error::new(
                                ErrorKind::ValidateS9pk,
                                join("unknown system image: ", docker.image.as_str()),
                            ),
                        );
                    }
                } else if !contains_text(image_ids, docker.image.as_str()) {
                    return Err(
                        Error::new(
                            ErrorKind::ValidateS9pk,
                            join("image not contained in package: ", docker.image.as_str()),
                        ),
                    );
                }
                if docker.inject && !has_container {
                    return Err(
                        Error::new(ErrorKind::ValidateS9pk, "no container to run in".to_owned()),
                    );
                }
                if expected_io && !docker.has_io_format {
                    return Err(
                        Error::new(ErrorKind::ValidateS9pk, "expected io-format".to_owned()),
                    );
                }
                Ok(())
            },
        }
    }
}

impl BackupActions {
    /// Checks both procedures, the one that makes the backup first.
    pub fn validate(&self, has_container: bool, volumes: &Volumes, image_ids: &Vec<String>) -> (r:
        Result<(), Error>)
        ensures
            match actions_fault(
                self.create@,
                self.restore@,
                has_container,
                volumes@,
                texts_view(image_ids@),
            ) {
                Some(fault) => r matches Err(e) && e.kind == ErrorKind::ValidateS9pk && e.message@
                    == fault,
                None => r.is_ok(),
            },
    {
        match self.create.validate(has_container, volumes, image_ids, false) {
            Err(e) => {
                return Err(
                    Error::new(ErrorKind::ValidateS9pk, join("Backup Create: ", e.message.as_str())),
                );
            },
            Ok(()) => {},
        }
        match self.restore.validate(has_container, volumes, image_ids, false) {
            Err(e) => Err(
                Error::new(ErrorKind::ValidateS9pk, join("Backup Restore: ", e.message.as_str())),
            ),
            Ok(()) => Ok(()),
        }
    }
}

} // verus!
