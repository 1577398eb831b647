//! The volumes that a package's procedures see.

use vstd::prelude::*;
use crate::text::text_equal;

verus! {

/// Names a volume: the backup volume, or one that the package declares.
#[derive(Debug)]
pub enum VolumeId {
    Backup,
    Custom(String),
}

/// A volume's name as plain values.
pub enum VolumeIdView {
    Backup,
    Custom(Seq<char>),
}

impl View for VolumeId {
    type V = VolumeIdView;

    open spec fn view(&self) -> VolumeIdView {
        match self {
            VolumeId::Backup => VolumeIdView::Backup,
            VolumeId::Custom(name) => VolumeIdView::Custom(name@),
        }
    }
}

impl VolumeId {
    /// Whether this names the backup volume.
    pub fn is_backup(&self) -> (b: bool)
        ensures
            b == (self@ == VolumeIdView::Backup),
    {
        match self {
            VolumeId::Backup => true,
            VolumeId::Custom(_) => false,
        }
    }

    /// Whether both name the same volume.
    pub fn same_as(&self, other: &VolumeId) -> (same: bool)
        ensures
            same == (self@ == other@),
    {
        match (self, other) {
            (VolumeId::Backup, VolumeId::Backup) => true,
            (VolumeId::Custom(a), VolumeId::Custom(b)) => text_equal(a.as_str(), b.as_str()),
            _ => false,
        }
    }

    /// A second name of the same volume.
    pub fn duplicate(&self) -> (copy: VolumeId)
        ensures
            copy@ == self@,
    {
        match self {
            VolumeId::Backup => VolumeId::Backup,
            VolumeId::Custom(name) => VolumeId::Custom(name.clone()),
        }
    }
}

/// What a volume is, and whether a procedure may write to it.
#[derive(Clone, Copy, Debug, PartialEq, Eq, Structural)]
pub enum Volume {
    /// The package's own data.
    Data { readonly: bool },
    /// Files that came with the package; never written.
    Assets,
    /// A view into another package's volume.
    Pointer { readonly: bool },
    /// The certificate of an interface; never written.
    Certificate,
    /// The package's directory on the backup volume.
    Backup { readonly: bool },
}

impl Volume {
    /// The same volume, closed to writing.
    pub open spec fn readonly_spec(self) -> Volume {
        match self {
            Volume::Data { .. } => Volume::Data { readonly: true },
            Volume::Pointer { .. } => Volume::Pointer { readonly: true },
            Volume::Backup { .. } => Volume::Backup { readonly: true },
            Volume::Assets => Volume::Assets,
            Volume::Certificate => Volume::Certificate,
        }
    }

    /// The same volume, closed to writing.
    pub fn to_readonly(self) -> (v: Volume)
        ensures
            v == self.readonly_spec(),
    {
        match self {
            Volume::Data { .. } => Volume::Data { readonly: true },
            Volume::Pointer { .. } => Volume::Pointer { readonly: true },
            Volume::Backup { .. } => Volume::Backup { readonly: true },
            Volume::Assets => Volume::Assets,
            Volume::Certificate => Volume::Certificate,
        }
    }

    /// Whether a procedure may write to the volume.
    pub open spec fn writable(self) -> bool {
        match self {
            Volume::Data { readonly } => !readonly,
            Volume::Pointer { readonly } => !readonly,
            Volume::Backup { readonly } => !readonly,
            Volume::Assets => false,
            Volume::Certificate => false,
        }
    }
}

/// A set of volumes, each under its name.
#[derive(Debug)]
pub struct Volumes {
    pub entries: Vec<(VolumeId, Volume)>,
}

/// The volumes as plain values, in the order they are held.
pub open spec fn volumes_view(entries: Seq<(VolumeId, Volume)>) -> Seq<(VolumeIdView, Volume)> {
    Seq::new(entries.len(), |i: int| (entries[i].0@, entries[i].1))
}

impl View for Volumes {
    type V = Seq<(VolumeIdView, Volume)>;

    open spec fn view(&self) -> Seq<(VolumeIdView, Volume)> {
        volumes_view(self.entries@)
    }
}

/// Whether the volumes hold one of this name.
pub open spec fn declares(volumes: Seq<(VolumeIdView, Volume)>, id: VolumeIdView) -> bool {
    exists|i: int| 0 <= i < volumes.len() && (#[trigger] volumes[i]).0 == id
}

/// The volumes other than a backup volume.
pub open spec fn is_declared_volume() -> spec_fn((VolumeIdView, Volume)) -> bool {
    |entry: (VolumeIdView, Volume)| entry.0 != VolumeIdView::Backup
}

/// The volume closed to writing, where `close` says so.
pub open spec fn closed_if(close: bool) -> spec_fn((VolumeIdView, Volume)) -> (
    VolumeIdView,
    Volume,
) {
    |entry: (VolumeIdView, Volume)|
        if close {
            (entry.0, entry.1.readonly_spec())
        } else {
            entry
        }
}

/// The volumes that a backup procedure runs with: the declared volumes other
/// than a backup volume, each closed to writing where `close` says so, and
/// behind them the backup volume, closed to writing or open as
/// `backup_readonly` says.
pub open spec fn with_backup_volume(
    volumes: Seq<(VolumeIdView, Volume)>,
    close: bool,
    backup_readonly: bool,
) -> Seq<(VolumeIdView, Volume)> {
    volumes.filter(is_declared_volume()).map_values(closed_if(close)).push(
        (VolumeIdView::Backup, Volume::Backup { readonly: backup_readonly }),
    )
}

impl Volumes {
    /// No volumes.
    pub fn new() -> (v: Volumes)
        ensures
            v@ == Seq::<(VolumeIdView, Volume)>::empty(),
    {
        let v = Volumes { entries: Vec::new() };
        assert(v@ =~= Seq::<(VolumeIdView, Volume)>::empty());
        v
    }

    /// A second set of the same volumes.
    pub fn duplicate(&self) -> (v: Volumes)
        ensures
            v@ == self@,
    {
        let mut entries: Vec<(VolumeId, Volume)> = Vec::new();
        let mut i: usize = 0;
        while i < self.entries.len()
            invariant
                i <= self.entries@.len(),
                entries@.len() == i,
                forall|j: int| 0 <= j < i ==> volumes_view(entries@)[j] == self@[j],
            decreases self.entries@.len() - i,
        {
            let ghost before = volumes_view(entries@);
            let entry = &self.entries[i];
            entries.push((entry.0.duplicate(), entry.1));
            assert forall|j: int| 0 <= j < i + 1 implies volumes_view(entries@)[j] == self@[j] by {
                if j < i {
                    assert(volumes_view(entries@)[j] == before[j]);
                }
            }
            i += 1;
        }
        let v = Volumes { entries };
        assert(v@ =~= self@);
        v
    }

    /// Whether there is a volume of this name.
    pub fn contains(&self, id: &VolumeId) -> (found: bool)
        ensures
            found == declares(self@, id@),
    {
        let mut i: usize = 0;
        while i < self.entries.len()
            invariant
                i <= self.entries@.len(),
                forall|j: int| 0 <= j < i ==> (#[trigger] self@[j]).0 != id@,
            decreases self.entries@.len() - i,
        {
            if self.entries[i].0.same_as(id) {
                assert(self@[i as int].0 == id@);
                return true;
            }
            i += 1;
        }
        false
    }

    /// The volumes for a backup procedure: see `with_backup_volume`.
    pub fn for_backup(&self, close: bool, backup_readonly: bool) -> (v: Volumes)
        ensures
            v@ == with_backup_volume(self@, close, backup_readonly),
    {
        let mut entries: Vec<(VolumeId, Volume)> = Vec::new();
        let mut i: usize = 0;
        assert(self@.take(0) =~= Seq::empty());
        assert(volumes_view(entries@) =~= Seq::empty());
        proof {
            reveal(Seq::filter);
        }
        while i < self.entries.len()
            invariant
                i <= self.entries@.len(),
                volumes_view(entries@) == self@.take(i as int).filter(
                    is_declared_volume(),
                ).map_values(closed_if(close)),
            decreases self.entries@.len() - i,
        {
            let ghost before = volumes_view(entries@);
            let ghost kept = self@.take(i as int).filter(is_declared_volume());
            let entry = &self.entries[i];
            proof {
                reveal(Seq::filter);
                let longer = self@.take(i + 1);
                assert(longer.drop_last() =~= self@.take(i as int));
                assert(longer.last() == self@[i as int]);
            }
            if !entry.0.is_backup() {
                let volume = if close {
                    entry.1.to_readonly()
                } else {
                    entry.1
                };
                entries.push((entry.0.duplicate(), volume));
                proof {
                    let longer = self@.take(i + 1);
                    assert(longer.filter(is_declared_volume()) == kept.push(self@[i as int]));
                    let mapped = kept.push(self@[i as int]).map_values(closed_if(close));
                    assert(before.len() == kept.len());
                    assert(volumes_view(entries@).len() == mapped.len());
                    assert forall|j: int| 0 <= j < mapped.len() implies volumes_view(entries@)[j]
                        == mapped[j] by {
                        if j < kept.len() {
                            assert(volumes_view(entries@)[j] == before[j]);
                            assert(before[j] == closed_if(close)(kept[j]));
                        } else {
                            assert(entries@[j].0@ == self@[i as int].0);
                        }
                    }
                    assert(volumes_view(entries@) =~= mapped);
                }
            }
            i += 1;
        }
        entries.push((VolumeId::Backup, Volume::Backup { readonly: backup_readonly }));
        let v = Volumes { entries };
        proof {
            assert(self@.take(self.entries@.len() as int) =~= self@);
            assert(v@ =~= with_backup_volume(self@, close, backup_readonly));
        }
        v
    }
}

/// The volumes for a backup procedure hold the backup volume once, as the
/// last one, open or closed as asked; and where the others were to be closed,
/// none of them can be written to.
pub proof fn lemma_backup_volume_last(
    volumes: Seq<(VolumeIdView, Volume)>,
    close: bool,
    backup_readonly: bool,
)
    ensures
        ({
            let v = with_backup_volume(volumes, close, backup_readonly);
            &&& v.len() >= 1
            &&& v.last() == (VolumeIdView::Backup, Volume::Backup { readonly: backup_readonly })
            &&& forall|i: int| 0 <= i < v.len() - 1 ==> (#[trigger] v[i]).0 != VolumeIdView::Backup
            &&& close ==> forall|i: int| 0 <= i < v.len() - 1 ==> !(#[trigger] v[i]).1.writable()
        }),
{
    let kept = volumes.filter(is_declared_volume());
    let v = with_backup_volume(volumes, close, backup_readonly);
    assert forall|i: int| 0 <= i < kept.len() implies (#[trigger] kept[i]).0
        != VolumeIdView::Backup by {
        volumes.lemma_filter_pred(is_declared_volume(), i);
    }
    assert forall|i: int| 0 <= i < v.len() - 1 implies (#[trigger] v[i]).0 != VolumeIdView::Backup
        && (close ==> !v[i].1.writable()) by {
        assert(v[i] == closed_if(close)(kept[i]));
    }
}

} // verus!
