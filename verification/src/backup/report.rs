//! What a backup run reports: how the server's own backup went, and that of
//! each package.

use vstd::prelude::*;
use crate::notifications::NotificationType;
use crate::package::PackageId;
use crate::timestamp::Timestamp;
use crate::version::Semver;

verus! {

/// How the backup of the server's own data went.
#[derive(Debug)]
pub struct ServerBackupReport {
    pub attempted: bool,
    pub error: Option<String>,
}

/// How the backup of one package went: the error's text where it failed.
#[derive(Debug)]
pub struct PackageBackupReport {
    pub error: Option<String>,
}

/// The report of a whole backup run.
#[derive(Debug)]
pub struct BackupReport {
    pub server: ServerBackupReport,
    pub packages: Vec<(PackageId, PackageBackupReport)>,
}

impl NotificationType for BackupReport {
    open spec fn code_spec() -> i32 {
        1
    }

    fn code() -> (c: i32) {
        1
    }
}

/// What a successful backup of a package gives back.
#[derive(Debug)]
pub struct PackageBackupInfo {
    pub os_version: Semver,
    pub title: String,
    pub version: String,
    pub timestamp: Timestamp,
}

/// A backup's summary as plain values.
pub struct PackageBackupInfoView {
    pub os_version: Semver,
    pub title: Seq<char>,
    pub version: Seq<char>,
    pub timestamp: Timestamp,
}

impl View for PackageBackupInfo {
    type V = PackageBackupInfoView;

    open spec fn view(&self) -> PackageBackupInfoView {
        PackageBackupInfoView {
            os_version: self.os_version,
            title: self.title@,
            version: self.version@,
            timestamp: self.timestamp,
        }
    }
}

impl PackageBackupReport {
    /// The report of one package's backup: no error where it gave a summary,
    /// else the error's message.
    pub fn of(message: Option<String>) -> (report: PackageBackupReport)
        ensures
            report.error == message,
    {
        PackageBackupReport { error: message }
    }

    /// Whether the backup went well.
    pub fn succeeded(&self) -> (ok: bool)
        ensures
            ok == self.error.is_none(),
    {
        self.error.is_none()
    }
}

impl BackupReport {
    /// How many packages' backups failed.
    pub open spec fn failures(packages: Seq<(PackageId, PackageBackupReport)>) -> nat
        decreases packages.len(),
    {
        if packages.len() == 0 {
            0
        } else {
            Self::failures(packages.drop_last()) + if packages.last().1.error.is_some() {
                1nat
            } else {
                0nat
            }
        }
    }

    /// Counts the packages whose backup failed.
    pub fn failed_packages(&self) -> (n: usize)
        ensures
            n == Self::failures(self.packages@),
    {
        let mut n: usize = 0;
        let mut i: usize = 0;
        assert(self.packages@.take(0) =~= Seq::empty());
        while i < self.packages.len()
            invariant
                i <= self.packages@.len(),
                n <= i,
                n == Self::failures(self.packages@.take(i as int)),
            decreases self.packages@.len() - i,
        {
            proof {
                let longer = self.packages@.take(i + 1);
                assert(longer.drop_last() =~= self.packages@.take(i as int));
                assert(longer.last() == self.packages@[i as int]);
            }
            if self.packages[i].1.error.is_some() {
                n += 1;
            }
            i += 1;
        }
        assert(self.packages@.take(self.packages@.len() as int) =~= self.packages@);
        n
    }

    /// Whether the run went well throughout: the server's backup was
    /// attempted and gave no error, and no package's backup failed.
    pub fn is_clean(&self) -> (ok: bool)
        ensures
            ok == (self.server.attempted && self.server.error.is_none() && Self::failures(
                self.packages@,
            ) == 0),
    {
        self.server.attempted && self.server.error.is_none() && self.failed_packages() == 0
    }
}

} // verus!
