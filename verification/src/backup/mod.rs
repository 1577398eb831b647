//! Backups of installed packages: the reports of a backup run, the procedures
//! that a package brings for making and restoring its backup, and the plans
//! that lead one backup and one restore through their steps.

pub mod create;
pub mod keys;
pub mod procedure;
pub mod report;
pub mod restore;
