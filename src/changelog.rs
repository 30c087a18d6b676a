//! The audit trail kept in each managed database: the kinds of change logged.
use vstd::prelude::*;
use crate::text::{chars_of, string_of};

verus! {

/// Kinds of schema change that the changelog records.
#[derive(Debug, Clone, Copy, PartialEq, Eq, Structural)]
pub enum ChangeType {
    MigrationApplied,
    FunctionDeployed,
    FunctionDropped,
    FunctionSkipped,
    ExtensionInstalled,
    ExtensionSkipped,
    SeederRun,
    SeederSkipped,
    SeederValidated,
}

/// The snake_case name a change kind is stored under.
pub open spec fn change_type_text(t: ChangeType) -> Seq<char> {
    match t {
        ChangeType::MigrationApplied => "migration_applied"@,
        ChangeType::FunctionDeployed => "function_deployed"@,
        ChangeType::FunctionDropped => "function_dropped"@,
        ChangeType::FunctionSkipped => "function_skipped"@,
        ChangeType::ExtensionInstalled => "extension_installed"@,
        ChangeType::ExtensionSkipped => "extension_skipped"@,
        ChangeType::SeederRun => "seeder_run"@,
        ChangeType::SeederSkipped => "seeder_skipped"@,
        ChangeType::SeederValidated => "seeder_validated"@,
    }
}

impl ChangeType {
    pub fn as_str(&self) -> (r: &'static str)
        ensures
            r@ == change_type_text(*self),
    {
        match self {
            ChangeType::MigrationApplied => "migration_applied",
            ChangeType::FunctionDeployed => "function_deployed",
            ChangeType::FunctionDropped => "function_dropped",
            ChangeType::FunctionSkipped => "function_skipped",
            ChangeType::ExtensionInstalled => "extension_installed",
            ChangeType::ExtensionSkipped => "extension_skipped",
            ChangeType::SeederRun => "seeder_run",
            ChangeType::SeederSkipped => "seeder_skipped",
            ChangeType::SeederValidated => "seeder_validated",
        }
    }

    /// The stored name of the change kind.
    pub fn to_string(&self) -> (r: String)
        ensures
            r@ == change_type_text(*self),
    {
        string_of(&chars_of(self.as_str()))
    }
}

/// Writes changelog entries; every write is best effort.
pub struct ChangelogManager;

impl ChangelogManager {
    pub fn new() -> (r: Self) {
        ChangelogManager
    }
}

} // verus!
