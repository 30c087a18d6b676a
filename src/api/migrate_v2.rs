//! Bodies of `POST /v2/migrate`, and the report of a diff in them.
use vstd::prelude::*;
use crate::diff::{change_type_label, change_type_name, opt_view, ChangeCompatibility, ChangeView, SchemaChange, SchemaDiff};
use crate::text::{chars_of, string_of};

verus! {

#[derive(Debug, Clone)]
pub struct MigrateV2Request {
    pub platform: String,
    pub schema_name: String,
    pub database_id: Option<String>,
    pub force: bool,
}

#[derive(Debug, Clone)]
pub struct SeederValidationInfo {
    pub table: String,
    pub expected: usize,
    pub found: usize,
}

#[derive(Debug, Clone)]
pub struct SchemaChangeInfo {
    pub table: String,
    pub change_type: String,
    pub column: Option<String>,
    pub from_type: Option<String>,
    pub to_type: Option<String>,
    pub compatibility: String,
    pub reason: Option<String>,
}

#[derive(Debug, Clone)]
pub struct SchemaValidationInfo {
    pub safe_changes: Vec<SchemaChangeInfo>,
    pub dataloss_changes: Vec<SchemaChangeInfo>,
    pub incompatible_changes: Vec<SchemaChangeInfo>,
}

#[derive(Debug, Clone)]
pub struct VerificationInfo {
    pub passed: bool,
    pub extensions_verified: bool,
    pub types_verified: bool,
    pub tables_verified: bool,
    pub seeders_verified: bool,
    pub error_log: Option<String>,
}

#[derive(Debug, Clone)]
pub struct MigrateV2Response {
    pub status: String,
    pub platform: String,
    pub schema_name: String,
    pub databases_updated: Vec<String>,
    pub migrations_applied: usize,
    pub functions_updated: usize,
    pub seeder_validations: Vec<SeederValidationInfo>,
    pub schema_validation: Option<SchemaValidationInfo>,
    pub verification: Option<VerificationInfo>,
    pub execution_time_ms: u64,
}

pub open spec fn compatibility_name(k: ChangeCompatibility) -> Seq<char> {
    match k {
        ChangeCompatibility::Safe => "safe"@,
        ChangeCompatibility::DataLoss => "dataloss"@,
        ChangeCompatibility::Incompatible => "incompatible"@,
    }
}

/// The report of one change carries the change's own fields, its kind and
/// compatibility spelled out.
pub open spec fn reports(i: SchemaChangeInfo, c: ChangeView) -> bool {
    &&& i.table@ == c.table
    &&& i.change_type@ == change_type_name(c.change_type)
    &&& opt_view(i.column) == c.column
    &&& opt_view(i.from_type) == c.from_type
    &&& opt_view(i.to_type) == c.to_type
    &&& i.compatibility@ == compatibility_name(c.compatibility)
    &&& opt_view(i.reason) == c.reason
}

pub open spec fn reports_all(is: Seq<SchemaChangeInfo>, cs: Seq<SchemaChange>) -> bool {
    is.len() == cs.len() && forall|k: int| 0 <= k < cs.len() ==> reports(#[trigger] is[k], cs[k]@)
}

fn copy_opt(o: &Option<String>) -> (r: Option<String>)
    ensures
        opt_view(r) == opt_view(*o),
{
    match o {
        Some(s) => Some(string_of(&chars_of(s.as_str()))),
        None => None,
    }
}

fn change_info(c: &SchemaChange) -> (r: SchemaChangeInfo)
    ensures
        reports(r, c@),
{
    let compatibility = match c.compatibility {
        ChangeCompatibility::Safe => "safe",
        ChangeCompatibility::DataLoss => "dataloss",
        ChangeCompatibility::Incompatible => "incompatible",
    };
    SchemaChangeInfo {
        table: string_of(&chars_of(c.table.as_str())),
        change_type: string_of(&chars_of(change_type_label(c.change_type))),
        column: copy_opt(&c.column),
        from_type: copy_opt(&c.from_type),
        to_type: copy_opt(&c.to_type),
        compatibility: string_of(&chars_of(compatibility)),
        reason: copy_opt(&c.reason),
    }
}

fn change_infos(cs: &Vec<SchemaChange>) -> (r: Vec<SchemaChangeInfo>)
    ensures
        reports_all(r@, cs@),
{
    let mut r: Vec<SchemaChangeInfo> = Vec::new();
    let mut i: usize = 0;
    while i < cs.len()
        invariant
            i <= cs@.len(),
            r@.len() == i,
            forall|k: int| 0 <= k < i ==> reports(#[trigger] r@[k], cs@[k]@),
        decreases cs@.len() - i,
    {
        r.push(change_info(&cs[i]));
        i = i + 1;
    }
    r
}

/// The report of a diff: one entry per change, in the same lists and order.
pub fn diff_to_validation_info(diff: &SchemaDiff) -> (r: SchemaValidationInfo)
    ensures
        reports_all(r.safe_changes@, diff.safe_changes@),
        reports_all(r.dataloss_changes@, diff.dataloss_changes@),
        reports_all(r.incompatible_changes@, diff.incompatible_changes@),
{
    SchemaValidationInfo {
        safe_changes: change_infos(&diff.safe_changes),
        dataloss_changes: change_infos(&diff.dataloss_changes),
        incompatible_changes: change_infos(&diff.incompatible_changes),
    }
}

} // verus!
