//! Output-directory reconciliation: whether a package's destination is
//! created fresh, overwritten in place, or — for a non-root package that
//! already has one — put to the operator's choice of overwrite or delete.
use vstd::prelude::*;

use crate::text::seq_eq_icase;
use crate::text::trim_spec;
use crate::text::trim_str;
use crate::text::eq_ignore_case;

verus! {

/// What happens to a package's destination directory before extraction.
#[derive(PartialEq, Eq, Structural, Clone, Copy, Debug)]
pub enum ReconcilePlan {
    /// The directory does not exist: create it, parents included.
    Create,
    /// The directory exists and the package is a root package: no
    /// destructive action, extraction overwrites in place.
    Overwrite,
    /// The directory exists and the package is not a root package: ask the
    /// operator to choose overwrite or delete.
    AskChoice,
}

/// The operator's choice for an existing destination directory.
#[derive(PartialEq, Eq, Structural, Clone, Copy, Debug)]
pub enum DirChoice {
    /// Remove the directory tree and recreate it empty.
    Delete,
    /// Leave existing contents in place for in-place replacement (the
    /// default).
    Overwrite,
}

/// The reconciliation decision for a destination directory.
pub open spec fn reconcile_plan_spec(target_exists: bool, is_root: bool) -> ReconcilePlan {
    if !target_exists {
        ReconcilePlan::Create
    } else if is_root {
        ReconcilePlan::Overwrite
    } else {
        ReconcilePlan::AskChoice
    }
}

/// Decide what to do with a package's destination directory: create it when
/// missing, overwrite in place for a root package, otherwise ask.
pub fn reconcile_plan(target_exists: bool, is_root: bool) -> (r: ReconcilePlan)
    ensures
        r == reconcile_plan_spec(target_exists, is_root),
{
    if !target_exists {
        ReconcilePlan::Create
    } else if is_root {
        ReconcilePlan::Overwrite
    } else {
        ReconcilePlan::AskChoice
    }
}

/// Interpret the operator's overwrite-or-delete answer: delete exactly on a
/// trimmed `d` of either case, overwrite (the default) on anything else.
pub fn reconcile_choice(line: &str) -> (r: DirChoice)
    ensures
        r == (if seq_eq_icase(trim_spec(line@), "d"@) {
            DirChoice::Delete
        } else {
            DirChoice::Overwrite
        }),
{
    let t = trim_str(line);
    if eq_ignore_case(t.as_str(), "d") {
        DirChoice::Delete
    } else {
        DirChoice::Overwrite
    }
}

} // verus!
