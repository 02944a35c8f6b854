//! The update decision: whether a package's archive set should be fetched,
//! given the locally recorded version and the remote version.  A missing
//! local version installs with no prompt; an equal or newer local version
//! updates only on explicit operator confirmation; an older local version
//! updates unconditionally.
use vstd::prelude::*;

use crate::text::lemma_lex_total;
use crate::text::Order;
use crate::version::version_lt_spec;
use crate::version::Version;

verus! {

/// What the version comparison asks of the operator, if anything.
#[derive(PartialEq, Eq, Structural, Clone, Copy, Debug)]
pub enum UpdateQuery {
    /// No local version exists: install without a prompt.
    Install,
    /// The local version is older: update without a prompt.
    Update,
    /// The versions are equal: reload only if the operator confirms.
    AskReload,
    /// The local version is newer: downgrade only if the operator confirms.
    AskDowngrade,
}

/// The decision for a local version (as a date token and iteration) against
/// the remote version.
pub open spec fn update_query_spec(
    current: Option<(Seq<char>, u64)>,
    remote: (Seq<char>, u64),
) -> UpdateQuery {
    match current {
        None => UpdateQuery::Install,
        Some(c) => {
            if c.0 == remote.0 && c.1 == remote.1 {
                UpdateQuery::AskReload
            } else if version_lt_spec(remote.0, remote.1, c.0, c.1) {
                UpdateQuery::AskDowngrade
            } else {
                UpdateQuery::Update
            }
        },
    }
}

/// The decision requires the operator's confirmation.
pub open spec fn update_needs_prompt(q: UpdateQuery) -> bool {
    q == UpdateQuery::AskReload || q == UpdateQuery::AskDowngrade
}

/// Whether the update proceeds, given the operator's answer where one was
/// asked for.
pub open spec fn update_resolved_spec(q: UpdateQuery, answer_yes: bool) -> bool {
    match q {
        UpdateQuery::Install => true,
        UpdateQuery::Update => true,
        UpdateQuery::AskReload => answer_yes,
        UpdateQuery::AskDowngrade => answer_yes,
    }
}

/// Decide what to do about a package whose remote version is `remote` when
/// the locally recorded version is `current`.
pub fn should_update_package(current: Option<&Version>, remote: &Version) -> (q: UpdateQuery)
    ensures
        q == update_query_spec(
            match current {
                Some(c) => Some((c.date@, c.iteration)),
                None => None,
            },
            (remote.date@, remote.iteration),
        ),
{
    match current {
        None => UpdateQuery::Install,
        Some(c) => {
            match c.compare(remote) {
                Order::Equal => UpdateQuery::AskReload,
                Order::Greater => UpdateQuery::AskDowngrade,
                Order::Less => UpdateQuery::Update,
            }
        },
    }
}

/// Resolve a decision with the operator's answer: prompting decisions follow
/// the answer, the others proceed regardless.
pub fn resolve_update(q: UpdateQuery, answer_yes: bool) -> (b: bool)
    ensures
        b == update_resolved_spec(q, answer_yes),
{
    match q {
        UpdateQuery::Install => true,
        UpdateQuery::Update => true,
        UpdateQuery::AskReload => answer_yes,
        UpdateQuery::AskDowngrade => answer_yes,
    }
}

/// The update decision table.  With no local version the package installs
/// and no prompt is raised; an equal local version reloads exactly when the
/// operator answers yes; a newer local version downgrades exactly when the
/// operator answers yes; an older local version updates unconditionally with
/// no prompt.
pub proof fn lemma_update_decision_table(
    current: Option<(Seq<char>, u64)>,
    remote: (Seq<char>, u64),
    answer_yes: bool,
)
    ensures
        current is None ==> {
            let q = update_query_spec(current, remote);
            !update_needs_prompt(q) && update_resolved_spec(q, answer_yes)
        },
        (current matches Some(c) && c == remote) ==> {
            let q = update_query_spec(current, remote);
            update_needs_prompt(q) && update_resolved_spec(q, answer_yes) == answer_yes
        },
        (current matches Some(c) && version_lt_spec(remote.0, remote.1, c.0, c.1)) ==> {
            let q = update_query_spec(current, remote);
            update_needs_prompt(q) && update_resolved_spec(q, answer_yes) == answer_yes
        },
        (current matches Some(c) && version_lt_spec(c.0, c.1, remote.0, remote.1)) ==> {
            let q = update_query_spec(current, remote);
            !update_needs_prompt(q) && update_resolved_spec(q, answer_yes)
        },
{
    match current {
        None => {
        },
        Some(c) => {
            lemma_lex_total(c.0, remote.0);
            lemma_lex_total(remote.0, c.0);
        },
    }
}

} // verus!
