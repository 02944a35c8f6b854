//! The extraction step's decisions: which staged files start an archive
//! group, the argument list handed to the external archiving tool, and the
//! classification of a finished invocation — success, wrong password (by the
//! tool's diagnostic marker), or plain failure.
use vstd::prelude::*;
use vstd::string::StrSliceExecFns;
use vstd::string::StringExecFns;

use crate::filename::base_name_spec;
use crate::filename::get_base_name;
use crate::filename::is_first_volume;
use crate::filename::is_first_volume_spec;
use crate::text::contains_seq;
use crate::text::contains_substring;

verus! {

/// How one invocation of the external archiving tool ended.
#[derive(PartialEq, Eq, Structural, Clone, Copy, Debug)]
pub enum ExtractOutcome {
    /// The tool exited successfully.
    Success,
    /// The tool failed and its diagnostic stream holds the wrong-password
    /// marker: the password can be retried.
    WrongPassword,
    /// The tool failed for any other reason: the package's extraction fails
    /// outright.
    Failed,
}

/// The marker the external tool prints to its diagnostic stream when an
/// archive's password was wrong.
pub open spec fn wrong_password_marker() -> Seq<char> {
    "Wrong password?"@
}

/// The classification of a finished tool invocation.
pub open spec fn classify_spec(exit_ok: bool, diagnostic: Seq<char>) -> ExtractOutcome {
    if exit_ok {
        ExtractOutcome::Success
    } else if contains_seq(diagnostic, wrong_password_marker()) {
        ExtractOutcome::WrongPassword
    } else {
        ExtractOutcome::Failed
    }
}

/// Classify one invocation of the external archiving tool from its exit
/// status and its diagnostic stream: a failure whose diagnostics hold the
/// wrong-password marker is a `WrongPassword`, distinct from plain failure.
pub fn classify_extraction(exit_ok: bool, diagnostic: &str) -> (r: ExtractOutcome)
    ensures
        r == classify_spec(exit_ok, diagnostic@),
{
    if exit_ok {
        ExtractOutcome::Success
    } else if contains_substring(diagnostic, "Wrong password?") {
        ExtractOutcome::WrongPassword
    } else {
        ExtractOutcome::Failed
    }
}

/// One extraction job: a group's first-volume file and the base name that
/// groups the segments of that archive.
pub struct VolumeGroup {
    pub first_volume: String,
    pub base: String,
}

/// The staged file names that start an archive group, in listing order.
pub open spec fn first_volumes_spec(names: Seq<Seq<char>>) -> Seq<Seq<char>>
    decreases names.len(),
{
    if names.len() == 0 {
        Seq::empty()
    } else {
        first_volumes_spec(names.drop_last()) + (if is_first_volume_spec(names.last()) {
            seq![names.last()]
        } else {
            Seq::empty()
        })
    }
}

/// Plan the extraction of a staging directory: one job per first-volume file
/// in `files`, in order, each with the base name that groups its segments.
/// Later segments are consumed implicitly by the tool once the first is
/// supplied, so only first-volume files drive extraction.
pub fn plan_volume_groups(files: &Vec<String>) -> (r: Vec<VolumeGroup>)
    ensures
        ({
            let firsts = first_volumes_spec(files@.map_values(|f: String| f@));
            &&& r@.len() == firsts.len()
            &&& forall|i: int|
                0 <= i < r@.len() ==> (#[trigger] r@[i]).first_volume@ == firsts[i]
                    && r@[i].base@ == base_name_spec(firsts[i])
        }),
{
    let ghost names = files@.map_values(|f: String| f@);
    let mut r: Vec<VolumeGroup> = Vec::new();
    let mut i: usize = 0;
    proof {
        assert(names.take(0) =~= Seq::<Seq<char>>::empty());
    }
    while i < files.len()
        invariant
            0 <= i <= files.len(),
            names == files@.map_values(|f: String| f@),
            ({
                let firsts = first_volumes_spec(names.take(i as int));
                &&& r@.len() == firsts.len()
                &&& forall|j: int|
                    0 <= j < r@.len() ==> (#[trigger] r@[j]).first_volume@ == firsts[j]
                        && r@[j].base@ == base_name_spec(firsts[j])
            }),
        decreases files.len() - i,
    {
        proof {
            assert(names.take(i + 1).drop_last() =~= names.take(i as int));
            assert(names.take(i + 1).last() == names[i as int]);
            assert(names[i as int] == files@[i as int]@);
        }
        let name = &files[i];
        if is_first_volume(name.as_str()) {
            match get_base_name(name.as_str()) {
                Some(base) => {
                    r.push(VolumeGroup { first_volume: name.clone(), base });
                },
                None => {
                },
            }
        }
        i = i + 1;
    }
    proof {
        assert(names.take(files@.len() as int) =~= names);
    }
    r
}

/// The argument list for one invocation of the external archiving tool:
/// extract (`x`), answer yes to every query (`-y`), the group's first-volume
/// file, the scratch directory (`-o<dir>`), and — only when a password was
/// supplied — the password (`-p<password>`).
pub fn extraction_args(first_volume: &str, scratch_dir: &str, password: &str) -> (r: Vec<String>)
    ensures
        r@.len() == (if password@.len() == 0 {
            4int
        } else {
            5int
        }),
        r@[0]@ == "x"@,
        r@[1]@ == "-y"@,
        r@[2]@ == first_volume@,
        r@[3]@ == seq!['-', 'o'] + scratch_dir@,
        password@.len() > 0 ==> r@[4]@ == seq!['-', 'p'] + password@,
{
    let mut r: Vec<String> = Vec::new();
    r.push("x".to_owned());
    r.push("-y".to_owned());
    r.push(first_volume.to_owned());
    let mut out_arg = "-o".to_owned();
    proof {
        reveal_strlit("-o");
        assert("-o"@ =~= seq!['-', 'o']);
    }
    out_arg.append(scratch_dir);
    r.push(out_arg);
    if password.unicode_len() > 0 {
        let mut pw_arg = "-p".to_owned();
        proof {
            reveal_strlit("-p");
            assert("-p"@ =~= seq!['-', 'p']);
        }
        pw_arg.append(password);
        r.push(pw_arg);
    }
    r
}

} // verus!
