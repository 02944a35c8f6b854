//! Interpretation of operator console entries: yes/no confirmations,
//! continue-or-quit and restart answers, the package selection, and the
//! output-root path entries.  Every entry is trimmed of surrounding blanks
//! and letter answers are matched ignoring ASCII case.
use vstd::prelude::*;
use vstd::string::StrSliceExecFns;

use crate::text::digits_val;
use crate::text::eq_ignore_case;
use crate::text::find_substring;
use crate::text::is_digit_seq;
use crate::text::lemma_split_first_at;
use crate::text::lemma_split_first_none;
use crate::text::normalize_path;
use crate::text::normalize_path_spec;
use crate::text::seq_eq_icase;
use crate::text::split_first_spec;
use crate::text::trim_spec;
use crate::text::trim_str;

verus! {

/// A yes/no confirmation: yes exactly on a trimmed `y`, of either case.
pub fn answer_is_yes(line: &str) -> (b: bool)
    ensures
        b == seq_eq_icase(trim_spec(line@), "y"@),
{
    let t = trim_str(line);
    eq_ignore_case(t.as_str(), "y")
}

/// A continue-or-quit gate: continue exactly on a trimmed `c`, of either
/// case; anything else quits.
pub fn wants_continue(line: &str) -> (b: bool)
    ensures
        b == seq_eq_icase(trim_spec(line@), "c"@),
{
    let t = trim_str(line);
    eq_ignore_case(t.as_str(), "c")
}

/// The end-of-run gate: restart exactly on a trimmed `start`, of either
/// case; anything else exits.
pub fn wants_restart(line: &str) -> (b: bool)
    ensures
        b == seq_eq_icase(trim_spec(line@), "start"@),
{
    let t = trim_str(line);
    eq_ignore_case(t.as_str(), "start")
}

/// The operator's choice from the package menu.
#[derive(PartialEq, Eq, Structural, Clone, Copy, Debug)]
pub enum Selection {
    /// Leave the program (`e` or `exit`).
    Exit,
    /// Process every package (`a` or `all`).
    All,
    /// Process the package at this zero-based position of the menu.
    Choice(usize),
    /// Anything else: ask again.
    Invalid,
}

/// What a menu entry selects among `count` listed packages.  A number may
/// carry a trailing dot part (`1.` or `1.0` select the first package); it
/// must lie between 1 and `count`.
pub open spec fn selection_spec(input: Seq<char>, count: usize) -> Selection {
    let t = trim_spec(input);
    if seq_eq_icase(t, "e"@) || seq_eq_icase(t, "exit"@) {
        Selection::Exit
    } else if seq_eq_icase(t, "a"@) || seq_eq_icase(t, "all"@) {
        Selection::All
    } else {
        let prefix = match split_first_spec(t, seq!['.']) {
            None => t,
            Some(parts) => parts.0,
        };
        if prefix.len() > 0 && is_digit_seq(prefix) && 1 <= digits_val(prefix) && digits_val(
            prefix,
        ) <= count {
            Selection::Choice((digits_val(prefix) - 1) as usize)
        } else {
            Selection::Invalid
        }
    }
}

/// Interpret the operator's package selection among `count` listed packages.
pub fn parse_selection(input: &str, count: usize) -> (r: Selection)
    ensures
        r == selection_spec(input@, count),
{
    let t = trim_str(input);
    if eq_ignore_case(t.as_str(), "e") || eq_ignore_case(t.as_str(), "exit") {
        return Selection::Exit;
    }
    if eq_ignore_case(t.as_str(), "a") || eq_ignore_case(t.as_str(), "all") {
        return Selection::All;
    }
    proof {
        reveal_strlit(".");
        assert("."@ =~= seq!['.']);
    }
    let n = t.as_str().unicode_len();
    let prefix = match find_substring(t.as_str(), ".") {
        Some(i) => {
            proof {
                lemma_split_first_at(t@, seq!['.'], i as int);
            }
            let p = t.as_str().substring_char(0, i);
            proof {
                assert(p@ =~= t@.take(i as int));
            }
            p
        },
        None => {
            proof {
                lemma_split_first_none(t@, seq!['.']);
            }
            t.as_str()
        },
    };
    match crate::text::parse_u64_digits(prefix) {
        Some(v) => {
            if 1 <= v && v <= (count as u64) {
                Selection::Choice((v - 1) as usize)
            } else {
                Selection::Invalid
            }
        },
        None => Selection::Invalid,
    }
}

/// The operator's answer to the output-root path prompt.
#[derive(Debug)]
pub enum PathPromptStep {
    /// Leave the program (`e` or `exit`).
    Exit,
    /// A blank entry: use the default output directory beside the program.
    UseDefault,
    /// A path to try, with trailing separators stripped.
    Candidate(String),
}

/// Interpret one entry at the output-root path prompt.
pub fn path_prompt_step(input: &str) -> (r: PathPromptStep)
    ensures
        ({
            let t = trim_spec(input@);
            if seq_eq_icase(t, "e"@) || seq_eq_icase(t, "exit"@) {
                r is Exit
            } else if t.len() == 0 {
                r is UseDefault
            } else {
                r matches PathPromptStep::Candidate(c) && c@ == normalize_path_spec(t)
            }
        }),
{
    let t = trim_str(input);
    if eq_ignore_case(t.as_str(), "e") || eq_ignore_case(t.as_str(), "exit") {
        PathPromptStep::Exit
    } else if t.as_str().unicode_len() == 0 {
        PathPromptStep::UseDefault
    } else {
        PathPromptStep::Candidate(normalize_path(t.as_str()))
    }
}

/// Where the run's output directories go, from the configured setting.
#[derive(Debug)]
pub enum OutputRootPlan {
    /// No (or a blank) setting: output goes beside the program.
    UseConfigDir,
    /// A configured root to check, with trailing separators stripped; the
    /// caller resolves it against the program's directory when relative and
    /// falls back to a prompt when it does not exist.
    Candidate(String),
}

/// Interpret the configured output-root setting.
pub fn output_root_plan(setting: Option<&str>) -> (r: OutputRootPlan)
    ensures
        ({
            let t = match setting {
                None => Seq::<char>::empty(),
                Some(s) => normalize_path_spec(trim_spec(s@)),
            };
            if t.len() == 0 {
                r is UseConfigDir
            } else {
                r matches OutputRootPlan::Candidate(c) && c@ == t
            }
        }),
{
    match setting {
        None => OutputRootPlan::UseConfigDir,
        Some(s) => {
            let t = trim_str(s);
            let norm = normalize_path(t.as_str());
            if norm.as_str().unicode_len() == 0 {
                OutputRootPlan::UseConfigDir
            } else {
                OutputRootPlan::Candidate(norm)
            }
        },
    }
}

} // verus!
