//! The password retry state machine that drives repeated extraction
//! attempts.  A package's configured password is tried first and exactly
//! once; a password remembered from an earlier package in the run is offered
//! next; otherwise the operator is prompted.  A wrong password moves to the
//! retry prompt; a blank entry at a prompt skips the package; any other
//! extraction failure ends the attempt outright.  The remembered password is
//! updated only by a successful extraction that used a manually entered,
//! non-empty password.
use vstd::prelude::*;
use vstd::string::StrSliceExecFns;

use crate::extract::classify_spec;
use crate::extract::wrong_password_marker;
use crate::extract::ExtractOutcome;
use crate::text::contains_seq;
use crate::text::trim_spec;
use crate::text::trim_str;

verus! {

/// The states of the retry machine.
#[derive(PartialEq, Eq, Structural, Clone, Copy, Debug)]
pub enum PwState {
    /// The package declares a non-empty password and no retry has occurred:
    /// attempt with it, without a prompt.
    UseConfigured,
    /// No configured password, but an earlier package in this run succeeded
    /// with a manual password: prompt, offering to reuse it on a blank entry.
    UsePrevious,
    /// Neither a configured nor a remembered password: prompt; a blank entry
    /// skips the package.
    PromptFirst,
    /// A prior attempt for this package failed with a wrong password:
    /// prompt; a blank entry skips the package.
    PromptRetry,
    /// Terminal: the operator declined to enter a password.
    Skipped,
    /// Terminal: an attempt extracted successfully.
    Succeeded,
    /// Terminal: an attempt failed for a reason other than a wrong password.
    Failed,
}

/// The machine's abstract state: the control state, the package's configured
/// password, the run-scoped remembered password, and the password chosen for
/// the pending attempt (with whether it was manually entered and whether an
/// attempt is armed).
pub ghost struct PwModel {
    pub state: PwState,
    pub configured: Seq<char>,
    pub last_password: Seq<char>,
    pub current: Seq<char>,
    pub current_manual: bool,
    pub armed: bool,
}

/// A state where no further prompting or attempting happens.
pub open spec fn pw_terminal(s: PwState) -> bool {
    s == PwState::Skipped || s == PwState::Succeeded || s == PwState::Failed
}

/// The machine's invariant.  A machine in `UseConfigured` is armed with
/// exactly the configured password; `UsePrevious` holds a non-empty
/// remembered password to offer; a manually entered password is never empty;
/// terminal states arm no attempt.
pub open spec fn pw_wf(m: PwModel) -> bool {
    &&& (m.state == PwState::UseConfigured ==> m.armed && m.current == m.configured
        && m.configured.len() > 0 && !m.current_manual)
    &&& (m.state == PwState::UsePrevious ==> m.last_password.len() > 0)
    &&& (m.current_manual ==> m.current.len() > 0)
    &&& (pw_terminal(m.state) ==> !m.armed)
}

/// The machine's initial state for a package: the configured password when
/// there is one, else the remembered password when there is one, else a
/// first prompt.
pub open spec fn pw_start_spec(configured: Seq<char>, last_password: Seq<char>) -> PwModel {
    if configured.len() > 0 {
        PwModel {
            state: PwState::UseConfigured,
            configured: configured,
            last_password: last_password,
            current: configured,
            current_manual: false,
            armed: true,
        }
    } else if last_password.len() > 0 {
        PwModel {
            state: PwState::UsePrevious,
            configured: configured,
            last_password: last_password,
            current: Seq::empty(),
            current_manual: false,
            armed: false,
        }
    } else {
        PwModel {
            state: PwState::PromptFirst,
            configured: configured,
            last_password: last_password,
            current: Seq::empty(),
            current_manual: false,
            armed: false,
        }
    }
}

/// What the operator's entry does in a prompting state.  A blank entry at
/// `PromptFirst` or `PromptRetry` skips the package without an attempt; a
/// blank entry at `UsePrevious` arms the remembered password; any non-blank
/// entry arms that entry as a manual password.  Entries are trimmed first.
pub open spec fn pw_enter_spec(m: PwModel, line: Seq<char>) -> PwModel {
    let t = trim_spec(line);
    if m.state == PwState::UsePrevious {
        if t.len() == 0 {
            PwModel { current: m.last_password, current_manual: false, armed: true, ..m }
        } else {
            PwModel { current: t, current_manual: true, armed: true, ..m }
        }
    } else if m.state == PwState::PromptFirst || m.state == PwState::PromptRetry {
        if t.len() == 0 {
            PwModel { state: PwState::Skipped, armed: false, ..m }
        } else {
            PwModel { current: t, current_manual: true, armed: true, ..m }
        }
    } else {
        m
    }
}

/// What an attempt's outcome does.  Success is terminal and records the
/// attempt's password as the remembered one exactly when it was manually
/// entered and non-empty.  A wrong password moves to the retry prompt, and
/// clears the remembered password when it was the configured password that
/// failed — a configured password is single-shot.  Any other failure is
/// terminal.
pub open spec fn pw_observe_spec(m: PwModel, outcome: ExtractOutcome) -> PwModel {
    match outcome {
        ExtractOutcome::Success => PwModel {
            state: PwState::Succeeded,
            armed: false,
            last_password: if m.current_manual && m.current.len() > 0 {
                m.current
            } else {
                m.last_password
            },
            ..m
        },
        ExtractOutcome::WrongPassword => {
            if m.state == PwState::UseConfigured {
                PwModel {
                    state: PwState::PromptRetry,
                    armed: false,
                    last_password: Seq::empty(),
                    ..m
                }
            } else {
                PwModel { state: PwState::PromptRetry, armed: false, ..m }
            }
        },
        ExtractOutcome::Failed => PwModel { state: PwState::Failed, armed: false, ..m },
    }
}

/// The retry machine as driven for one package.  `state`, `armed` and
/// `current` are read by the caller: while no terminal state is reached, an
/// unarmed machine asks for an operator entry and an armed machine asks for
/// one extraction attempt with `current` as the password.
pub struct RetryMachine {
    pub state: PwState,
    pub configured: String,
    pub last_password: String,
    pub current: String,
    pub current_manual: bool,
    pub armed: bool,
}

impl RetryMachine {
    /// The abstract state.
    pub open spec fn model(self) -> PwModel {
        PwModel {
            state: self.state,
            configured: self.configured@,
            last_password: self.last_password@,
            current: self.current@,
            current_manual: self.current_manual,
            armed: self.armed,
        }
    }

    /// Start the machine for a package with the given configured password,
    /// remembering `last_password` from earlier packages of this run.
    pub fn start(configured: &str, last_password: &str) -> (m: RetryMachine)
        ensures
            m.model() == pw_start_spec(configured@, last_password@),
            pw_wf(m.model()),
    {
        if configured.unicode_len() > 0 {
            RetryMachine {
                state: PwState::UseConfigured,
                configured: configured.to_owned(),
                last_password: last_password.to_owned(),
                current: configured.to_owned(),
                current_manual: false,
                armed: true,
            }
        } else if last_password.unicode_len() > 0 {
            RetryMachine {
                state: PwState::UsePrevious,
                configured: configured.to_owned(),
                last_password: last_password.to_owned(),
                current: String::new(),
                current_manual: false,
                armed: false,
            }
        } else {
            RetryMachine {
                state: PwState::PromptFirst,
                configured: configured.to_owned(),
                last_password: last_password.to_owned(),
                current: String::new(),
                current_manual: false,
                armed: false,
            }
        }
    }

    /// Feed the operator's entry to a prompting, unarmed machine.
    pub fn enter(&mut self, line: &str)
        requires
            pw_wf(old(self).model()),
            old(self).state == PwState::UsePrevious || old(self).state == PwState::PromptFirst
                || old(self).state == PwState::PromptRetry,
            !old(self).armed,
        ensures
            final(self).model() == pw_enter_spec(old(self).model(), line@),
            pw_wf(final(self).model()),
    {
        let t = trim_str(line);
        if self.state == PwState::UsePrevious {
            if t.as_str().unicode_len() == 0 {
                self.current = self.last_password.clone();
                self.current_manual = false;
            } else {
                self.current = t;
                self.current_manual = true;
            }
            self.armed = true;
        } else {
            if t.as_str().unicode_len() == 0 {
                self.state = PwState::Skipped;
            } else {
                self.current = t;
                self.current_manual = true;
                self.armed = true;
            }
        }
    }

    /// Feed an attempt's outcome to an armed machine.
    pub fn observe(&mut self, outcome: ExtractOutcome)
        requires
            pw_wf(old(self).model()),
            old(self).armed,
        ensures
            final(self).model() == pw_observe_spec(old(self).model(), outcome),
            pw_wf(final(self).model()),
    {
        match outcome {
            ExtractOutcome::Success => {
                if self.current_manual && self.current.as_str().unicode_len() > 0 {
                    self.last_password = self.current.clone();
                }
                self.state = PwState::Succeeded;
                self.armed = false;
            },
            ExtractOutcome::WrongPassword => {
                if self.state == PwState::UseConfigured {
                    self.last_password = String::new();
                }
                self.state = PwState::PromptRetry;
                self.armed = false;
            },
            ExtractOutcome::Failed => {
                self.state = PwState::Failed;
                self.armed = false;
            },
        }
    }
}

/// A failed invocation whose diagnostic stream holds the wrong-password
/// marker classifies as a wrong password — not as a plain failure — and
/// moves the machine to the retry prompt, a prompting state, rather than
/// ending the package.
pub proof fn lemma_wrong_password_prompts(m: PwModel, diagnostic: Seq<char>)
    requires
        pw_wf(m),
        m.armed,
        contains_seq(diagnostic, wrong_password_marker()),
    ensures
        classify_spec(false, diagnostic) == ExtractOutcome::WrongPassword,
        ({
            let m1 = pw_observe_spec(m, classify_spec(false, diagnostic));
            &&& m1.state == PwState::PromptRetry
            &&& !pw_terminal(m1.state)
            &&& !m1.armed
        }),
{
}

/// A configured password is single-shot.  Once it fails, the remembered
/// password is cleared and the machine prompts: the next attempt carries
/// exactly what the operator then enters — never the configured password
/// unseen — and a blank entry skips the package instead.
pub proof fn lemma_configured_single_shot(m: PwModel, line: Seq<char>)
    requires
        pw_wf(m),
        m.state == PwState::UseConfigured,
    ensures
        ({
            let m1 = pw_observe_spec(m, ExtractOutcome::WrongPassword);
            &&& m1.state == PwState::PromptRetry
            &&& m1.last_password.len() == 0
            &&& (trim_spec(line).len() > 0 ==> {
                let m2 = pw_enter_spec(m1, line);
                m2.armed && m2.current == trim_spec(line) && m2.current_manual
            })
            &&& (trim_spec(line).len() == 0 ==> pw_enter_spec(m1, line).state == PwState::Skipped)
        }),
{
}

/// A blank entry at a retry (or first) prompt skips the package: the
/// machine reaches the terminal `Skipped` state with no attempt armed.
pub proof fn lemma_blank_entry_skips(m: PwModel, line: Seq<char>)
    requires
        pw_wf(m),
        m.state == PwState::PromptFirst || m.state == PwState::PromptRetry,
        trim_spec(line).len() == 0,
    ensures
        pw_enter_spec(m, line).state == PwState::Skipped,
        pw_terminal(pw_enter_spec(m, line).state),
        !pw_enter_spec(m, line).armed,
{
}

} // verus!
