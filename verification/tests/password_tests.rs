use warpbits_loader::extract::classify_extraction;
use warpbits_loader::extract::ExtractOutcome;
use warpbits_loader::password::PwState;
use warpbits_loader::password::RetryMachine;

#[test]
fn wrong_password_marker_classifies_as_wrong_password() {
    let r = classify_extraction(false, "ERROR: pkg.archive.001\nWrong password? : data.bin");
    assert_eq!(r, ExtractOutcome::WrongPassword);
}

#[test]
fn other_diagnostics_classify_as_plain_failure() {
    let r = classify_extraction(false, "ERROR: damaged archive");
    assert_eq!(r, ExtractOutcome::Failed);
}

#[test]
fn successful_exit_classifies_as_success() {
    assert_eq!(classify_extraction(true, ""), ExtractOutcome::Success);
}

#[test]
fn wrong_password_moves_to_retry_prompt_not_abort() {
    let mut m = RetryMachine::start("secret", "");
    assert_eq!(m.state, PwState::UseConfigured);
    let outcome = classify_extraction(false, "Wrong password?");
    assert_eq!(outcome, ExtractOutcome::WrongPassword);
    m.observe(outcome);
    assert_eq!(m.state, PwState::PromptRetry);
    assert!(!m.armed);
}

#[test]
fn configured_password_is_single_shot() {
    let mut m = RetryMachine::start("secret", "remembered");
    assert_eq!(m.state, PwState::UseConfigured);
    assert_eq!(m.current, "secret");
    m.observe(ExtractOutcome::WrongPassword);
    // The remembered password is cleared and the next attempt takes only
    // what the operator enters.
    assert_eq!(m.state, PwState::PromptRetry);
    assert_eq!(m.last_password, "");
    assert!(!m.armed);
    m.enter("typed-by-hand");
    assert!(m.armed);
    assert_eq!(m.current, "typed-by-hand");
}

#[test]
fn blank_entry_on_retry_prompt_skips_package() {
    let mut m = RetryMachine::start("secret", "");
    m.observe(ExtractOutcome::WrongPassword);
    m.enter("   \n");
    assert_eq!(m.state, PwState::Skipped);
    assert!(!m.armed);
}

#[test]
fn blank_entry_on_first_prompt_skips_package() {
    let mut m = RetryMachine::start("", "");
    assert_eq!(m.state, PwState::PromptFirst);
    m.enter("");
    assert_eq!(m.state, PwState::Skipped);
}

#[test]
fn previous_password_is_offered_and_reused_on_blank_entry() {
    let mut m = RetryMachine::start("", "earlier-pw");
    assert_eq!(m.state, PwState::UsePrevious);
    m.enter("");
    assert!(m.armed);
    assert_eq!(m.current, "earlier-pw");
}

#[test]
fn previous_password_is_replaced_by_non_blank_entry() {
    let mut m = RetryMachine::start("", "earlier-pw");
    m.enter("fresh-pw");
    assert!(m.armed);
    assert_eq!(m.current, "fresh-pw");
}

#[test]
fn manual_success_records_last_password() {
    let mut m = RetryMachine::start("", "");
    m.enter("typed");
    m.observe(ExtractOutcome::Success);
    assert_eq!(m.state, PwState::Succeeded);
    assert_eq!(m.last_password, "typed");
}

#[test]
fn configured_success_does_not_record_last_password() {
    let mut m = RetryMachine::start("secret", "");
    m.observe(ExtractOutcome::Success);
    assert_eq!(m.state, PwState::Succeeded);
    assert_eq!(m.last_password, "");
}

#[test]
fn plain_failure_ends_attempts() {
    let mut m = RetryMachine::start("secret", "");
    m.observe(ExtractOutcome::Failed);
    assert_eq!(m.state, PwState::Failed);
    assert!(!m.armed);
}

#[test]
fn prompt_entries_are_trimmed() {
    let mut m = RetryMachine::start("", "");
    m.enter("  spaced  \n");
    assert_eq!(m.current, "spaced");
}
