use warpbits_loader::extract::extraction_args;
use warpbits_loader::extract::plan_volume_groups;
use warpbits_loader::packages::get_package_version_string;
use warpbits_loader::packages::sort_packages;
use warpbits_loader::packages::Package;
use warpbits_loader::prompts::answer_is_yes;
use warpbits_loader::prompts::output_root_plan;
use warpbits_loader::prompts::parse_selection;
use warpbits_loader::prompts::path_prompt_step;
use warpbits_loader::prompts::wants_continue;
use warpbits_loader::prompts::wants_restart;
use warpbits_loader::prompts::OutputRootPlan;
use warpbits_loader::prompts::PathPromptStep;
use warpbits_loader::prompts::Selection;
use warpbits_loader::reconcile::reconcile_choice;
use warpbits_loader::reconcile::reconcile_plan;
use warpbits_loader::reconcile::DirChoice;
use warpbits_loader::reconcile::ReconcilePlan;
use warpbits_loader::text::normalize_path;

fn pkg(name: &str, is_root: bool) -> Package {
    Package {
        id: String::from(name),
        name: String::from(name),
        description: String::new(),
        version_url: String::new(),
        filelist_url: String::new(),
        repo_url: String::new(),
        output_path: String::new(),
        password: String::new(),
        is_root,
    }
}

#[test]
fn packages_sort_roots_first_then_by_name() {
    let v = vec![pkg("zeta", false), pkg("beta", true), pkg("alpha", false), pkg("mu", true)];
    let sorted = sort_packages(v);
    let names: Vec<&str> = sorted.iter().map(|p| p.name.as_str()).collect();
    assert_eq!(names, vec!["beta", "mu", "alpha", "zeta"]);
}

#[test]
fn package_sort_keeps_every_package() {
    let v = vec![pkg("b", false), pkg("a", false), pkg("a", false)];
    let sorted = sort_packages(v);
    let names: Vec<&str> = sorted.iter().map(|p| p.name.as_str()).collect();
    assert_eq!(names, vec!["a", "a", "b"]);
}

#[test]
fn version_report_line() {
    let p = pkg("tools", false);
    assert_eq!(get_package_version_string(&p, "2024-01-15--3"), "tools: 2024-01-15--3");
}

#[test]
fn selection_number_picks_package() {
    assert_eq!(parse_selection("1", 3), Selection::Choice(0));
    assert_eq!(parse_selection("3", 3), Selection::Choice(2));
}

#[test]
fn selection_tolerates_trailing_dot_part() {
    assert_eq!(parse_selection("1.", 3), Selection::Choice(0));
    assert_eq!(parse_selection("1.0", 3), Selection::Choice(0));
}

#[test]
fn selection_letters_exit_or_select_all() {
    assert_eq!(parse_selection("e", 3), Selection::Exit);
    assert_eq!(parse_selection("EXIT", 3), Selection::Exit);
    assert_eq!(parse_selection("a", 3), Selection::All);
    assert_eq!(parse_selection("All", 3), Selection::All);
}

#[test]
fn selection_out_of_range_is_invalid() {
    assert_eq!(parse_selection("0", 3), Selection::Invalid);
    assert_eq!(parse_selection("4", 3), Selection::Invalid);
    assert_eq!(parse_selection("x", 3), Selection::Invalid);
    assert_eq!(parse_selection("", 3), Selection::Invalid);
}

#[test]
fn yes_answers_ignore_case_and_blanks() {
    assert!(answer_is_yes(" Y \n"));
    assert!(answer_is_yes("y"));
    assert!(!answer_is_yes("n"));
    assert!(!answer_is_yes(""));
    assert!(!answer_is_yes("yes"));
}

#[test]
fn continue_answers() {
    assert!(wants_continue("c"));
    assert!(wants_continue(" C\n"));
    assert!(!wants_continue("q"));
    assert!(!wants_continue(""));
}

#[test]
fn restart_answers() {
    assert!(wants_restart("start"));
    assert!(wants_restart(" START \n"));
    assert!(!wants_restart(""));
    assert!(!wants_restart("stop"));
}

#[test]
fn normalize_path_strips_trailing_separators() {
    assert_eq!(normalize_path("a/b/"), "a/b");
    assert_eq!(normalize_path("c:\\x\\\\"), "c:\\x");
    assert_eq!(normalize_path("abc"), "abc");
    assert_eq!(normalize_path("///"), "");
}

#[test]
fn path_prompt_interprets_entries() {
    assert!(matches!(path_prompt_step("e"), PathPromptStep::Exit));
    assert!(matches!(path_prompt_step(" exit "), PathPromptStep::Exit));
    assert!(matches!(path_prompt_step("   "), PathPromptStep::UseDefault));
    match path_prompt_step(" /data/out/ ") {
        PathPromptStep::Candidate(c) => assert_eq!(c, "/data/out"),
        other => panic!("unexpected step: {:?}", other),
    }
}

#[test]
fn output_root_plan_interprets_setting() {
    assert!(matches!(output_root_plan(None), OutputRootPlan::UseConfigDir));
    assert!(matches!(output_root_plan(Some("  ")), OutputRootPlan::UseConfigDir));
    assert!(matches!(output_root_plan(Some(" / ")), OutputRootPlan::UseConfigDir));
    match output_root_plan(Some(" out/ ")) {
        OutputRootPlan::Candidate(c) => assert_eq!(c, "out"),
        other => panic!("unexpected plan: {:?}", other),
    }
}

#[test]
fn reconcile_plans() {
    assert_eq!(reconcile_plan(false, false), ReconcilePlan::Create);
    assert_eq!(reconcile_plan(false, true), ReconcilePlan::Create);
    assert_eq!(reconcile_plan(true, true), ReconcilePlan::Overwrite);
    assert_eq!(reconcile_plan(true, false), ReconcilePlan::AskChoice);
}

#[test]
fn reconcile_choice_defaults_to_overwrite() {
    assert_eq!(reconcile_choice("d"), DirChoice::Delete);
    assert_eq!(reconcile_choice(" D \n"), DirChoice::Delete);
    assert_eq!(reconcile_choice(""), DirChoice::Overwrite);
    assert_eq!(reconcile_choice("o"), DirChoice::Overwrite);
    assert_eq!(reconcile_choice("x"), DirChoice::Overwrite);
}

#[test]
fn volume_groups_come_from_first_volumes_in_order() {
    let files = vec![
        String::from("beta.archive.002"),
        String::from("alpha.archive.001"),
        String::from("notes.txt"),
        String::from("beta.archive.001"),
    ];
    let groups = plan_volume_groups(&files);
    assert_eq!(groups.len(), 2);
    assert_eq!(groups[0].first_volume, "alpha.archive.001");
    assert_eq!(groups[0].base, "alpha");
    assert_eq!(groups[1].first_volume, "beta.archive.001");
    assert_eq!(groups[1].base, "beta");
}

#[test]
fn extraction_args_without_password() {
    let args = extraction_args("a.archive.001", "/tmp/scratch", "");
    assert_eq!(args, vec!["x", "-y", "a.archive.001", "-o/tmp/scratch"]);
}

#[test]
fn extraction_args_with_password() {
    let args = extraction_args("a.archive.001", "/tmp/scratch", "pw");
    assert_eq!(args, vec!["x", "-y", "a.archive.001", "-o/tmp/scratch", "-ppw"]);
}
