use gnostr_cleaner::cleaner::{
    after_step, invocation_for, program_candidates, purge_path, purge_step, start, Cleaner, GitCleaner, MacosCleaner,
    Progress, PurgeStep, RemovalOutcome, RemovalStage, RustupCleaner,
};

#[test]
fn empty_plan_has_succeeded_at_once() {
    assert_eq!(start(&Vec::new()), Progress::Finished(true));
}

#[test]
fn all_steps_run_when_nothing_fails() {
    let plan = GitCleaner.clean("r");
    assert_eq!(start(&plan), Progress::Next(0));
    assert_eq!(after_step(&plan, 0, true), Progress::Next(1));
    assert_eq!(after_step(&plan, 1, true), Progress::Finished(true));
}

#[test]
fn stopping_failure_ends_the_clean() {
    let plan = GitCleaner.clean("r");
    assert_eq!(after_step(&plan, 0, false), Progress::Finished(false));
    assert_eq!(after_step(&plan, 1, false), Progress::Finished(false));
    let single = MacosCleaner.clean("d");
    assert_eq!(after_step(&single, 0, false), Progress::Finished(false));
}

#[test]
fn ignored_failure_lets_the_clean_go_on() {
    let plan = RustupCleaner.clean("h");
    assert_eq!(after_step(&plan, 0, false), Progress::Next(1));
    assert_eq!(after_step(&plan, 1, true), Progress::Finished(true));
    assert_eq!(after_step(&plan, 1, false), Progress::Finished(false));
}

#[test]
fn purge_never_fails() {
    assert_eq!(purge_step(RemovalStage::Directory, RemovalOutcome::Removed), PurgeStep::Done);
    assert_eq!(purge_step(RemovalStage::Directory, RemovalOutcome::NotFound), PurgeStep::Done);
    assert_eq!(purge_step(RemovalStage::Directory, RemovalOutcome::PermissionDenied), PurgeStep::Done);
    assert_eq!(purge_step(RemovalStage::Directory, RemovalOutcome::Other), PurgeStep::RemoveFile);
    assert_eq!(purge_step(RemovalStage::Directory, RemovalOutcome::Failed), PurgeStep::ReportAndDone);
    assert_eq!(purge_step(RemovalStage::File, RemovalOutcome::Removed), PurgeStep::Done);
    assert_eq!(purge_step(RemovalStage::File, RemovalOutcome::NotFound), PurgeStep::Done);
    assert_eq!(purge_step(RemovalStage::File, RemovalOutcome::PermissionDenied), PurgeStep::Done);
    assert_eq!(purge_step(RemovalStage::File, RemovalOutcome::Other), PurgeStep::Done);
    assert_eq!(purge_step(RemovalStage::File, RemovalOutcome::Failed), PurgeStep::ReportAndDone);
    assert_eq!(purge_step(RemovalStage::Directory, RemovalOutcome::NotADirectory), PurgeStep::RemoveFile);
    assert_eq!(purge_step(RemovalStage::File, RemovalOutcome::NotADirectory), PurgeStep::ReportAndDone);
}

#[test]
fn purge_path_joins_with_a_slash() {
    assert_eq!(purge_path("/home/me", ".rustup"), "/home/me/.rustup");
    assert_eq!(purge_path("", "x"), "/x");
}

#[test]
fn missing_program_falls_back_to_ls() {
    let inv = invocation_for(false, "git", &["gc"]);
    assert_eq!(inv.program, "ls");
    assert!(inv.args.is_empty());
    assert_eq!(inv.label, "ls");
    let inv = invocation_for(true, "git", &["gc", "--aggressive"]);
    assert_eq!(inv.program, "git");
    assert_eq!(inv.args, vec!["gc".to_string(), "--aggressive".to_string()]);
    assert_eq!(inv.label, "Cmd");
}

#[test]
fn candidates_follow_the_search_path() {
    assert_eq!(program_candidates("/usr/bin:/bin", "git"), vec!["/usr/bin/git".to_string(), "/bin/git".to_string()]);
    assert_eq!(program_candidates("", "ls"), vec!["/ls".to_string()]);
    assert_eq!(program_candidates("a::b:", "x"), vec!["a/x".to_string(), "/x".to_string(), "b/x".to_string(), "/x".to_string()]);
    assert_eq!(program_candidates("/ü/bin", "x"), vec!["/ü/bin/x".to_string()]);
}

#[test]
fn extending_the_search_path_keeps_earlier_candidates() {
    let short = program_candidates("/usr/bin:/bin", "git");
    let long = program_candidates("/usr/bin:/bin:/opt/bin", "git");
    assert_eq!(&long[..short.len()], &short[..]);
    assert_eq!(long.len(), short.len() + 1);
}
