use gnostr_cleaner::cleaner::{
    Action, Cleaner, GitCleaner, GnostrCleaner, MacosCleaner, MakeFileCleaner, NodeCleaner, OnFailure, RustupCleaner, Step,
};

fn runs(step: &Step, dir: &str, program: &str, args: &[&str], on_failure: OnFailure) {
    match &step.action {
        Action::Run { dir: d, program: p, args: a } => {
            assert_eq!(d, dir);
            assert_eq!(p, program);
            assert_eq!(a, &args.iter().map(|s| s.to_string()).collect::<Vec<_>>());
        }
        Action::Remove { .. } => panic!("expected a command"),
    }
    assert_eq!(step.on_failure, on_failure);
}

fn removes(step: &Step, parent: &str, child: &str, on_failure: OnFailure) {
    match &step.action {
        Action::Remove { parent: p, child: c } => {
            assert_eq!(p, parent);
            assert_eq!(c, child);
        }
        Action::Run { .. } => panic!("expected a removal"),
    }
    assert_eq!(step.on_failure, on_failure);
}

#[test]
fn git_cleaner() {
    let c = GitCleaner;
    assert_eq!(c.name(), "Git");
    assert_eq!(c.triggers(), &[".git", ".libs"]);
    let plan = c.clean("/repo");
    assert_eq!(plan.len(), 2);
    runs(&plan[0], "/repo", "git", &["reflog", "expire", "--all", "--expire=now"], OnFailure::Stop);
    runs(&plan[1], "/repo", "git", &["gc", "--prune=now", "--aggressive"], OnFailure::Stop);
}

#[test]
fn gnostr_cleaner() {
    let c = GnostrCleaner;
    assert_eq!(c.name(), "Gnostr");
    assert_eq!(c.triggers(), &[".gnostr"]);
    let plan = c.clean("p");
    assert_eq!(plan.len(), 2);
    runs(&plan[0], "p", "cargo", &["clean"], OnFailure::Stop);
    removes(&plan[1], "p", "node_modules", OnFailure::Stop);
}

#[test]
fn macos_cleaner() {
    let c = MacosCleaner;
    assert_eq!(c.name(), "Macos");
    assert_eq!(c.triggers(), &[".DS_Store"]);
    let plan = c.clean("d");
    assert_eq!(plan.len(), 1);
    removes(&plan[0], "d", ".DS_Store", OnFailure::Stop);
}

#[test]
fn makefile_cleaner() {
    let c = MakeFileCleaner;
    assert_eq!(c.name(), "MakeFile");
    assert_eq!(c.triggers(), &["Makefile", "GNUmakefile", "CMakeFiles", "CMakeCache", ".deps", ".libs"]);
    let plan = c.clean("b");
    assert_eq!(plan.len(), 6);
    runs(&plan[0], "b", "make", &["clean"], OnFailure::Stop);
    runs(&plan[1], "b", "rm", &["-rf", "CmakeFiles"], OnFailure::Stop);
    runs(&plan[2], "b", "rm", &["-rf", "build"], OnFailure::Stop);
    runs(&plan[3], "b", "rm", &["-rf", ".deps"], OnFailure::Stop);
    runs(&plan[4], "b", "rm", &["-rf", ".libs"], OnFailure::Stop);
    runs(&plan[5], "b", "rm", &["-rf", "CmakeCache"], OnFailure::Stop);
}

#[test]
fn node_cleaner() {
    let c = NodeCleaner;
    assert_eq!(c.name(), "Node.js");
    assert_eq!(c.triggers(), &["package.json", "yarn.json", ".npm"]);
    let plan = c.clean("web");
    assert_eq!(plan.len(), 2);
    removes(&plan[0], "web", "node_modules", OnFailure::Stop);
    removes(&plan[1], "web", ".npm", OnFailure::Stop);
}

#[test]
fn rustup_cleaner() {
    let c = RustupCleaner;
    assert_eq!(c.name(), "Rustup");
    assert_eq!(c.triggers(), &[".rustup"]);
    let plan = c.clean("home");
    assert_eq!(plan.len(), 2);
    removes(&plan[0], "home", ".rustup", OnFailure::Continue);
    runs(&plan[1], "home", "rustup", &["default", "stable"], OnFailure::Stop);
}

#[test]
fn cleaners_work_through_the_trait() {
    let all: Vec<Box<dyn Cleaner>> = vec![
        Box::new(GitCleaner),
        Box::new(GnostrCleaner),
        Box::new(MacosCleaner),
        Box::new(MakeFileCleaner),
        Box::new(NodeCleaner),
        Box::new(RustupCleaner),
    ];
    let names: Vec<&str> = all.iter().map(|c| c.name()).collect();
    assert_eq!(names, vec!["Git", "Gnostr", "Macos", "MakeFile", "Node.js", "Rustup"]);
    for c in &all {
        assert!(!c.triggers().is_empty());
        assert!(!c.clean("x").is_empty());
    }
}
