//! The cleaner for Git repositories.

use vstd::prelude::*;

use super::{Cleaner, OnFailure, Step, run_step, strs_view};

verus! {

/// Cleans Git repositories: expires the reflog and collects garbage.
pub struct GitCleaner;

impl Cleaner for GitCleaner {
    /// `Git`.
    fn name(&self) -> (r: &str)
        ensures
            r@ == "Git"@,
    {
        "Git"
    }

    /// Expires every reflog entry now, then prunes aggressively; a failure of
    /// either command stops the clean.
    fn clean(&self, dir: &str) -> (r: Vec<Step>)
        ensures
            r@.len() == 2,
            r@[0].runs(dir@, "git"@, seq!["reflog"@, "expire"@, "--all"@, "--expire=now"@]),
            r@[0].on_failure == OnFailure::Stop,
            r@[1].runs(dir@, "git"@, seq!["gc"@, "--prune=now"@, "--aggressive"@]),
            r@[1].on_failure == OnFailure::Stop,
    {
        let args_0: &[&str] = &["reflog", "expire", "--all", "--expire=now"];
        assert(args_0@ == seq!["reflog", "expire", "--all", "--expire=now"]);
        assert(strs_view(args_0@) =~= seq!["reflog"@, "expire"@, "--all"@, "--expire=now"@]);
        let step_0 = run_step(dir, "git", args_0, OnFailure::Stop);
        let args_1: &[&str] = &["gc", "--prune=now", "--aggressive"];
        assert(args_1@ == seq!["gc", "--prune=now", "--aggressive"]);
        assert(strs_view(args_1@) =~= seq!["gc"@, "--prune=now"@, "--aggressive"@]);
        let step_1 = run_step(dir, "git", args_1, OnFailure::Stop);
        vec![step_0, step_1]
    }

    /// `.git` and `.libs`.
    fn triggers(&self) -> (r: &[&str])
        ensures
            strs_view(r@) == seq![".git"@, ".libs"@],
    {
        let r: &[&str] = &[".git", ".libs"];
        assert(r@ == seq![".git", ".libs"]);
        r
    }
}

} // verus!
