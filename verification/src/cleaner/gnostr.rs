//! The cleaner for gnostr artifacts.

use vstd::prelude::*;

use super::{Cleaner, OnFailure, Step, remove_step, run_step, strs_view};

verus! {

/// Cleans gnostr artifacts: runs `cargo clean` and purges `node_modules`.
pub struct GnostrCleaner;

impl Cleaner for GnostrCleaner {
    /// `Gnostr`.
    fn name(&self) -> (r: &str)
        ensures
            r@ == "Gnostr"@,
    {
        "Gnostr"
    }

    /// Runs `cargo clean`, then purges `node_modules`; a failure of `cargo
    /// clean` stops the clean.
    fn clean(&self, dir: &str) -> (r: Vec<Step>)
        ensures
            r@.len() == 2,
            r@[0].runs(dir@, "cargo"@, seq!["clean"@]),
            r@[0].on_failure == OnFailure::Stop,
            r@[1].removes(dir@, "node_modules"@),
            r@[1].on_failure == OnFailure::Stop,
    {
        let args_0: &[&str] = &["clean"];
        assert(args_0@ == seq!["clean"]);
        assert(strs_view(args_0@) =~= seq!["clean"@]);
        let step_0 = run_step(dir, "cargo", args_0, OnFailure::Stop);
        let step_1 = remove_step(dir, "node_modules", OnFailure::Stop);
        vec![step_0, step_1]
    }

    /// `.gnostr`.
    fn triggers(&self) -> (r: &[&str])
        ensures
            strs_view(r@) == seq![".gnostr"@],
    {
        let r: &[&str] = &[".gnostr"];
        assert(r@ == seq![".gnostr"]);
        r
    }
}

} // verus!
