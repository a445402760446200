//! The cleaner for rustup installations.

use vstd::prelude::*;

use super::{Cleaner, OnFailure, Step, remove_step, run_step, strs_view};

verus! {

/// Cleans rustup installations: purges `.rustup` and selects the stable
/// toolchain.
pub struct RustupCleaner;

impl Cleaner for RustupCleaner {
    /// `Rustup`.
    fn name(&self) -> (r: &str)
        ensures
            r@ == "Rustup"@,
    {
        "Rustup"
    }

    /// Purges `.rustup`, whatever comes of it, then runs `rustup default
    /// stable`.
    fn clean(&self, dir: &str) -> (r: Vec<Step>)
        ensures
            r@.len() == 2,
            r@[0].removes(dir@, ".rustup"@),
            r@[0].on_failure == OnFailure::Continue,
            r@[1].runs(dir@, "rustup"@, seq!["default"@, "stable"@]),
            r@[1].on_failure == OnFailure::Stop,
    {
        let step_0 = remove_step(dir, ".rustup", OnFailure::Continue);
        let args_1: &[&str] = &["default", "stable"];
        assert(args_1@ == seq!["default", "stable"]);
        assert(strs_view(args_1@) =~= seq!["default"@, "stable"@]);
        let step_1 = run_step(dir, "rustup", args_1, OnFailure::Stop);
        vec![step_0, step_1]
    }

    /// `.rustup`.
    fn triggers(&self) -> (r: &[&str])
        ensures
            strs_view(r@) == seq![".rustup"@],
    {
        let r: &[&str] = &[".rustup"];
        assert(r@ == seq![".rustup"]);
        r
    }
}

} // verus!
