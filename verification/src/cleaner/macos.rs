//! The cleaner for macOS folder metadata.

use vstd::prelude::*;

use super::{Cleaner, OnFailure, Step, remove_step, strs_view};

verus! {

/// Cleans macOS folder metadata: purges `.DS_Store`.
pub struct MacosCleaner;

impl Cleaner for MacosCleaner {
    /// `Macos`.
    fn name(&self) -> (r: &str)
        ensures
            r@ == "Macos"@,
    {
        "Macos"
    }

    /// Purges `.DS_Store`.
    fn clean(&self, dir: &str) -> (r: Vec<Step>)
        ensures
            r@.len() == 1,
            r@[0].removes(dir@, ".DS_Store"@),
            r@[0].on_failure == OnFailure::Stop,
    {
        let step_0 = remove_step(dir, ".DS_Store", OnFailure::Stop);
        vec![step_0]
    }

    /// `.DS_Store`.
    fn triggers(&self) -> (r: &[&str])
        ensures
            strs_view(r@) == seq![".DS_Store"@],
    {
        let r: &[&str] = &[".DS_Store"];
        assert(r@ == seq![".DS_Store"]);
        r
    }
}

} // verus!
