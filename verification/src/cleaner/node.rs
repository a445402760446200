//! The cleaner for Node.js projects.

use vstd::prelude::*;

use super::{Cleaner, OnFailure, Step, remove_step, strs_view};

verus! {

/// Cleans Node.js projects: purges `node_modules` and `.npm`.
pub struct NodeCleaner;

impl Cleaner for NodeCleaner {
    /// `Node.js`.
    fn name(&self) -> (r: &str)
        ensures
            r@ == "Node.js"@,
    {
        "Node.js"
    }

    /// Purges `node_modules`, then `.npm`; a failure of the first stops the
    /// clean.
    fn clean(&self, dir: &str) -> (r: Vec<Step>)
        ensures
            r@.len() == 2,
            r@[0].removes(dir@, "node_modules"@),
            r@[0].on_failure == OnFailure::Stop,
            r@[1].removes(dir@, ".npm"@),
            r@[1].on_failure == OnFailure::Stop,
    {
        let step_0 = remove_step(dir, "node_modules", OnFailure::Stop);
        let step_1 = remove_step(dir, ".npm", OnFailure::Stop);
        vec![step_0, step_1]
    }

    /// `package.json`, `yarn.json`, `.npm`.
    fn triggers(&self) -> (r: &[&str])
        ensures
            strs_view(r@) == seq!["package.json"@, "yarn.json"@, ".npm"@],
    {
        let r: &[&str] = &["package.json", "yarn.json", ".npm"];
        assert(r@ == seq!["package.json", "yarn.json", ".npm"]);
        r
    }
}

} // verus!
