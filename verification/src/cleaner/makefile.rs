//! The cleaner for Make and CMake build trees.

use vstd::prelude::*;

use super::{Cleaner, OnFailure, Step, run_step, strs_view};

verus! {

/// Cleans Make and CMake build trees: runs `make clean` and removes the
/// build directories.
pub struct MakeFileCleaner;

impl Cleaner for MakeFileCleaner {
    /// `MakeFile`.
    fn name(&self) -> (r: &str)
        ensures
            r@ == "MakeFile"@,
    {
        "MakeFile"
    }

    /// Runs `make clean`, then `rm -rf` on `CmakeFiles`, `build`, `.deps`,
    /// `.libs` and `CmakeCache`; the first command that fails stops the clean.
    fn clean(&self, dir: &str) -> (r: Vec<Step>)
        ensures
            r@.len() == 6,
            r@[0].runs(dir@, "make"@, seq!["clean"@]),
            r@[0].on_failure == OnFailure::Stop,
            r@[1].runs(dir@, "rm"@, seq!["-rf"@, "CmakeFiles"@]),
            r@[1].on_failure == OnFailure::Stop,
            r@[2].runs(dir@, "rm"@, seq!["-rf"@, "build"@]),
            r@[2].on_failure == OnFailure::Stop,
            r@[3].runs(dir@, "rm"@, seq!["-rf"@, ".deps"@]),
            r@[3].on_failure == OnFailure::Stop,
            r@[4].runs(dir@, "rm"@, seq!["-rf"@, ".libs"@]),
            r@[4].on_failure == OnFailure::Stop,
            r@[5].runs(dir@, "rm"@, seq!["-rf"@, "CmakeCache"@]),
            r@[5].on_failure == OnFailure::Stop,
    {
        let args_0: &[&str] = &["clean"];
        assert(args_0@ == seq!["clean"]);
        assert(strs_view(args_0@) =~= seq!["clean"@]);
        let step_0 = run_step(dir, "make", args_0, OnFailure::Stop);
        let args_1: &[&str] = &["-rf", "CmakeFiles"];
        assert(args_1@ == seq!["-rf", "CmakeFiles"]);
        assert(strs_view(args_1@) =~= seq!["-rf"@, "CmakeFiles"@]);
        let step_1 = run_step(dir, "rm", args_1, OnFailure::Stop);
        let args_2: &[&str] = &["-rf", "build"];
        assert(args_2@ == seq!["-rf", "build"]);
        assert(strs_view(args_2@) =~= seq!["-rf"@, "build"@]);
        let step_2 = run_step(dir, "rm", args_2, OnFailure::Stop);
        let args_3: &[&str] = &["-rf", ".deps"];
        assert(args_3@ == seq!["-rf", ".deps"]);
        assert(strs_view(args_3@) =~= seq!["-rf"@, ".deps"@]);
        let step_3 = run_step(dir, "rm", args_3, OnFailure::Stop);
        let args_4: &[&str] = &["-rf", ".libs"];
        assert(args_4@ == seq!["-rf", ".libs"]);
        assert(strs_view(args_4@) =~= seq!["-rf"@, ".libs"@]);
        let step_4 = run_step(dir, "rm", args_4, OnFailure::Stop);
        let args_5: &[&str] = &["-rf", "CmakeCache"];
        assert(args_5@ == seq!["-rf", "CmakeCache"]);
        assert(strs_view(args_5@) =~= seq!["-rf"@, "CmakeCache"@]);
        let step_5 = run_step(dir, "rm", args_5, OnFailure::Stop);
        vec![step_0, step_1, step_2, step_3, step_4, step_5]
    }

    /// `Makefile`, `GNUmakefile`, `CMakeFiles`, `CMakeCache`, `.deps`, `.libs`.
    fn triggers(&self) -> (r: &[&str])
        ensures
            strs_view(r@) == seq!["Makefile"@, "GNUmakefile"@, "CMakeFiles"@, "CMakeCache"@, ".deps"@, ".libs"@],
    {
        let r: &[&str] = &["Makefile", "GNUmakefile", "CMakeFiles", "CMakeCache", ".deps", ".libs"];
        assert(r@ == seq!["Makefile", "GNUmakefile", "CMakeFiles", "CMakeCache", ".deps", ".libs"]);
        r
    }
}

} // verus!
