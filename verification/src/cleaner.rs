//! Cleaners: each recognises one kind of project by the names found in a
//! directory and says which commands and deletions tidy it up. The steps are
//! run by the caller, which reports each step's success back to
//! [`after_step`] to learn what comes next.

mod git;
mod gnostr;
mod macos;
mod makefile;
mod node;
mod rustup;

pub use git::GitCleaner;
pub use gnostr::GnostrCleaner;
pub use macos::MacosCleaner;
pub use makefile::MakeFileCleaner;
pub use node::NodeCleaner;
pub use rustup::RustupCleaner;

use vstd::prelude::*;

use crate::text::{join_path, push_char, strings_view};

verus! {

/// What a failure of a step does to the clean as a whole.
#[derive(Debug, Clone, Copy, PartialEq, Eq, Structural)]
pub enum OnFailure {
    /// The clean stops and fails with this step's error.
    Stop,
    /// The failure is ignored and the next step runs.
    Continue,
}

/// One thing a cleaner does.
#[derive(Debug)]
pub enum Action {
    /// Run `program` with `args` in the directory `dir`.
    Run { dir: String, program: String, args: Vec<String> },
    /// Purge `parent/child` from disk, as `rm -rf` would.
    Remove { parent: String, child: String },
}

/// One step of a clean: an action and what its failure means.
#[derive(Debug)]
pub struct Step {
    pub action: Action,
    pub on_failure: OnFailure,
}

/// The text of each string slice.
pub open spec fn strs_view(v: Seq<&str>) -> Seq<Seq<char>> {
    v.map_values(|s: &str| s@)
}

impl Step {
    /// The step runs `program` with `args` in `dir`.
    pub open spec fn runs(&self, dir: Seq<char>, program: Seq<char>, args: Seq<Seq<char>>) -> bool {
        &&& self.action matches Action::Run { dir: d, program: p, args: a }
        &&& d@ == dir
        &&& p@ == program
        &&& strings_view(a@) == args
    }

    /// The step purges `parent/child`.
    pub open spec fn removes(&self, parent: Seq<char>, child: Seq<char>) -> bool {
        &&& self.action matches Action::Remove { parent: p, child: c }
        &&& p@ == parent
        &&& c@ == child
    }
}

/// Owned copies of string slices, in order.
pub fn owned_strings(args: &[&str]) -> (r: Vec<String>)
    ensures
        strings_view(r@) == strs_view(args@),
{
    let mut owned: Vec<String> = Vec::new();
    let mut i: usize = 0;
    while i < args.len()
        invariant
            i <= args@.len(),
            strings_view(owned@) == strs_view(args@.take(i as int)),
        decreases args@.len() - i,
    {
        let ghost before = owned@;
        let arg: &str = args[i];
        let s = String::from_str(arg);
        owned.push(s);
        proof {
            assert(owned@ == before.push(s));
            assert(strings_view(owned@) =~= strings_view(before).push(s@));
            assert(strs_view(args@.take(i + 1)) =~= strs_view(args@.take(i as int)).push(args@[i as int]@));
        }
        i = i + 1;
    }
    assert(args@.take(i as int) =~= args@);
    owned
}

/// A step that runs `program` with `args` in `dir`.
pub fn run_step(dir: &str, program: &str, args: &[&str], on_failure: OnFailure) -> (r: Step)
    ensures
        r.runs(dir@, program@, strs_view(args@)),
        r.on_failure == on_failure,
{
    Step {
        action: Action::Run {
            dir: String::from_str(dir),
            program: String::from_str(program),
            args: owned_strings(args),
        },
        on_failure,
    }
}

/// A step that purges `parent/child`.
pub fn remove_step(parent: &str, child: &str, on_failure: OnFailure) -> (r: Step)
    ensures
        r.removes(parent@, child@),
        r.on_failure == on_failure,
{
    Step {
        action: Action::Remove { parent: String::from_str(parent), child: String::from_str(child) },
        on_failure,
    }
}

/// Where a clean stands after a step: the step to run next, or the end with
/// whether the clean succeeded.
#[derive(Debug, Clone, Copy, PartialEq, Eq, Structural)]
pub enum Progress {
    Next(usize),
    Finished(bool),
}

/// Where a clean of `plan` stands after step `index` ran and succeeded or
/// failed: a failure of a step that stops the clean ends it in failure; else
/// the next step runs, and after the last one the clean has succeeded.
pub open spec fn next_progress(plan: Seq<Step>, index: int, succeeded: bool) -> Progress {
    if !succeeded && plan[index].on_failure == OnFailure::Stop {
        Progress::Finished(false)
    } else if index + 1 < plan.len() {
        Progress::Next((index + 1) as usize)
    } else {
        Progress::Finished(true)
    }
}

/// The first step of a clean of `plan`; an empty plan has succeeded at once.
pub fn start(plan: &Vec<Step>) -> (r: Progress)
    ensures
        r == (if plan@.len() == 0 { Progress::Finished(true) } else { Progress::Next(0) }),
{
    if plan.len() == 0 {
        Progress::Finished(true)
    } else {
        Progress::Next(0)
    }
}

/// What comes after step `index` of `plan` ran and `succeeded` or not.
pub fn after_step(plan: &Vec<Step>, index: usize, succeeded: bool) -> (r: Progress)
    requires
        index < plan@.len(),
    ensures
        r == next_progress(plan@, index as int, succeeded),
        r matches Progress::Next(n) ==> n == index + 1 && n < plan@.len(),
        index + 1 == plan@.len() ==> r is Finished,
        r == Progress::Finished(false) <==> (!succeeded && plan@[index as int].on_failure == OnFailure::Stop),
{
    proof {
        assert(plan@.len() == plan.len());
        lemma_progress_moves_forward(plan@, index as int, succeeded);
    }
    if !succeeded && plan[index].on_failure == OnFailure::Stop {
        Progress::Finished(false)
    } else if plan.len() - index > 1 {
        Progress::Next(index + 1)
    } else {
        Progress::Finished(true)
    }
}

/// A clean moves through its plan one step at a time and never past its end:
/// after step `index` it either goes on to step `index + 1`, which exists, or
/// is over; after the last step it is always over; and it is over in failure
/// exactly when the step failed and its failure stops the clean.
pub proof fn lemma_progress_moves_forward(plan: Seq<Step>, index: int, succeeded: bool)
    requires
        0 <= index < plan.len(),
        plan.len() <= usize::MAX,
    ensures
        next_progress(plan, index, succeeded) matches Progress::Next(n) ==> n == index + 1 && n < plan.len(),
        index + 1 == plan.len() ==> next_progress(plan, index, succeeded) is Finished,
        next_progress(plan, index, succeeded) == Progress::Finished(false) <==> (!succeeded
            && plan[index].on_failure == OnFailure::Stop),
        succeeded ==> next_progress(plan, index, succeeded) != Progress::Finished(false),
{
}

/// Whether a clean of `plan` that starts at step `index` ends in success, when
/// each step `i` would succeed exactly where `succeeds[i]` holds.
pub open spec fn run_outcome(plan: Seq<Step>, succeeds: Seq<bool>, index: int) -> bool
    decreases plan.len() - index,
{
    if index < 0 || index >= plan.len() {
        true
    } else {
        match next_progress(plan, index, succeeds[index]) {
            Progress::Next(n) => if n > index { run_outcome(plan, succeeds, n as int) } else { true },
            Progress::Finished(ok) => ok,
        }
    }
}

/// Following [`start`] and [`after_step`] through a whole plan, a clean
/// succeeds exactly when no step whose failure stops the clean fails: failures
/// of the other steps are passed over.
pub proof fn lemma_clean_fails_only_on_stopping_failure(plan: Seq<Step>, succeeds: Seq<bool>)
    requires
        succeeds.len() == plan.len(),
        plan.len() <= usize::MAX,
    ensures
        run_outcome(plan, succeeds, 0) <==> forall|i: int|
            0 <= i < plan.len() ==> succeeds[i] || #[trigger] plan[i].on_failure == OnFailure::Continue,
{
    lemma_run_outcome_from(plan, succeeds, 0);
}

proof fn lemma_run_outcome_from(plan: Seq<Step>, succeeds: Seq<bool>, index: int)
    requires
        succeeds.len() == plan.len(),
        plan.len() <= usize::MAX,
        0 <= index,
    ensures
        run_outcome(plan, succeeds, index) <==> forall|i: int|
            index <= i < plan.len() ==> succeeds[i] || #[trigger] plan[i].on_failure == OnFailure::Continue,
    decreases plan.len() - index,
{
    if index < plan.len() {
        lemma_run_outcome_from(plan, succeeds, index + 1);
    }
}

/// What one attempt at removing a path came to.
#[derive(Debug, Clone, Copy, PartialEq, Eq, Structural)]
pub enum RemovalOutcome {
    /// The path was removed.
    Removed,
    /// Nothing was there.
    NotFound,
    /// The removal was not permitted.
    PermissionDenied,
    /// An error of the kind `Other`.
    Other,
    /// The path is not a directory (an error of the kind `NotADirectory`).
    NotADirectory,
    /// Any other error.
    Failed,
}

/// Which removal was attempted.
#[derive(Debug, Clone, Copy, PartialEq, Eq, Structural)]
pub enum RemovalStage {
    /// Removing the path as a directory tree.
    Directory,
    /// Removing the path as a single file.
    File,
}

/// What a purge does after an attempt.
#[derive(Debug, Clone, Copy, PartialEq, Eq, Structural)]
pub enum PurgeStep {
    /// The purge is over and has succeeded.
    Done,
    /// Try again, removing the path as a single file.
    RemoveFile,
    /// The purge is over and has succeeded, but the error is reported.
    ReportAndDone,
}

/// What a purge does after a removal attempt: a path that is gone, missing or
/// not permitted needs nothing more; a directory removal that fails because
/// the path is not a directory, or with an error of kind `Other`, is retried
/// as a file removal, so that a file is purged too, as `rm -rf` would; the
/// file removal likewise accepts an `Other` error; any other error is
/// reported. No outcome makes the purge fail.
pub open spec fn purge_step_spec(stage: RemovalStage, outcome: RemovalOutcome) -> PurgeStep {
    match outcome {
        RemovalOutcome::Removed | RemovalOutcome::NotFound | RemovalOutcome::PermissionDenied => PurgeStep::Done,
        RemovalOutcome::Other => if stage == RemovalStage::Directory {
            PurgeStep::RemoveFile
        } else {
            PurgeStep::Done
        },
        RemovalOutcome::NotADirectory => if stage == RemovalStage::Directory {
            PurgeStep::RemoveFile
        } else {
            PurgeStep::ReportAndDone
        },
        RemovalOutcome::Failed => PurgeStep::ReportAndDone,
    }
}

/// The decision of `purge_step_spec`.
pub fn purge_step(stage: RemovalStage, outcome: RemovalOutcome) -> (r: PurgeStep)
    ensures
        r == purge_step_spec(stage, outcome),
        stage == RemovalStage::File ==> r != PurgeStep::RemoveFile,
{
    match outcome {
        RemovalOutcome::Removed | RemovalOutcome::NotFound | RemovalOutcome::PermissionDenied => PurgeStep::Done,
        RemovalOutcome::Other => match stage {
            RemovalStage::Directory => PurgeStep::RemoveFile,
            RemovalStage::File => PurgeStep::Done,
        },
        RemovalOutcome::NotADirectory => match stage {
            RemovalStage::Directory => PurgeStep::RemoveFile,
            RemovalStage::File => PurgeStep::ReportAndDone,
        },
        RemovalOutcome::Failed => PurgeStep::ReportAndDone,
    }
}

/// The path that a purge of `child` in `parent` removes: `parent/child`.
pub fn purge_path(parent: &str, child: &str) -> (r: String)
    ensures
        r@ == parent@ + seq!['/'] + child@,
{
    join_path(parent, child)
}

/// The command line that a step runs, and the label under which its output is
/// shown.
#[derive(Debug)]
pub struct Invocation {
    pub program: String,
    pub args: Vec<String>,
    pub label: String,
}

/// The command line for running `program` with `args`: as given where the
/// program was found on the search path; otherwise a bare `ls`, whose output
/// is shown under the label `ls` in place of `Cmd`.
pub fn invocation_for(found: bool, program: &str, args: &[&str]) -> (r: Invocation)
    ensures
        found ==> r.program@ == program@ && strings_view(r.args@) == strs_view(args@) && r.label@ == "Cmd"@,
        !found ==> r.program@ == "ls"@ && r.args@.len() == 0 && r.label@ == "ls"@,
{
    if found {
        Invocation {
            program: String::from_str(program),
            args: owned_strings(args),
            label: String::from_str("Cmd"),
        }
    } else {
        Invocation { program: String::from_str("ls"), args: Vec::new(), label: String::from_str("ls") }
    }
}

/// The pieces of a text between occurrences of `sep`, read from the left: the
/// pieces finished so far and the one still open.
pub open spec fn split_fold(s: Seq<char>, sep: char) -> (Seq<Seq<char>>, Seq<char>)
    decreases s.len(),
{
    if s.len() == 0 {
        (Seq::empty(), Seq::empty())
    } else {
        let (done, open) = split_fold(s.drop_last(), sep);
        if s.last() == sep {
            (done.push(open), Seq::empty())
        } else {
            (done, open.push(s.last()))
        }
    }
}

/// The pieces of a text between occurrences of `sep`, empty ones included, as
/// `str::split` yields them.
pub open spec fn split_on(s: Seq<char>, sep: char) -> Seq<Seq<char>> {
    split_fold(s, sep).0.push(split_fold(s, sep).1)
}

/// Pieces joined back together, with one `sep` between each two.
pub open spec fn join_with(pieces: Seq<Seq<char>>, sep: char) -> Seq<char>
    decreases pieces.len(),
{
    if pieces.len() == 0 {
        Seq::empty()
    } else if pieces.len() == 1 {
        pieces[0]
    } else {
        join_with(pieces.drop_last(), sep) + seq![sep] + pieces.last()
    }
}

proof fn lemma_split_fold_parts(s: Seq<char>, sep: char)
    ensures
        join_with(split_fold(s, sep).0.push(split_fold(s, sep).1), sep) == s,
        forall|i: int|
            0 <= i < split_fold(s, sep).0.len() ==> !(#[trigger] split_fold(s, sep).0[i]).contains(sep),
        !split_fold(s, sep).1.contains(sep),
    decreases s.len(),
{
    if s.len() > 0 {
        let t = s.drop_last();
        let c = s.last();
        lemma_split_fold_parts(t, sep);
        let (d, o) = split_fold(t, sep);
        assert(t.push(c) =~= s);
        if c == sep {
            let p = d.push(o).push(Seq::<char>::empty());
            assert(p.drop_last() =~= d.push(o));
            assert(join_with(p, sep) =~= t + seq![sep] + Seq::<char>::empty());
        } else {
            let p = d.push(o.push(c));
            if d.len() == 0 {
                assert(d.push(o).len() == 1);
                assert(join_with(d.push(o), sep) == o);
            } else {
                assert(p.drop_last() =~= d);
                assert(d.push(o).drop_last() =~= d);
                assert(join_with(p, sep) =~= join_with(d, sep) + seq![sep] + o.push(c));
            }
            assert forall|k: int| 0 <= k < o.push(c).len() implies o.push(c)[k] != sep by {
                if k < o.len() {
                    assert(o.push(c)[k] == o[k]);
                    assert(o.contains(o[k]));
                }
            }
        }
    }
}

/// The pieces that a search path is cut into are exactly the parts between
/// its `sep` characters: joined back with `sep` they give the text again, no
/// piece holds a `sep`, and a text without `sep` is a single piece.
pub proof fn lemma_split_on_cuts_only_at_separator(s: Seq<char>, sep: char)
    ensures
        join_with(split_on(s, sep), sep) == s,
        forall|i: int| 0 <= i < split_on(s, sep).len() ==> !(#[trigger] split_on(s, sep)[i]).contains(sep),
        !s.contains(sep) ==> split_on(s, sep) == seq![s],
{
    lemma_split_fold_parts(s, sep);
    let (d, o) = split_fold(s, sep);
    assert forall|i: int| 0 <= i < split_on(s, sep).len() implies !(#[trigger] split_on(s, sep)[i]).contains(sep) by {
        if i < d.len() {
            assert(split_on(s, sep)[i] == d[i]);
        }
    }
    if !s.contains(sep) {
        lemma_split_fold_no_separator(s, sep);
        assert(split_on(s, sep) =~= seq![s]);
    }
}

proof fn lemma_split_fold_no_separator(s: Seq<char>, sep: char)
    requires
        !s.contains(sep),
    ensures
        split_fold(s, sep).0.len() == 0,
        split_fold(s, sep).1 == s,
    decreases s.len(),
{
    if s.len() > 0 {
        let t = s.drop_last();
        assert(!t.contains(sep)) by {
            if t.contains(sep) {
                let k = choose|k: int| 0 <= k < t.len() && t[k] == sep;
                assert(s[k] == sep);
            }
        }
        assert(s.contains(s.last()) && s[s.len() - 1] == s.last());
        lemma_split_fold_no_separator(t, sep);
        assert(t.push(s.last()) =~= s);
    }
}

proof fn lemma_split_fold_extends(p: Seq<char>, x: Seq<char>, sep: char)
    ensures
        split_fold(p + x, sep).0.len() >= split_fold(p, sep).0.len(),
        split_fold(p + x, sep).0.take(split_fold(p, sep).0.len() as int) == split_fold(p, sep).0,
    decreases x.len(),
{
    if x.len() == 0 {
        assert(p + x =~= p);
        assert(split_fold(p, sep).0.take(split_fold(p, sep).0.len() as int) =~= split_fold(p, sep).0);
    } else {
        lemma_split_fold_extends(p, x.drop_last(), sep);
        assert((p + x).drop_last() =~= p + x.drop_last());
        assert((p + x).last() == x.last());
        let before = split_fold(p + x.drop_last(), sep).0;
        let k = split_fold(p, sep).0.len() as int;
        assert(before.push(split_fold(p + x.drop_last(), sep).1).take(k) =~= before.take(k));
    }
}

/// Adding a directory at the end of a search path keeps every earlier place
/// where a program is looked for, in the same order, in front.
pub proof fn lemma_extending_search_path_keeps_candidates(s1: Seq<char>, extra: Seq<char>, program: Seq<char>)
    ensures
        split_on(s1 + seq![':'] + extra, ':').len() > split_on(s1, ':').len(),
        split_on(s1 + seq![':'] + extra, ':').take(split_on(s1, ':').len() as int) == split_on(s1, ':'),
        split_on(s1 + seq![':'] + extra, ':').map_values(|dir: Seq<char>| dir + seq!['/'] + program).take(
            split_on(s1, ':').len() as int,
        ) == split_on(s1, ':').map_values(|dir: Seq<char>| dir + seq!['/'] + program),
{
    let p = s1 + seq![':'];
    assert(p.drop_last() =~= s1);
    assert(split_fold(p, ':').0 == split_on(s1, ':'));
    assert(s1 + seq![':'] + extra == p + extra);
    lemma_split_fold_extends(p, extra, ':');
    let whole = split_on(p + extra, ':');
    let k = split_on(s1, ':').len() as int;
    assert(whole.take(k) =~= split_fold(p + extra, ':').0.take(k));
    let f = |dir: Seq<char>| dir + seq!['/'] + program;
    assert(whole.map_values(f).take(k) =~= whole.take(k).map_values(f));
}

/// The places where a program is looked for: `dir/program` for each entry
/// `dir` of a `:`-separated search path, in order.
pub fn program_candidates(search_path: &str, program: &str) -> (r: Vec<String>)
    ensures
        strings_view(r@) == split_on(search_path@, ':').map_values(
            |dir: Seq<char>| dir + seq!['/'] + program@,
        ),
        !search_path@.contains(':') ==> strings_view(r@) == seq![search_path@ + seq!['/'] + program@],
{
    let ghost f = |dir: Seq<char>| dir + seq!['/'] + program@;
    let n = search_path.unicode_len();
    let mut found: Vec<String> = Vec::new();
    let mut open = String::new();
    let mut i: usize = 0;
    while i < n
        invariant
            n == search_path@.len(),
            i <= n,
            f == (|dir: Seq<char>| dir + seq!['/'] + program@),
            strings_view(found@) == split_fold(search_path@.take(i as int), ':').0.map_values(f),
            open@ == split_fold(search_path@.take(i as int), ':').1,
        decreases n - i,
    {
        let c = search_path.get_char(i);
        let ghost prefix = search_path@.take(i as int);
        assert(search_path@.take(i + 1).drop_last() =~= prefix);
        assert(search_path@.take(i + 1).last() == c);
        if c == ':' {
            let ghost before = found@;
            let candidate = join_path(open.as_str(), program);
            found.push(candidate);
            assert(strings_view(found@) =~= strings_view(before).push(candidate@));
            assert(split_fold(search_path@.take(i + 1), ':').0 =~= split_fold(prefix, ':').0.push(
                split_fold(prefix, ':').1,
            ));
            assert(split_fold(search_path@.take(i + 1), ':').0.map_values(f) =~= split_fold(
                prefix,
                ':',
            ).0.map_values(f).push(f(split_fold(prefix, ':').1)));
            open = String::new();
        } else {
            push_char(&mut open, c);
        }
        i = i + 1;
    }
    assert(search_path@.take(i as int) =~= search_path@);
    let ghost before = found@;
    let last = join_path(open.as_str(), program);
    found.push(last);
    assert(strings_view(found@) =~= strings_view(before).push(last@));
    assert(split_on(search_path@, ':').map_values(f) =~= split_fold(search_path@, ':').0.map_values(
        f,
    ).push(f(split_fold(search_path@, ':').1)));
    proof {
        lemma_split_on_cuts_only_at_separator(search_path@, ':');
        if !search_path@.contains(':') {
            assert(split_on(search_path@, ':').map_values(f) =~= seq![f(search_path@)]);
        }
    }
    found
}

/// A kind of project that can be cleaned.
pub trait Cleaner {
    /// The name of the cleaner.
    fn name(&self) -> &str;

    /// The steps that clean `dir`, assumed to be a directory of this kind,
    /// in the order they run.
    fn clean(&self, dir: &str) -> Vec<Step>;

    /// The file names whose presence marks a directory of this kind.
    fn triggers(&self) -> &[&str];
}

} // verus!
