//! A run from the command line to the summary: which targets are refused, when
//! the user is asked, and what is said at the end.
use vstd::prelude::*;
use crate::options::Options;
use crate::path::{is_root, LexPath};
use crate::tally::Tally;
use crate::text::decimal;
use crate::ui::Mode;
#[allow(unused_imports)]
use crate::path::{
    law_bare_roots_are_roots, law_longer_paths_are_no_roots, path_view, root_path,
};
#[allow(unused_imports)]
use crate::tally::{merged, nothing, total};
#[allow(unused_imports)]
use crate::tree::{line_text, request_for, start_of, FileKind, Request, StartView};
#[allow(unused_imports)]
use crate::ui::texts;
#[allow(unused_imports)]
use crate::text::decimal_text;

verus! {

/// Something the user asked to delete.
pub struct Target {
    /// The path, as it is shown.
    pub name: String,
    /// The path, as it was given.
    pub given: LexPath,
    /// The path fully qualified, if that worked.
    pub absolute: Option<LexPath>,
    /// Whether there is an entry at the path. A link is one, even if it points
    /// at nothing.
    pub exists: bool,
}

/// The target is a filesystem root.
pub open spec fn is_root_target(target: Target) -> bool {
    root_path(target.given@, path_view(target.absolute))
}

/// What is said of a target that is refused: a root is, whether or not it
/// exists, and so is a path at which there is nothing.
pub open spec fn refusal_of(target: Target) -> Option<Seq<char>> {
    if is_root_target(target) {
        Some(
            "refusing to rip a filesystem root: "@ + target.name@
                + " — this is almost certainly a mistake. rip is for throwaway subtrees (.git, .venv, node_modules, target/), not whole volumes."@,
        )
    } else if !target.exists {
        Some("path does not exist: "@ + target.name@)
    } else {
        None
    }
}

/// What is said of the first target that is refused.
pub open spec fn first_refusal(targets: Seq<Target>) -> Option<Seq<char>>
    decreases targets.len(),
{
    if targets.len() == 0 {
        None
    } else {
        match refusal_of(targets[0]) {
            Some(text) => Some(text),
            None => first_refusal(targets.skip(1)),
        }
    }
}

/// How a run goes on.
pub enum Next {
    /// Fail with this text. Nothing has been deleted.
    Refuse(String),
    /// Show the warning for this mode and ask.
    Ask(Mode),
    /// Say that the run is aborted and end it.
    Abort,
    /// Move each target to the trash.
    Trash,
    /// Rip each target.
    Rip,
}

/// How a run goes on, by its text.
pub enum NextView {
    Refuse(Seq<char>),
    Ask(Mode),
    Abort,
    Trash,
    Rip,
}

impl View for Next {
    type V = NextView;

    open spec fn view(&self) -> NextView {
        match self {
            Next::Refuse(text) => NextView::Refuse(text@),
            Next::Ask(mode) => NextView::Ask(*mode),
            Next::Abort => NextView::Abort,
            Next::Trash => NextView::Trash,
            Next::Rip => NextView::Rip,
        }
    }
}

/// The mode that the options ask for.
pub open spec fn mode_of(options: Options) -> Mode {
    if options.trash {
        Mode::Trash
    } else {
        Mode::Rip
    }
}

/// The work that the options ask for.
pub open spec fn work(options: Options) -> NextView {
    if options.trash {
        NextView::Trash
    } else {
        NextView::Rip
    }
}

/// How a run starts: with a refusal if there is one, else with a question, and
/// without one only under `--force` and in a dry run.
pub open spec fn begun(options: Options, targets: Seq<Target>) -> NextView {
    match first_refusal(targets) {
        Some(text) => NextView::Refuse(text),
        None => if !options.force && !options.dry_run {
            NextView::Ask(mode_of(options))
        } else {
            work(options)
        },
    }
}

/// How a run goes on after the question.
pub open spec fn after_answer(options: Options, yes: bool) -> NextView {
    if yes {
        work(options)
    } else {
        NextView::Abort
    }
}

/// Gives the reason for which a target is refused, if it is.
fn refuse(target: &Target) -> (text: Option<String>)
    ensures
        match text {
            Some(s) => refusal_of(*target) == Some(s@),
            None => refusal_of(*target) is None,
        },
{
    if is_root(&target.given, &target.absolute) {
        let mut text = "refusing to rip a filesystem root: ".to_owned();
        text.append(target.name.as_str());
        text.append(
            " — this is almost certainly a mistake. rip is for throwaway subtrees (.git, .venv, node_modules, target/), not whole volumes.",
        );
        return Some(text);
    }
    if !target.exists {
        let mut text = "path does not exist: ".to_owned();
        text.append(target.name.as_str());
        return Some(text);
    }
    None
}

/// Does the work that the options ask for.
fn proceed(options: &Options) -> (next: Next)
    ensures
        next@ == work(*options),
{
    if options.trash {
        Next::Trash
    } else {
        Next::Rip
    }
}

/// Decides how a run starts. Targets are checked in order, and the first that is
/// refused ends the run, whatever the options are.
pub fn begin(options: &Options, targets: &Vec<Target>) -> (next: Next)
    ensures
        next@ == begun(*options, targets@),
{
    let mut i: usize = 0;
    assert(targets@.skip(0) =~= targets@);
    while i < targets.len()
        invariant
            i <= targets.len(),
            first_refusal(targets@) == first_refusal(targets@.skip(i as int)),
        decreases targets.len() - i,
    {
        assert(targets@.skip(i as int).skip(1) =~= targets@.skip(i + 1));
        match refuse(&targets[i]) {
            Some(text) => {
                return Next::Refuse(text);
            },
            None => {},
        }
        i += 1;
    }
    if !options.force && !options.dry_run {
        let mode = if options.trash {
            Mode::Trash
        } else {
            Mode::Rip
        };
        return Next::Ask(mode);
    }
    proceed(options)
}

/// Decides how a run goes on after the question.
pub fn answered(options: &Options, yes: bool) -> (next: Next)
    ensures
        next@ == after_answer(*options, yes),
{
    if !yes {
        return Next::Abort;
    }
    proceed(options)
}

/// The line about the number of workers.
pub open spec fn workers_text(threads: nat) -> Seq<char> {
    "rip: "@ + decimal_text(threads) + " worker threads"@
}

/// Writes the line about the number of workers.
pub fn workers_line(threads: usize) -> (text: String)
    ensures
        text@ == workers_text(threads as nat),
{
    let mut text = "rip: ".to_owned();
    text.append(decimal(threads as u64).as_str());
    text.append(" worker threads");
    text
}

/// The line about a target that could not be ripped, with the cause.
pub fn failure_line(name: &str, cause: &str) -> (text: String)
    ensures
        text@ == failure_text_of(name@, cause@),
{
    let mut text = "error ripping ".to_owned();
    text.append(name);
    text.append(": ");
    text.append(cause);
    text
}

/// The line about a target that could not be ripped.
pub open spec fn failure_text_of(name: Seq<char>, cause: Seq<char>) -> Seq<char> {
    "error ripping "@ + name + ": "@ + cause
}

/// What is done next in a rip. A target is given by its index.
#[derive(Clone, Copy, PartialEq, Eq, Structural)]
pub enum RipStep {
    /// Rip this target.
    Target(usize),
    /// All targets have had their turn.
    Done,
}

/// A rip of the targets, from first to last.
pub struct RipRun {
    names: Vec<String>,
    at: usize,
    tally: Tally,
}

/// A rip, by its contents.
pub struct RipRunView {
    pub names: Seq<Seq<char>>,
    pub at: int,
    pub tally: Tally,
}

impl View for RipRun {
    type V = RipRunView;

    closed spec fn view(&self) -> RipRunView {
        RipRunView { names: texts(self.names@), at: self.at as int, tally: self.tally }
    }
}

/// A rip before its first target.
pub open spec fn rip_start(names: Seq<Seq<char>>) -> RipRunView {
    RipRunView { names, at: 0, tally: nothing() }
}

impl RipRunView {
    /// What is done next.
    pub open spec fn step(self) -> RipStep {
        if self.at < self.names.len() {
            RipStep::Target(self.at as usize)
        } else {
            RipStep::Done
        }
    }

    /// The rip after the current target, if there is one. What a target counted
    /// joins the counts. A target that failed counts nothing and stops no other.
    pub open spec fn after(self, result: Result<Tally, String>) -> RipRunView {
        if self.at < self.names.len() {
            RipRunView {
                at: self.at + 1,
                tally: match result {
                    Ok(t) => merged(self.tally, t),
                    Err(_) => self.tally,
                },
                ..self
            }
        } else {
            self
        }
    }

    /// The line about the current target, if it failed.
    pub open spec fn line(self, result: Result<Tally, String>) -> Option<Seq<char>> {
        match result {
            Err(cause) => if self.at < self.names.len() {
                Some(failure_text_of(self.names[self.at], cause@))
            } else {
                None
            },
            Ok(_) => None,
        }
    }
}

impl RipRun {
    #[verifier::type_invariant]
    spec fn within_targets(self) -> bool {
        self.at <= self.names@.len()
    }

    /// Starts a rip of the targets with these names.
    pub fn new(names: Vec<String>) -> (run: RipRun)
        ensures
            run@ == rip_start(texts(names@)),
    {
        RipRun { names, at: 0, tally: Tally::zero() }
    }

    /// What is done next.
    pub fn step(&self) -> (step: RipStep)
        ensures
            step == self@.step(),
    {
        if self.at < self.names.len() {
            RipStep::Target(self.at)
        } else {
            RipStep::Done
        }
    }

    /// Takes in what came of the current target: its counts, or why it could not
    /// be ripped, for which it gives a line. Once all targets have had their
    /// turn, nothing happens any more.
    pub fn record(&mut self, result: Result<Tally, String>) -> (line: Option<String>)
        ensures
            final(self)@ == old(self)@.after(result),
            line_text(line) == old(self)@.line(result),
    {
        if self.at >= self.names.len() {
            return None;
        }
        let line = match result {
            Ok(t) => {
                self.tally = self.tally.merge(t);
                None
            },
            Err(cause) => Some(failure_line(self.names[self.at].as_str(), cause.as_str())),
        };
        self.at = self.at + 1;
        line
    }

    /// What was counted so far.
    pub fn tally(&self) -> (tally: Tally)
        ensures
            tally == self@.tally,
    {
        self.tally
    }
}

/// The rip after all `results`.
pub open spec fn after_results(
    run: RipRunView,
    results: Seq<Result<Tally, String>>,
) -> RipRunView
    decreases results.len(),
{
    if results.len() == 0 {
        run
    } else {
        after_results(run, results.drop_last()).after(results.last())
    }
}

/// The counts of the targets that did not fail, in order.
pub open spec fn successes(results: Seq<Result<Tally, String>>) -> Seq<Tally>
    decreases results.len(),
{
    if results.len() == 0 {
        Seq::empty()
    } else {
        match results.last() {
            Ok(t) => successes(results.drop_last()).push(t),
            Err(_) => successes(results.drop_last()),
        }
    }
}

/// Every target has its turn once, in order, whatever became of those before it,
/// and the counts at the end are those of the targets that did not fail.
pub proof fn law_failed_targets_stop_no_other(
    names: Seq<Seq<char>>,
    results: Seq<Result<Tally, String>>,
)
    requires
        results.len() <= names.len(),
    ensures
        ({
            let run = after_results(rip_start(names), results);
            &&& run.names == names
            &&& run.at == results.len()
            &&& run.tally == total(successes(results))
            &&& results.len() < names.len() ==> run.step() == RipStep::Target(
                results.len() as usize,
            )
            &&& results.len() == names.len() ==> run.step() == RipStep::Done
        }),
    decreases results.len(),
{
    if results.len() > 0 {
        let init = results.drop_last();
        law_failed_targets_stop_no_other(names, init);
        match results.last() {
            Ok(t) => {
                assert(successes(results).drop_last() =~= successes(init));
            },
            Err(_) => {},
        }
    }
}

/// The summary of a run, without its line break.
pub open spec fn summary_text(options: Options, tally: Tally, seconds: Seq<char>) -> Seq<char> {
    "\nRIP: "@ + (if options.dry_run {
        "would delete"@
    } else {
        "deleted"@
    }) + " "@ + decimal_text(tally.files as nat) + " files, "@ + decimal_text(tally.dirs as nat)
        + " dirs in "@ + seconds + "s ("@ + decimal_text(tally.errors as nat) + " errors)"@
}

/// Writes the summary of a run that took `seconds`.
pub fn summary(options: &Options, tally: &Tally, seconds: &str) -> (text: String)
    ensures
        text@ == summary_text(*options, *tally, seconds@),
{
    let mut text = "\nRIP: ".to_owned();
    if options.dry_run {
        text.append("would delete");
    } else {
        text.append("deleted");
    }
    text.append(" ");
    text.append(decimal(tally.files).as_str());
    text.append(" files, ");
    text.append(decimal(tally.dirs).as_str());
    text.append(" dirs in ");
    text.append(seconds);
    text.append("s (");
    text.append(decimal(tally.errors).as_str());
    text.append(" errors)");
    text
}

/// A filesystem root is refused outright: if there is one among the targets the
/// run fails before anything is asked or done, under `--force` and under every
/// other option.
pub proof fn law_roots_are_refused(options: Options, targets: Seq<Target>, i: int)
    requires
        0 <= i < targets.len(),
        is_root_target(targets[i]),
    ensures
        begun(options, targets) is Refuse,
    decreases targets.len(),
{
    if i > 0 && refusal_of(targets[0]) is None {
        law_roots_are_refused(options, targets.skip(1), i - 1);
    }
}

/// A path at which there is nothing is refused in the same way.
pub proof fn law_missing_targets_are_refused(options: Options, targets: Seq<Target>, i: int)
    requires
        0 <= i < targets.len(),
        !targets[i].exists,
    ensures
        begun(options, targets) is Refuse,
    decreases targets.len(),
{
    if i > 0 && refusal_of(targets[0]) is None {
        law_missing_targets_are_refused(options, targets.skip(1), i - 1);
    }
}

/// Nothing else is refused: where every target exists and none is a root, the
/// run goes on.
pub proof fn law_other_targets_pass(options: Options, targets: Seq<Target>)
    requires
        forall|i: int|
            0 <= i < targets.len() ==> (#[trigger] targets[i]).exists && !is_root_target(targets[i]),
    ensures
        !(begun(options, targets) is Refuse),
    decreases targets.len(),
{
    if targets.len() > 0 {
        law_other_targets_pass(options, targets.skip(1));
    }
}

/// Work starts only with consent: after a yes, under `--force`, or in a dry run,
/// which deletes nothing.
pub proof fn law_work_needs_consent(options: Options, targets: Seq<Target>, yes: bool)
    ensures
        begun(options, targets) is Rip || begun(options, targets) is Trash ==> options.force
            || options.dry_run,
        after_answer(options, yes) is Rip || after_answer(options, yes) is Trash ==> yes,
{
}

/// A dry run deletes nothing: it is never asked about, every entry is only
/// previewed, and no target is removed.
pub proof fn law_dry_run_deletes_nothing(
    options: Options,
    targets: Seq<Target>,
    name: Seq<char>,
    stat: Result<FileKind, String>,
)
    requires
        options.dry_run,
    ensures
        !(begun(options, targets) is Ask),
        request_for(options) == Request::Preview,
        !(start_of(options, name, stat) is RemoveLeaf),
{
}

/// The path that a target is judged by: the qualified one, or the given one
/// where that failed.
pub open spec fn judged(target: Target) -> LexPath {
    match target.absolute {
        Some(path) => path,
        None => target.given,
    }
}

/// `path` leads to a root and no further: there is something in it, and it is
/// all prefix and root.
pub open spec fn leads_to_a_root(path: LexPath) -> bool {
    &&& path.components@.len() > 0
    &&& forall|i: int|
        0 <= i < path.components@.len() ==> (#[trigger] path.components@[i]) is Prefix
            || path.components@[i] is RootDir
}

/// `path` does not end in a prefix or a root.
pub open spec fn leads_elsewhere(path: LexPath) -> bool {
    ||| path.components@.len() == 0
    ||| path.components@.last() is Normal
    ||| path.components@.last() is CurDir
    ||| path.components@.last() is ParentDir
}

/// Whatever the drive, the share or the device: a target made of a prefix and a
/// root alone is refused, under every option and among any other targets.
pub proof fn law_every_root_is_refused(options: Options, targets: Seq<Target>, i: int)
    requires
        0 <= i < targets.len(),
        leads_to_a_root(judged(targets[i])),
    ensures
        begun(options, targets) is Refuse,
{
    law_bare_roots_are_roots(targets[i].given, judged(targets[i]));
    law_roots_are_refused(options, targets, i);
}

/// The first target that is no good is the one that is named, with the reason: a
/// root is called a root, whether or not something is there, and of any other
/// it is said that it does not exist.
pub proof fn law_first_bad_target_is_named(options: Options, targets: Seq<Target>, i: int)
    requires
        0 <= i < targets.len(),
        forall|j: int|
            0 <= j < i ==> (#[trigger] targets[j]).exists && leads_elsewhere(judged(targets[j])),
        leads_to_a_root(judged(targets[i])) || (leads_elsewhere(judged(targets[i]))
            && !targets[i].exists),
    ensures
        begun(options, targets) == NextView::Refuse(
            if leads_to_a_root(judged(targets[i])) {
                "refusing to rip a filesystem root: "@ + targets[i].name@
                    + " — this is almost certainly a mistake. rip is for throwaway subtrees (.git, .venv, node_modules, target/), not whole volumes."@
            } else {
                "path does not exist: "@ + targets[i].name@
            },
        ),
    decreases targets.len(),
{
    let first = targets[0];
    if leads_to_a_root(judged(first)) {
        law_bare_roots_are_roots(first.given, judged(first));
    } else {
        law_longer_paths_are_no_roots(first.given, judged(first));
    }
    if i > 0 {
        law_first_bad_target_is_named(options, targets.skip(1), i - 1);
        assert(first_refusal(targets) == first_refusal(targets.skip(1)));
    }
}

/// A run over targets that all exist and lead somewhere else than to a root is
/// never refused. It asks first unless it is forced or dry, and what it asks
/// about or does is a move to the trash exactly where that was asked for.
pub proof fn law_good_targets_are_asked_about(options: Options, targets: Seq<Target>)
    requires
        forall|i: int|
            0 <= i < targets.len() ==> (#[trigger] targets[i]).exists && leads_elsewhere(
                judged(targets[i]),
            ),
    ensures
        begun(options, targets) == (match (options.force, options.dry_run, options.trash) {
            (false, false, true) => NextView::Ask(Mode::Trash),
            (false, false, false) => NextView::Ask(Mode::Rip),
            (_, _, true) => NextView::Trash,
            (_, _, false) => NextView::Rip,
        }),
{
    assert forall|i: int| 0 <= i < targets.len() implies (#[trigger] targets[i]).exists
        && !is_root_target(targets[i]) by {
        law_longer_paths_are_no_roots(targets[i].given, judged(targets[i]));
    }
    law_other_targets_pass(options, targets);
}

/// What was asked about is what is done: work is a move to the trash if and only
/// if that was asked for, at once or after a yes, and a yes to a question about
/// one kind of work never starts the other.
pub proof fn law_work_is_what_was_asked(options: Options, targets: Seq<Target>)
    ensures
        begun(options, targets) is Trash ==> options.trash,
        begun(options, targets) is Rip ==> !options.trash,
        !(begun(options, targets) is Abort),
        after_answer(options, true) is Trash <==> options.trash,
        after_answer(options, true) is Rip <==> !options.trash,
        after_answer(options, false) == NextView::Abort,
        begun(options, targets) == NextView::Ask(Mode::Trash) ==> after_answer(options, true)
            == NextView::Trash,
        begun(options, targets) == NextView::Ask(Mode::Rip) ==> after_answer(options, true)
            == NextView::Rip,
        begun(options, targets) is Ask ==> !options.force && !options.dry_run,
{
}

/// The summary tells the three counts and the time, and that they are of what
/// would be deleted if the run was dry, else of what was.
pub proof fn law_summary_says_what_was_done(options: Options, tally: Tally, seconds: Seq<char>)
    ensures
        ({
            let counts = decimal_text(tally.files as nat) + " files, "@ + decimal_text(
                tally.dirs as nat,
            ) + " dirs in "@ + seconds + "s ("@ + decimal_text(tally.errors as nat)
                + " errors)"@;
            &&& options.dry_run ==> summary_text(options, tally, seconds) == "\nRIP: "@
                + "would delete"@ + " "@ + counts
            &&& !options.dry_run ==> summary_text(options, tally, seconds) == "\nRIP: "@
                + "deleted"@ + " "@ + counts
        }),
{
    let counts = decimal_text(tally.files as nat) + " files, "@ + decimal_text(tally.dirs as nat)
        + " dirs in "@ + seconds + "s ("@ + decimal_text(tally.errors as nat) + " errors)"@;
    let verb = if options.dry_run {
        "would delete"@
    } else {
        "deleted"@
    };
    assert(summary_text(options, tally, seconds) =~= "\nRIP: "@ + verb + " "@ + counts);
}

/// The lines of a run name what they are about: the number of workers, and for a
/// target that failed its name and the cause. A target that did not fail has no
/// line.
pub proof fn law_lines_name_their_subject(
    threads: nat,
    run: RipRunView,
    counted: Tally,
    cause: String,
)
    requires
        0 <= run.at < run.names.len(),
    ensures
        workers_text(threads) == "rip: "@ + decimal_text(threads) + " worker threads"@,
        run.line(Ok(counted)) is None,
        run.line(Err(cause)) == Some("error ripping "@ + run.names[run.at] + ": "@ + cause@),
{
}

/// Once every target has had its turn, nothing more is counted or said.
pub proof fn law_finished_rip_stays(run: RipRunView, result: Result<Tally, String>)
    requires
        run.at >= run.names.len(),
    ensures
        run.step() == RipStep::Done,
        run.after(result) == run,
        run.line(result) is None,
{
}

/// What is decided for a run is what is done: a decision is no other by its text
/// than by itself.
pub proof fn law_decisions_are_what_they_seem(next: Next)
    ensures
        next@ is Refuse <==> next is Refuse,
        next@ == NextView::Ask(Mode::Rip) <==> next == Next::Ask(Mode::Rip),
        next@ == NextView::Ask(Mode::Trash) <==> next == Next::Ask(Mode::Trash),
        next@ is Abort <==> next is Abort,
        next@ is Trash <==> next is Trash,
        next@ is Rip <==> next is Rip,
{
}

} // verus!
