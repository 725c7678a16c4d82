//! Moving targets to the Recycle Bin or trash, each as a whole.
use vstd::prelude::*;
use crate::options::Options;
use crate::text::decimal;
#[allow(unused_imports)]
use crate::tree::{line_text, verbose_line};
#[allow(unused_imports)]
use crate::ui::texts;
#[allow(unused_imports)]
use crate::text::decimal_text;

verus! {

/// What became of the targets so far.
#[derive(Clone, Copy)]
pub struct TrashTally {
    pub moved: u64,
    pub errors: u64,
}

/// What is done next. A target is given by its index.
#[derive(Clone, Copy, PartialEq, Eq, Structural)]
pub enum TrashStep {
    /// Nothing is done to this target: it counts as moved.
    Preview(usize),
    /// Move this target to the trash.
    Move(usize),
    /// All targets have been dealt with.
    Done,
}

/// What came of a target.
pub enum TrashEvent {
    /// It was only previewed.
    Previewed,
    /// It was moved.
    Moved,
    /// It could not be moved, for this reason.
    Failed(String),
}

/// The lines for a target: one for standard output, one for standard error.
pub struct TrashLines {
    pub out: Option<String>,
    pub err: Option<String>,
}

/// The tally after one more target.
pub open spec fn trash_counted(tally: TrashTally, event: TrashEvent) -> TrashTally {
    match event {
        TrashEvent::Failed(_) => TrashTally { errors: (tally.errors + 1) as u64, ..tally },
        _ => TrashTally { moved: (tally.moved + 1) as u64, ..tally },
    }
}

/// The line for standard output about a target. A preview always names it.
pub open spec fn trash_out(options: Options, name: Seq<char>, event: TrashEvent) -> Option<
    Seq<char>,
> {
    match event {
        TrashEvent::Previewed => Some("would trash "@ + name),
        TrashEvent::Moved => verbose_line(options, name),
        TrashEvent::Failed(_) => None,
    }
}

/// The line for standard error about a target.
pub open spec fn trash_err(name: Seq<char>, event: TrashEvent) -> Option<Seq<char>> {
    match event {
        TrashEvent::Failed(cause) => Some("error: trash "@ + name + ": "@ + cause@),
        _ => None,
    }
}

/// A run over the targets, from first to last.
pub struct TrashRun {
    options: Options,
    names: Vec<String>,
    tally: TrashTally,
}

/// A run, by its contents.
pub struct TrashRunView {
    pub options: Options,
    pub names: Seq<Seq<char>>,
    pub tally: TrashTally,
}

impl View for TrashRun {
    type V = TrashRunView;

    closed spec fn view(&self) -> TrashRunView {
        TrashRunView { options: self.options, names: texts(self.names@), tally: self.tally }
    }
}

impl TrashRunView {
    /// The number of targets that have been dealt with.
    pub open spec fn at(self) -> int {
        self.tally.moved + self.tally.errors
    }

    /// What is done next.
    pub open spec fn step(self) -> TrashStep {
        if self.at() >= self.names.len() {
            TrashStep::Done
        } else if self.options.dry_run {
            TrashStep::Preview(self.at() as usize)
        } else {
            TrashStep::Move(self.at() as usize)
        }
    }

    /// The run after the current target, if there is one.
    pub open spec fn after(self, event: TrashEvent) -> TrashRunView {
        if self.at() < self.names.len() {
            TrashRunView { tally: trash_counted(self.tally, event), ..self }
        } else {
            self
        }
    }
}

impl TrashRun {
    #[verifier::type_invariant]
    spec fn within_targets(self) -> bool {
        self.tally.moved + self.tally.errors <= self.names@.len()
    }

    /// What is done next: a dry run previews each target, any other run moves
    /// it.
    pub fn step(&self) -> (step: TrashStep)
        ensures
            step == self@.step(),
    {
        proof {
            use_type_invariant(self);
        }
        let count: usize = self.names.len();
        let at: usize = (self.tally.moved + self.tally.errors) as usize;
        if at >= count {
            TrashStep::Done
        } else if self.options.dry_run {
            TrashStep::Preview(at)
        } else {
            TrashStep::Move(at)
        }
    }

    /// Counts the current target and gives the lines that report it. Once all
    /// targets have been dealt with, nothing happens any more.
    pub fn record(&mut self, event: TrashEvent) -> (lines: TrashLines)
        ensures
            final(self)@ == old(self)@.after(event),
            old(self)@.at() < old(self)@.names.len() ==> line_text(lines.out) == trash_out(
                old(self)@.options,
                old(self)@.names[old(self)@.at()],
                event,
            ) && line_text(lines.err) == trash_err(old(self)@.names[old(self)@.at()], event),
            old(self)@.at() >= old(self)@.names.len() ==> lines.out is None && lines.err is None,
    {
        proof {
            use_type_invariant(&*self);
        }
        let count: usize = self.names.len();
        let at: usize = (self.tally.moved + self.tally.errors) as usize;
        if at >= count {
            return TrashLines { out: None, err: None };
        }
        let name = self.names[at].clone();
        let tally = self.tally;
        match event {
            TrashEvent::Previewed => {
                self.tally = TrashTally { moved: tally.moved + 1, errors: tally.errors };
                let mut line = "would trash ".to_owned();
                line.append(name.as_str());
                TrashLines { out: Some(line), err: None }
            },
            TrashEvent::Moved => {
                self.tally = TrashTally { moved: tally.moved + 1, errors: tally.errors };
                let out = if self.options.verbose {
                    Some(name)
                } else {
                    None
                };
                TrashLines { out, err: None }
            },
            TrashEvent::Failed(cause) => {
                self.tally = TrashTally { moved: tally.moved, errors: tally.errors + 1 };
                let mut line = "error: trash ".to_owned();
                line.append(name.as_str());
                line.append(": ");
                line.append(cause.as_str());
                TrashLines { out: None, err: Some(line) }
            },
        }
    }

    /// What became of the targets so far.
    pub fn tally(&self) -> (tally: TrashTally)
        ensures
            tally == self@.tally,
    {
        self.tally
    }
}

/// Starts a run that moves the targets with these names to the trash.
pub fn trash_paths(options: &Options, names: Vec<String>) -> (run: TrashRun)
    ensures
        run@ == (TrashRunView {
            options: *options,
            names: texts(names@),
            tally: TrashTally { moved: 0, errors: 0 },
        }),
{
    TrashRun { options: *options, names, tally: TrashTally { moved: 0, errors: 0 } }
}

/// The summary of a run, without its line break.
pub open spec fn trash_summary_text(
    options: Options,
    tally: TrashTally,
    seconds: Seq<char>,
) -> Seq<char> {
    "\nRIP: "@ + (if options.dry_run {
        "would trash"@
    } else {
        "trashed"@
    }) + " "@ + decimal_text(tally.moved as nat) + " path(s) in "@ + seconds + "s ("@
        + decimal_text(tally.errors as nat) + " errors)"@
}

/// Writes the summary of a run that took `seconds`.
pub fn trash_summary(options: &Options, tally: &TrashTally, seconds: &str) -> (text: String)
    ensures
        text@ == trash_summary_text(*options, *tally, seconds@),
{
    let mut text = "\nRIP: ".to_owned();
    if options.dry_run {
        text.append("would trash");
    } else {
        text.append("trashed");
    }
    text.append(" ");
    text.append(decimal(tally.moved).as_str());
    text.append(" path(s) in ");
    text.append(seconds);
    text.append("s (");
    text.append(decimal(tally.errors).as_str());
    text.append(" errors)");
    text
}

/// The run after all `events`.
pub open spec fn after_all(run: TrashRunView, events: Seq<TrashEvent>) -> TrashRunView
    decreases events.len(),
{
    if events.len() == 0 {
        run
    } else {
        after_all(run, events.drop_last()).after(events.last())
    }
}

/// The number of targets that were moved, or would be.
pub open spec fn not_failed(events: Seq<TrashEvent>) -> nat {
    events.filter(|e: TrashEvent| !(e is Failed)).len()
}

/// The number of targets that could not be moved.
pub open spec fn failures(events: Seq<TrashEvent>) -> nat {
    events.filter(|e: TrashEvent| e is Failed).len()
}

/// Every target has its turn once, in order, whatever became of those before it,
/// and is counted once: as an error if it failed, else as moved. When there has
/// been an event for each, the run is done.
pub proof fn law_each_target_counted(run: TrashRunView, events: Seq<TrashEvent>)
    requires
        run.tally == (TrashTally { moved: 0, errors: 0 }),
        run.names.len() <= u64::MAX,
        events.len() <= run.names.len(),
    ensures
        ({
            let now = after_all(run, events);
            &&& now.options == run.options
            &&& now.names == run.names
            &&& now.at() == events.len()
            &&& now.tally.moved == not_failed(events)
            &&& now.tally.errors == failures(events)
            &&& events.len() < run.names.len() ==> now.step() == (if run.options.dry_run {
                TrashStep::Preview(events.len() as usize)
            } else {
                TrashStep::Move(events.len() as usize)
            })
            &&& events.len() == run.names.len() ==> now.step() == TrashStep::Done
        }),
    decreases events.len(),
{
    let worked = |e: TrashEvent| !(e is Failed);
    let broke = |e: TrashEvent| e is Failed;
    if events.len() == 0 {
        assert(events.filter(worked) =~= Seq::empty());
        assert(events.filter(broke) =~= Seq::empty());
    } else {
        let init = events.drop_last();
        law_each_target_counted(run, init);
        init.lemma_filter_push(events.last(), worked);
        init.lemma_filter_push(events.last(), broke);
        assert(events =~= init.push(events.last()));
    }
}

/// A dry run moves nothing.
pub proof fn law_dry_run_moves_nothing(run: TrashRunView)
    requires
        run.options.dry_run,
    ensures
        !(run.step() is Move),
{
}

/// A dry run names every target and counts what the real run counts when
/// nothing fails.
pub proof fn law_dry_run_previews_each_target(
    options: Options,
    tally: TrashTally,
    name: Seq<char>,
)
    ensures
        trash_out(options, name, TrashEvent::Previewed) == Some("would trash "@ + name),
        trash_err(name, TrashEvent::Previewed) is None,
        trash_counted(tally, TrashEvent::Previewed) == trash_counted(tally, TrashEvent::Moved),
{
}

/// What is said of a target rests on what came of it: a preview is always
/// printed, a move if the run is verbose, and a failure is always reported, with
/// the cause.
pub proof fn law_lines_tell_what_came(options: Options, name: Seq<char>, cause: String)
    ensures
        trash_out(options, name, TrashEvent::Previewed) == Some("would trash "@ + name),
        options.verbose ==> trash_out(options, name, TrashEvent::Moved) == Some(name),
        !options.verbose ==> trash_out(options, name, TrashEvent::Moved) is None,
        trash_out(options, name, TrashEvent::Failed(cause)) is None,
        trash_err(name, TrashEvent::Previewed) is None,
        trash_err(name, TrashEvent::Moved) is None,
        trash_err(name, TrashEvent::Failed(cause)) == Some(
            "error: trash "@ + name + ": "@ + cause@,
        ),
{
}

/// The summary tells both counts and the time, and that they are of what would
/// be moved if the run was dry, else of what was.
pub proof fn law_trash_summary_says_what_was_done(
    options: Options,
    tally: TrashTally,
    seconds: Seq<char>,
)
    ensures
        ({
            let counts = decimal_text(tally.moved as nat) + " path(s) in "@ + seconds + "s ("@
                + decimal_text(tally.errors as nat) + " errors)"@;
            &&& options.dry_run ==> trash_summary_text(options, tally, seconds) == "\nRIP: "@
                + "would trash"@ + " "@ + counts
            &&& !options.dry_run ==> trash_summary_text(options, tally, seconds) == "\nRIP: "@
                + "trashed"@ + " "@ + counts
        }),
{
    let counts = decimal_text(tally.moved as nat) + " path(s) in "@ + seconds + "s ("@
        + decimal_text(tally.errors as nat) + " errors)"@;
    let verb = if options.dry_run {
        "would trash"@
    } else {
        "trashed"@
    };
    assert(trash_summary_text(options, tally, seconds) =~= "\nRIP: "@ + verb + " "@ + counts);
}

/// Once every target has been dealt with, nothing more is counted.
pub proof fn law_finished_run_stays(run: TrashRunView, event: TrashEvent)
    requires
        run.tally.moved + run.tally.errors >= run.names.len(),
    ensures
        run.step() == TrashStep::Done,
        run.after(event) == run,
{
}

} // verus!
