//! Ripping one target: what to do with it, what the walk found below it, and
//! what to report for each entry that is removed.
use vstd::prelude::*;
use crate::options::Options;
use crate::path::{depth_of, LexPath};
use crate::schedule::{schedule, Batch, Dir};
use crate::tally::Tally;
#[allow(unused_imports)]
use crate::schedule::{
    depths_agree, has_depth, is_below, is_schedule, law_each_directory_once,
    law_empty_when_reached, lemma_at_depth_holds, lemma_at_depth_source, paths, removal_order,
    standing,
};
#[allow(unused_imports)]
use crate::tally::{
    counts_one, law_each_counted_once, merged, nothing, one_dir, one_error, one_file, total,
};
#[allow(unused_imports)]
use vstd::seq_lib::lemma_multiset_commutative;

verus! {

/// What an entry is, read without following a link.
#[derive(Clone, Copy, PartialEq, Eq, Structural)]
pub enum FileKind {
    Directory,
    File,
    Symlink,
    Other,
}

/// How the tree below a target is walked.
pub struct WalkOptions {
    pub skip_hidden: bool,
    pub follow_links: bool,
}

/// Hidden entries are walked too, and no link is followed: one that points out
/// of the tree is a leaf like any other.
pub fn walk_options() -> (w: WalkOptions)
    ensures
        !w.skip_hidden,
        !w.follow_links,
{
    WalkOptions { skip_hidden: false, follow_links: false }
}

/// The text of an optional line.
pub open spec fn line_text(line: Option<String>) -> Option<Seq<char>> {
    match line {
        Some(s) => Some(s@),
        None => None,
    }
}

/// What is said and counted about one entry: a line for standard output, a line
/// for standard error, the counts, and whether the progress bar moves on.
pub struct Report {
    pub out: Option<String>,
    pub err: Option<String>,
    pub tally: Tally,
    pub tick: bool,
}

/// A report, by its text.
pub struct ReportView {
    pub out: Option<Seq<char>>,
    pub err: Option<Seq<char>>,
    pub tally: Tally,
    pub tick: bool,
}

impl View for Report {
    type V = ReportView;

    open spec fn view(&self) -> ReportView {
        ReportView {
            out: line_text(self.out),
            err: line_text(self.err),
            tally: self.tally,
            tick: self.tick,
        }
    }
}

/// A line that is printed under `--verbose` only.
pub open spec fn verbose_line(options: Options, line: Seq<char>) -> Option<Seq<char>> {
    if options.verbose {
        Some(line)
    } else {
        None
    }
}

/// Whether an entry is really removed or only previewed.
#[derive(Clone, Copy, PartialEq, Eq, Structural)]
pub enum Request {
    Preview,
    Remove,
}

/// What is done with each entry under these options.
pub open spec fn request_for(options: Options) -> Request {
    if options.dry_run {
        Request::Preview
    } else {
        Request::Remove
    }
}

/// What is done with each entry: a dry run previews it, any other run removes
/// it.
pub fn request(options: &Options) -> (r: Request)
    ensures
        r == request_for(*options),
{
    if options.dry_run {
        Request::Preview
    } else {
        Request::Remove
    }
}

/// What is reported of a file that a dry run comes across: that it would be
/// deleted. The bar does not move.
pub open spec fn file_preview(name: Seq<char>) -> ReportView {
    ReportView {
        out: Some("would delete "@ + name),
        err: None,
        tally: one_file(),
        tick: false,
    }
}

/// What is reported of a file of a tree once its removal was tried.
pub open spec fn file_report(
    options: Options,
    tracking: bool,
    name: Seq<char>,
    failure: Option<Seq<char>>,
) -> ReportView {
    match failure {
        None => ReportView {
            out: verbose_line(options, name),
            err: None,
            tally: one_file(),
            tick: tracking,
        },
        Some(cause) => ReportView {
            out: None,
            err: Some("error: remove "@ + name + ": "@ + cause),
            tally: one_error(),
            tick: tracking,
        },
    }
}

/// What is reported of a directory that a dry run comes across: that it would
/// be deleted.
pub open spec fn dir_preview(tracking: bool, name: Seq<char>) -> ReportView {
    ReportView {
        out: Some("would delete "@ + name + "/"@),
        err: None,
        tally: one_dir(),
        tick: tracking,
    }
}

/// What is reported of a directory once its removal was tried.
pub open spec fn dir_report(
    options: Options,
    tracking: bool,
    name: Seq<char>,
    failure: Option<Seq<char>>,
) -> ReportView {
    match failure {
        None => ReportView {
            out: verbose_line(options, name + "/"@),
            err: None,
            tally: one_dir(),
            tick: tracking,
        },
        Some(cause) => ReportView {
            out: None,
            err: Some("error: rmdir "@ + name + ": "@ + cause),
            tally: one_error(),
            tick: tracking,
        },
    }
}

/// The cause of a failed removal.
pub open spec fn failure_text(result: Result<(), String>) -> Option<Seq<char>> {
    match result {
        Ok(_) => None,
        Err(cause) => Some(cause@),
    }
}

/// Joins three pieces of text.
fn join(a: &str, b: &str, c: &str) -> (s: String)
    ensures
        s@ == a@ + b@ + c@,
{
    let mut s = String::new();
    s.append(a);
    s.append(b);
    s.append(c);
    assert(s@ =~= a@ + b@ + c@);
    s
}

/// `line` under `--verbose`, else nothing.
fn if_verbose(options: &Options, line: String) -> (o: Option<String>)
    ensures
        line_text(o) == verbose_line(*options, line@),
{
    if options.verbose {
        Some(line)
    } else {
        None
    }
}

/// Reports a file that a dry run comes across. It is named whether or not paths
/// are printed otherwise: that is what a dry run is for.
pub fn preview_file(name: &str) -> (r: Report)
    ensures
        r@ == file_preview(name@),
{
    let mut line = "would delete ".to_owned();
    line.append(name);
    Report { out: Some(line), err: None, tally: Tally::file(), tick: false }
}

/// Reports a file of a tree whose removal was tried. `tracking` says whether a
/// progress bar is shown.
pub fn file_removed(
    options: &Options,
    tracking: bool,
    name: &str,
    result: Result<(), String>,
) -> (r: Report)
    ensures
        r@ == file_report(*options, tracking, name@, failure_text(result)),
{
    match result {
        Ok(_) => Report {
            out: if_verbose(options, name.to_owned()),
            err: None,
            tally: Tally::file(),
            tick: tracking,
        },
        Err(cause) => {
            let mut line = join("error: remove ", name, ": ");
            line.append(cause.as_str());
            Report { out: None, err: Some(line), tally: Tally::error(), tick: tracking }
        },
    }
}

/// Reports a directory that a dry run comes across. It is named whether or not
/// paths are printed otherwise.
pub fn preview_dir(tracking: bool, name: &str) -> (r: Report)
    ensures
        r@ == dir_preview(tracking, name@),
{
    let line = join("would delete ", name, "/");
    Report { out: Some(line), err: None, tally: Tally::dir(), tick: tracking }
}

/// Reports a directory whose removal was tried.
pub fn dir_removed(
    options: &Options,
    tracking: bool,
    name: &str,
    result: Result<(), String>,
) -> (r: Report)
    ensures
        r@ == dir_report(*options, tracking, name@, failure_text(result)),
{
    match result {
        Ok(_) => {
            let mut line = name.to_owned();
            line.append("/");
            Report {
                out: if_verbose(options, line),
                err: None,
                tally: Tally::dir(),
                tick: tracking,
            }
        },
        Err(cause) => {
            let mut line = join("error: rmdir ", name, ": ");
            line.append(cause.as_str());
            Report { out: None, err: Some(line), tally: Tally::error(), tick: tracking }
        },
    }
}

/// How the ripping of a target goes on.
pub enum Start {
    /// The target cannot be read: ripping it fails with this text.
    Fail(String),
    /// The target is a single entry of a dry run: this is all there is to it.
    Preview(Report),
    /// The target is a single entry: remove it.
    RemoveLeaf,
    /// The target is a directory: walk it.
    Walk,
}

/// A start, by its text.
pub enum StartView {
    Fail(Seq<char>),
    Preview(ReportView),
    RemoveLeaf,
    Walk,
}

impl View for Start {
    type V = StartView;

    open spec fn view(&self) -> StartView {
        match self {
            Start::Fail(text) => StartView::Fail(text@),
            Start::Preview(report) => StartView::Preview(report@),
            Start::RemoveLeaf => StartView::RemoveLeaf,
            Start::Walk => StartView::Walk,
        }
    }
}

/// How the ripping of the target `name` goes on.
pub open spec fn start_of(
    options: Options,
    name: Seq<char>,
    stat: Result<FileKind, String>,
) -> StartView {
    match stat {
        Err(cause) => StartView::Fail("cannot stat "@ + name + ": "@ + cause@),
        Ok(FileKind::Directory) => StartView::Walk,
        Ok(_) => match request_for(options) {
            Request::Preview => StartView::Preview(file_preview(name)),
            Request::Remove => StartView::RemoveLeaf,
        },
    }
}

/// Decides how the target `name` is ripped, given what it was found to be, or
/// why that could not be found out. Anything but a directory, a link to one
/// among them, is a single entry.
pub fn rip_path(options: &Options, name: &str, stat: Result<FileKind, String>) -> (s: Start)
    ensures
        s@ == start_of(*options, name@, stat),
{
    match stat {
        Err(cause) => {
            let mut text = join("cannot stat ", name, ": ");
            text.append(cause.as_str());
            Start::Fail(text)
        },
        Ok(FileKind::Directory) => Start::Walk,
        Ok(_) => match request(options) {
            Request::Preview => Start::Preview(preview_file(name)),
            Request::Remove => Start::RemoveLeaf,
        },
    }
}

/// Why the target `name`, a single entry, could not be ripped.
pub open spec fn leaf_failure(name: Seq<char>, cause: Seq<char>) -> Seq<char> {
    "remove "@ + name + ": "@ + cause
}

/// Reports the removal of a target that is a single entry. A failure is the
/// failure of the whole target and is not counted among the errors.
pub fn leaf_removed(
    options: &Options,
    name: &str,
    result: Result<(), String>,
) -> (r: Result<Report, String>)
    ensures
        match result {
            Ok(_) => r matches Ok(report) && report@ == file_report(*options, false, name@, None),
            Err(cause) => r matches Err(text) && text@ == leaf_failure(name@, cause@),
        },
{
    match result {
        Ok(_) => Ok(file_removed(options, false, name, Ok(()))),
        Err(cause) => {
            let mut text = join("remove ", name, ": ");
            text.append(cause.as_str());
            Err(text)
        },
    }
}

/// An entry that the walk found. `depth` is the number of components of its
/// path.
pub struct Entry<P> {
    pub path: P,
    pub kind: FileKind,
    pub depth: usize,
}

impl<P> Entry<P> {
    /// An entry at `path`, whose components are those of `lexical`.
    pub fn new(path: P, lexical: &LexPath, kind: FileKind) -> (e: Entry<P>)
        ensures
            e == (Entry { path, kind, depth: lexical@.len() as usize }),
            e.depth == lexical@.len(),
    {
        Entry { path, kind, depth: depth_of(lexical) }
    }
}

/// What the walk has found so far.
pub struct Scan<P> {
    pub files: Vec<P>,
    pub dirs: Vec<Dir<P>>,
    pub tally: Tally,
}

/// A scan, by its contents.
pub struct ScanView<P> {
    pub files: Seq<P>,
    pub dirs: Seq<Dir<P>>,
    pub tally: Tally,
}

impl<P> View for Scan<P> {
    type V = ScanView<P>;

    open spec fn view(&self) -> ScanView<P> {
        ScanView { files: self.files@, dirs: self.dirs@, tally: self.tally }
    }
}

/// A scan before the first entry.
pub open spec fn no_entries<P>() -> ScanView<P> {
    ScanView { files: Seq::empty(), dirs: Seq::empty(), tally: nothing() }
}

/// A scan with one more item of the walk: a directory joins the directories,
/// any other entry the files, and an error is counted.
pub open spec fn recorded<P>(scan: ScanView<P>, item: Result<Entry<P>, String>) -> ScanView<P> {
    match item {
        Ok(entry) => if entry.kind == FileKind::Directory {
            ScanView {
                dirs: scan.dirs.push(Dir { depth: entry.depth, path: entry.path }),
                ..scan
            }
        } else {
            ScanView { files: scan.files.push(entry.path), ..scan }
        },
        Err(_) => ScanView { tally: merged(scan.tally, one_error()), ..scan },
    }
}

/// The line about an item of the walk: one that is an error is reported.
pub open spec fn walk_line<P>(item: Result<Entry<P>, String>) -> Option<Seq<char>> {
    match item {
        Ok(_) => None,
        Err(cause) => Some("walk error: "@ + cause@),
    }
}

/// The scan of all `items`, in order.
pub open spec fn scan_of<P>(items: Seq<Result<Entry<P>, String>>) -> ScanView<P>
    decreases items.len(),
{
    if items.len() == 0 {
        no_entries()
    } else {
        recorded(scan_of(items.drop_last()), items.last())
    }
}

impl<P> Scan<P> {
    /// A scan that has found nothing yet.
    pub fn new() -> (s: Scan<P>)
        ensures
            s@ == no_entries::<P>(),
    {
        Scan { files: Vec::new(), dirs: Vec::new(), tally: Tally::zero() }
    }

    /// Takes in one item of the walk. For a walk error, gives the line that
    /// reports it.
    pub fn record(&mut self, item: Result<Entry<P>, String>) -> (line: Option<String>)
        ensures
            final(self)@ == recorded(old(self)@, item),
            line_text(line) == walk_line(item),
    {
        match item {
            Ok(entry) => {
                match entry.kind {
                    FileKind::Directory => {
                        self.dirs.push(Dir { depth: entry.depth, path: entry.path });
                    },
                    _ => {
                        self.files.push(entry.path);
                    },
                }
                None
            },
            Err(cause) => {
                self.tally = self.tally.merge(Tally::error());
                let mut line = "walk error: ".to_owned();
                line.append(cause.as_str());
                Some(line)
            },
        }
    }

    /// The number of entries found so far.
    pub fn entries(&self) -> (n: usize)
        requires
            self.files@.len() + self.dirs@.len() <= usize::MAX,
        ensures
            n == self@.files.len() + self@.dirs.len(),
    {
        self.files.len() + self.dirs.len()
    }

    /// Turns what was found into the order in which it is removed. The errors of
    /// the walk are counted apart from it.
    pub fn plan(self) -> (p: (Plan<P>, Tally))
        ensures
            is_plan(self@, p.0@, p.1),
    {
        let files = self.files;
        let batches = schedule(self.dirs);
        let ghost order = batches@;
        let plan = Plan { files: Some(files), batches };
        assert(plan@ =~= all_steps(files@, order));
        assert(is_schedule(self@.dirs, order));
        (plan, self.tally)
    }
}

/// One step in the removal of a tree. The entries of a step may be removed in
/// any order, and in parallel.
pub enum TreeStep<P> {
    /// Remove these files.
    Files(Vec<P>),
    /// Remove these directories.
    Dirs(Vec<P>),
    /// Everything has had its turn.
    Done,
}

/// A step that removes something, by its paths.
pub enum TreeStepView<P> {
    Files(Seq<P>),
    Dirs(Seq<P>),
}

/// The steps that remove `batches`.
pub open spec fn dir_steps<P>(batches: Seq<Batch<P>>) -> Seq<TreeStepView<P>> {
    batches.map_values(|b: Batch<P>| TreeStepView::Dirs(b.dirs@))
}

/// The steps that remove a tree: its files, then its directories, batch by
/// batch.
pub open spec fn all_steps<P>(files: Seq<P>, batches: Seq<Batch<P>>) -> Seq<TreeStepView<P>> {
    seq![TreeStepView::Files(files)] + dir_steps(batches)
}

/// `steps` remove what `scan` found, and `tally` is what was counted meanwhile.
pub open spec fn is_plan<P>(scan: ScanView<P>, steps: Seq<TreeStepView<P>>, tally: Tally) -> bool {
    &&& exists|batches: Seq<Batch<P>>| #[trigger]
        is_schedule(scan.dirs, batches) && steps == all_steps(scan.files, batches)
    &&& tally == scan.tally
}

/// The removal of a tree, as far as it is still ahead.
pub struct Plan<P> {
    files: Option<Vec<P>>,
    batches: Vec<Batch<P>>,
}

impl<P> View for Plan<P> {
    type V = Seq<TreeStepView<P>>;

    closed spec fn view(&self) -> Seq<TreeStepView<P>> {
        match self.files {
            Some(files) => all_steps(files@, self.batches@),
            None => dir_steps(self.batches@),
        }
    }
}

impl<P> Plan<P> {
    /// Takes the next step from the plan.
    pub fn next(&mut self) -> (step: TreeStep<P>)
        ensures
            match step {
                TreeStep::Files(files) => old(self)@.len() > 0 && old(self)@[0]
                    == TreeStepView::Files(files@) && final(self)@ == old(self)@.skip(1),
                TreeStep::Dirs(dirs) => old(self)@.len() > 0 && old(self)@[0]
                    == TreeStepView::Dirs(dirs@) && final(self)@ == old(self)@.skip(1),
                TreeStep::Done => old(self)@.len() == 0 && final(self)@ == old(self)@,
            },
    {
        match self.files.take() {
            Some(files) => {
                assert(self@ =~= old(self)@.skip(1));
                TreeStep::Files(files)
            },
            None => {
                if self.batches.len() == 0 {
                    return TreeStep::Done;
                }
                let batch = self.batches.remove(0);
                assert(self@ =~= old(self)@.skip(1));
                TreeStep::Dirs(batch.dirs)
            },
        }
    }
}

/// The paths of the entries among `items`, in order.
pub open spec fn found<P>(items: Seq<Result<Entry<P>, String>>) -> Seq<P>
    decreases items.len(),
{
    if items.len() == 0 {
        Seq::empty()
    } else {
        match items.last() {
            Ok(entry) => found(items.drop_last()).push(entry.path),
            Err(_) => found(items.drop_last()),
        }
    }
}

/// Anything that is not a directory, a symbolic link above all, is removed as a
/// file: as the entry itself, never as something to descend into.
pub proof fn law_links_are_leaves<P>(items: Seq<Result<Entry<P>, String>>, i: int)
    requires
        0 <= i < items.len(),
        items[i] matches Ok(entry) && entry.kind != FileKind::Directory,
    ensures
        scan_of(items).files.contains(items[i]->Ok_0.path),
    decreases items.len(),
{
    let before = scan_of(items.drop_last()).files;
    let after = scan_of(items).files;
    if i < items.len() - 1 {
        law_links_are_leaves(items.drop_last(), i);
        let x = choose|x: int| 0 <= x < before.len() && before[x] == items[i]->Ok_0.path;
        assert(after[x] == before[x]);
    } else {
        assert(after[before.len() as int] == items[i]->Ok_0.path);
    }
}

/// Only what the walk found to be a directory is ever removed as a directory.
pub proof fn law_only_directories_are_dirs<P>(items: Seq<Result<Entry<P>, String>>, x: int)
    requires
        0 <= x < scan_of(items).dirs.len(),
    ensures
        exists|i: int|
            0 <= i < items.len() && (#[trigger] items[i] matches Ok(entry) && entry.kind
                == FileKind::Directory && entry.path == scan_of(items).dirs[x].path && entry.depth
                == scan_of(items).dirs[x].depth),
    decreases items.len(),
{
    let init = items.drop_last();
    if x < scan_of(init).dirs.len() {
        law_only_directories_are_dirs(init, x);
        let i = choose|i: int|
            0 <= i < init.len() && (#[trigger] init[i] matches Ok(entry) && entry.kind
                == FileKind::Directory && entry.path == scan_of(init).dirs[x].path && entry.depth
                == scan_of(init).dirs[x].depth);
        assert(items[i] == init[i]);
    } else {
        assert(items[items.len() - 1] is Ok);
    }
}

/// Every directory of the walk was recorded with the number of components of its
/// path.
pub open spec fn depths_recorded<P, C>(
    items: Seq<Result<Entry<P>, String>>,
    components: spec_fn(P) -> Seq<C>,
) -> bool {
    forall|i: int|
        0 <= i < items.len() ==> (#[trigger] items[i] matches Ok(entry) ==> (entry.kind
            == FileKind::Directory ==> entry.depth == components(entry.path).len()))
}

/// A walk whose entries were made from the components of their paths gives a
/// scan of which the depths are right, which is all that the order of removal
/// rests on.
pub proof fn law_scan_depths_agree<P, C>(
    items: Seq<Result<Entry<P>, String>>,
    components: spec_fn(P) -> Seq<C>,
)
    requires
        depths_recorded(items, components),
    ensures
        depths_agree(scan_of(items).dirs, components),
{
    let dirs = scan_of(items).dirs;
    assert forall|x: int| 0 <= x < dirs.len() implies (#[trigger] dirs[x]).depth == components(
        dirs[x].path,
    ).len() by {
        law_only_directories_are_dirs(items, x);
    }
}

/// A plan removes every entry that the walk found, each exactly once: the files
/// and the batches of directories, taken together, are the paths that were
/// found.
pub proof fn law_plan_is_complete<P>(
    items: Seq<Result<Entry<P>, String>>,
    batches: Seq<Batch<P>>,
)
    requires
        is_schedule(scan_of(items).dirs, batches),
    ensures
        (scan_of(items).files + removal_order(batches)).to_multiset() == found(items).to_multiset(),
{
    let scan = scan_of(items);
    law_each_directory_once(scan.dirs, batches);
    lemma_found_split(items);
    lemma_multiset_commutative(scan.files, removal_order(batches));
    lemma_multiset_commutative(scan.files, paths(scan.dirs));
}

/// The files and the directories of a scan are what was found.
proof fn lemma_found_split<P>(items: Seq<Result<Entry<P>, String>>)
    ensures
        (scan_of(items).files + paths(scan_of(items).dirs)).to_multiset()
            == found(items).to_multiset(),
    decreases items.len(),
{
    broadcast use vstd::seq_lib::group_to_multiset_ensures;

    let now = scan_of(items);
    if items.len() == 0 {
        assert(now.files + paths(now.dirs) =~= found(items));
    } else {
        let init = items.drop_last();
        let was = scan_of(init);
        lemma_found_split(init);
        lemma_multiset_commutative(was.files, paths(was.dirs));
        lemma_multiset_commutative(now.files, paths(now.dirs));
        match items.last() {
            Ok(entry) => {
                if entry.kind == FileKind::Directory {
                    assert(paths(now.dirs) =~= paths(was.dirs).push(entry.path));
                }
                assert((now.files + paths(now.dirs)).to_multiset() =~= found(items).to_multiset());
            },
            Err(_) => {},
        }
    }
}

/// No directory is tried before every file has been: the files are the first
/// step, and every later step removes directories.
pub proof fn law_files_first<P>(files: Seq<P>, batches: Seq<Batch<P>>, i: int)
    requires
        0 < i < all_steps(files, batches).len(),
    ensures
        all_steps(files, batches)[0] == TreeStepView::Files(files),
        all_steps(files, batches)[i] == TreeStepView::Dirs(batches[i - 1].dirs@),
{
}

/// `c` is the path of one of `entries`, by its components.
pub open spec fn names_one<P, C>(
    c: Seq<C>,
    entries: Seq<P>,
    components: spec_fn(P) -> Seq<C>,
) -> bool {
    exists|x: int| 0 <= x < entries.len() && c == components(#[trigger] entries[x])
}

/// Nothing in `tree` lies below `c`, so a directory there can be removed.
pub open spec fn is_empty_dir<C>(tree: Set<Seq<C>>, c: Seq<C>) -> bool {
    forall|e: Seq<C>| #[trigger] tree.contains(e) ==> !is_below(e, c)
}

/// A tree, by the components of its entries, after one step of its removal on a
/// disk that lets go of every file and of every directory that is empty when
/// the step starts.
pub open spec fn after_step<P, C>(
    tree: Set<Seq<C>>,
    step: TreeStepView<P>,
    components: spec_fn(P) -> Seq<C>,
) -> Set<Seq<C>> {
    match step {
        TreeStepView::Files(files) => tree.filter(|c: Seq<C>| !names_one(c, files, components)),
        TreeStepView::Dirs(dirs) => tree.filter(
            |c: Seq<C>| !(names_one(c, dirs, components) && is_empty_dir(tree, c)),
        ),
    }
}

/// A tree after all `steps`.
pub open spec fn after_steps<P, C>(
    tree: Set<Seq<C>>,
    steps: Seq<TreeStepView<P>>,
    components: spec_fn(P) -> Seq<C>,
) -> Set<Seq<C>>
    decreases steps.len(),
{
    if steps.len() == 0 {
        tree
    } else {
        after_steps(after_step(tree, steps[0], components), steps.skip(1), components)
    }
}

/// Exactly what the walk found goes: on a disk with whatever else on it, if the
/// walk found all that lies below its directories, the entries that are left
/// after all steps are those that are none of its files and none of its
/// directories. Each directory is empty when its turn comes.
pub proof fn law_only_the_tree_goes<P, C>(
    disk: Set<Seq<C>>,
    files: Seq<P>,
    dirs: Seq<Dir<P>>,
    batches: Seq<Batch<P>>,
    components: spec_fn(P) -> Seq<C>,
)
    requires
        is_schedule(dirs, batches),
        depths_agree(dirs, components),
        forall|c: Seq<C>, x: int|
            #![trigger disk.contains(c), dirs[x]]
            disk.contains(c) && 0 <= x < dirs.len() && is_below(c, components(dirs[x].path))
                ==> names_one(c, files, components) || names_one(c, paths(dirs), components),
    ensures
        after_steps(disk, all_steps(files, batches), components) == disk.filter(
            |c: Seq<C>|
                !names_one(c, files, components) && !names_one(c, paths(dirs), components),
        ),
{
    let steps = all_steps(files, batches);
    let left = after_step(disk, steps[0], components);
    assert forall|c: Seq<C>| #[trigger]
        standing(batches, components, 0).contains(c) == names_one(c, paths(dirs), components) by {
        lemma_batches_name_dirs(dirs, batches, components, c);
    }
    assert forall|c: Seq<C>, j: int, y: int|
        #![trigger left.contains(c), batches[j].dirs@[y]]
        left.contains(c) && 0 <= j < batches.len() && 0 <= y < batches[j].dirs@.len() && is_below(
            c,
            components(batches[j].dirs@[y]),
        ) implies standing(batches, components, 0).contains(c) by {
        let m = lemma_at_depth_source(dirs, batches[j].depth, y);
        assert(disk.contains(c) && is_below(c, components(dirs[m].path)));
    }
    assert(steps.skip(1) =~= dir_steps(batches).skip(0));
    lemma_batches_go(left, dirs, batches, components, 0);
    assert(left.filter(|c: Seq<C>| !standing(batches, components, 0).contains(c)) =~= disk.filter(
        |c: Seq<C>| !names_one(c, files, components) && !names_one(c, paths(dirs), components),
    ));
}

/// The directories of all batches are those that were scheduled.
proof fn lemma_batches_name_dirs<P, C>(
    dirs: Seq<Dir<P>>,
    batches: Seq<Batch<P>>,
    components: spec_fn(P) -> Seq<C>,
    c: Seq<C>,
)
    requires
        is_schedule(dirs, batches),
    ensures
        standing(batches, components, 0).contains(c) == names_one(c, paths(dirs), components),
{
    if names_one(c, paths(dirs), components) {
        let x = choose|x: int|
            0 <= x < paths(dirs).len() && c == components(#[trigger] paths(dirs)[x]);
        assert(has_depth(batches, dirs[x].depth));
        let k = choose|k: int|
            0 <= k < batches.len() && (#[trigger] batches[k]).depth == dirs[x].depth;
        let y = lemma_at_depth_holds(dirs, x);
        assert(batches[k].dirs@[y] == dirs[x].path);
    }
    if standing(batches, components, 0).contains(c) {
        let (j, y) = choose|j: int, y: int|
            0 <= j < batches.len() && 0 <= y < batches[j].dirs@.len() && c == components(
                #[trigger] batches[j].dirs@[y],
            );
        let m = lemma_at_depth_source(dirs, batches[j].depth, y);
        assert(paths(dirs)[m] == batches[j].dirs@[y]);
    }
}

/// Batch `k` and the later ones take away their directories and nothing else, if
/// nothing but these lies below them.
proof fn lemma_batches_go<P, C>(
    disk: Set<Seq<C>>,
    dirs: Seq<Dir<P>>,
    batches: Seq<Batch<P>>,
    components: spec_fn(P) -> Seq<C>,
    k: int,
)
    requires
        is_schedule(dirs, batches),
        depths_agree(dirs, components),
        0 <= k <= batches.len(),
        forall|c: Seq<C>, j: int, y: int|
            #![trigger disk.contains(c), batches[j].dirs@[y]]
            disk.contains(c) && k <= j < batches.len() && 0 <= y < batches[j].dirs@.len()
                && is_below(c, components(batches[j].dirs@[y])) ==> standing(
                batches,
                components,
                k,
            ).contains(c),
    ensures
        after_steps(disk, dir_steps(batches).skip(k), components) == disk.filter(
            |c: Seq<C>| !standing(batches, components, k).contains(c),
        ),
    decreases batches.len() - k,
{
    let steps = dir_steps(batches).skip(k);
    let rest = disk.filter(|c: Seq<C>| !standing(batches, components, k).contains(c));
    if k == batches.len() {
        assert(disk =~= rest);
    } else {
        let now = batches[k].dirs@;
        assert(steps[0] == TreeStepView::Dirs(now));
        let left = after_step(disk, steps[0], components);
        assert forall|c: Seq<C>| #[trigger] disk.contains(c) implies left.contains(c)
            == !names_one(c, now, components) by {
            if names_one(c, now, components) {
                let x = choose|x: int| 0 <= x < now.len() && c == components(#[trigger] now[x]);
                law_empty_when_reached(dirs, batches, components, k, x);
                assert(is_empty_dir(disk, c)) by {
                    assert forall|e: Seq<C>| #[trigger] disk.contains(e) implies !is_below(
                        e,
                        c,
                    ) by {
                        assert(batches[k].dirs@[x] == now[x]);
                    }
                }
            }
        }
        assert forall|c: Seq<C>| #[trigger]
            standing(batches, components, k).contains(c) == (names_one(c, now, components)
                || standing(batches, components, k + 1).contains(c)) by {
            lemma_standing_next(batches, components, k, c);
        }
        assert forall|c: Seq<C>, j: int, y: int|
            #![trigger left.contains(c), batches[j].dirs@[y]]
            left.contains(c) && k + 1 <= j < batches.len() && 0 <= y < batches[j].dirs@.len()
                && is_below(c, components(batches[j].dirs@[y])) implies standing(
            batches,
            components,
            k + 1,
        ).contains(c) by {
            assert(disk.contains(c));
            assert(standing(batches, components, k).contains(c));
        }
        assert(steps.skip(1) =~= dir_steps(batches).skip(k + 1));
        lemma_batches_go(left, dirs, batches, components, k + 1);
        assert(left.filter(|c: Seq<C>| !standing(batches, components, k + 1).contains(c))
            =~= rest);
    }
}

/// What stands when a batch starts is the batch and what stands after it.
proof fn lemma_standing_next<P, C>(
    batches: Seq<Batch<P>>,
    components: spec_fn(P) -> Seq<C>,
    k: int,
    c: Seq<C>,
)
    requires
        0 <= k < batches.len(),
    ensures
        standing(batches, components, k).contains(c) == (names_one(
            c,
            batches[k].dirs@,
            components,
        ) || standing(batches, components, k + 1).contains(c)),
{
    if names_one(c, batches[k].dirs@, components) {
        let y = choose|y: int|
            0 <= y < batches[k].dirs@.len() && c == components(#[trigger] batches[k].dirs@[y]);
        assert(c == components(batches[k].dirs@[y]));
    }
}

/// A plan leaves nothing behind: a tree of which the walk found every entry is
/// gone after all steps.
pub proof fn law_tree_is_removed<P, C>(
    tree: Set<Seq<C>>,
    files: Seq<P>,
    dirs: Seq<Dir<P>>,
    batches: Seq<Batch<P>>,
    components: spec_fn(P) -> Seq<C>,
)
    requires
        is_schedule(dirs, batches),
        depths_agree(dirs, components),
        forall|c: Seq<C>| #[trigger]
            tree.contains(c) ==> names_one(c, files, components) || names_one(
                c,
                paths(dirs),
                components,
            ),
    ensures
        after_steps(tree, all_steps(files, batches), components) == Set::<Seq<C>>::empty(),
{
    law_only_the_tree_goes(tree, files, dirs, batches, components);
    assert(tree.filter(
        |c: Seq<C>| !names_one(c, files, components) && !names_one(c, paths(dirs), components),
    ) =~= Set::<Seq<C>>::empty());
}

/// Nothing but what the walk found is removed: an entry that is none of the
/// files and none of the directories is still there after all steps.
pub proof fn law_rest_is_untouched<P, C>(
    tree: Set<Seq<C>>,
    files: Seq<P>,
    dirs: Seq<Dir<P>>,
    batches: Seq<Batch<P>>,
    components: spec_fn(P) -> Seq<C>,
    c: Seq<C>,
)
    requires
        is_schedule(dirs, batches),
        tree.contains(c),
        !names_one(c, files, components),
        !names_one(c, paths(dirs), components),
    ensures
        after_steps(tree, all_steps(files, batches), components).contains(c),
{
    let steps = all_steps(files, batches);
    assert forall|i: int| 0 <= i < steps.len() implies !step_names(
        #[trigger] steps[i],
        c,
        components,
    ) by {
        if i > 0 {
            let now = batches[i - 1].dirs@;
            if names_one(c, now, components) {
                let x = choose|x: int| 0 <= x < now.len() && c == components(#[trigger] now[x]);
                let m = lemma_at_depth_source(dirs, batches[i - 1].depth, x);
                assert(paths(dirs)[m] == now[x]);
            }
        }
    }
    lemma_unnamed_stays(tree, steps, components, c);
}

/// A step removes the entry at `c`.
pub open spec fn step_names<P, C>(
    step: TreeStepView<P>,
    c: Seq<C>,
    components: spec_fn(P) -> Seq<C>,
) -> bool {
    match step {
        TreeStepView::Files(files) => names_one(c, files, components),
        TreeStepView::Dirs(dirs) => names_one(c, dirs, components),
    }
}

/// An entry that no step names stays.
proof fn lemma_unnamed_stays<P, C>(
    tree: Set<Seq<C>>,
    steps: Seq<TreeStepView<P>>,
    components: spec_fn(P) -> Seq<C>,
    c: Seq<C>,
)
    requires
        tree.contains(c),
        forall|i: int|
            0 <= i < steps.len() ==> !step_names(#[trigger] steps[i], c, components),
    ensures
        after_steps(tree, steps, components).contains(c),
    decreases steps.len(),
{
    if steps.len() > 0 {
        assert(!step_names(steps[0], c, components));
        let left = after_step(tree, steps[0], components);
        assert(left.contains(c));
        assert forall|i: int| 0 <= i < steps.skip(1).len() implies !step_names(
            #[trigger] steps.skip(1)[i],
            c,
            components,
        ) by {
            assert(steps.skip(1)[i] == steps[i + 1]);
        }
        lemma_unnamed_stays(left, steps.skip(1), components, c);
    }
}

/// Whatever becomes of an entry, it is counted exactly once.
pub proof fn law_report_counts_one(
    options: Options,
    tracking: bool,
    name: Seq<char>,
    failure: Option<Seq<char>>,
)
    ensures
        counts_one(file_preview(name).tally),
        counts_one(dir_preview(tracking, name).tally),
        counts_one(file_report(options, tracking, name, failure).tally),
        counts_one(dir_report(options, tracking, name, failure).tally),
{
}

/// What is counted for a file that goes without trouble: a dry run counts its
/// preview, any other run its removal.
pub open spec fn file_counted(options: Options, tracking: bool, name: Seq<char>) -> Tally {
    match request_for(options) {
        Request::Preview => file_preview(name).tally,
        Request::Remove => file_report(options, tracking, name, None).tally,
    }
}

/// What is counted for a directory that goes without trouble.
pub open spec fn dir_counted(options: Options, tracking: bool, name: Seq<char>) -> Tally {
    match request_for(options) {
        Request::Preview => dir_preview(tracking, name).tally,
        Request::Remove => dir_report(options, tracking, name, None).tally,
    }
}

/// What is counted for a tree whose files and directories all go without
/// trouble.
pub open spec fn tree_counted(
    options: Options,
    tracking: bool,
    files: Seq<Seq<char>>,
    dirs: Seq<Seq<char>>,
) -> Tally {
    merged(
        total(files.map_values(|name: Seq<char>| file_counted(options, tracking, name))),
        total(dirs.map_values(|name: Seq<char>| dir_counted(options, tracking, name))),
    )
}

/// A dry run counts what the real run counts: for every file, every directory
/// and so every tree, the numbers of a preview are those of a removal in which
/// nothing fails, whatever else the two runs were asked for and whether or not
/// they draw a bar.
pub proof fn law_dry_run_counts_alike(
    dry: Options,
    earnest: Options,
    tracking: bool,
    drawn: bool,
    files: Seq<Seq<char>>,
    dirs: Seq<Seq<char>>,
)
    requires
        dry.dry_run,
        !earnest.dry_run,
    ensures
        forall|name: Seq<char>| #[trigger]
            file_counted(dry, tracking, name) == file_counted(earnest, drawn, name),
        forall|name: Seq<char>| #[trigger]
            dir_counted(dry, tracking, name) == dir_counted(earnest, drawn, name),
        tree_counted(dry, tracking, files, dirs) == tree_counted(earnest, drawn, files, dirs),
{
    assert(files.map_values(|name: Seq<char>| file_counted(dry, tracking, name))
        =~= files.map_values(|name: Seq<char>| file_counted(earnest, drawn, name)));
    assert(dirs.map_values(|name: Seq<char>| dir_counted(dry, tracking, name))
        =~= dirs.map_values(|name: Seq<char>| dir_counted(earnest, drawn, name)));
}

/// A dry run prints exactly what would be deleted: a line for every file and
/// every directory, with its name, and nothing on standard error.
pub proof fn law_dry_run_names_each_entry(
    options: Options,
    tracking: bool,
    name: Seq<char>,
    stat: Result<FileKind, String>,
)
    requires
        options.dry_run,
    ensures
        file_preview(name).out == Some("would delete "@ + name),
        file_preview(name).err is None,
        dir_preview(tracking, name).out == Some("would delete "@ + name + "/"@),
        dir_preview(tracking, name).err is None,
        stat matches Ok(kind) && kind != FileKind::Directory ==> start_of(options, name, stat)
            == StartView::Preview(file_preview(name)),
{
}

/// A bar that is shown moves by one for every entry whose removal was tried,
/// failed or not, and a bar that is not shown is never touched.
pub proof fn law_bar_follows_removals(
    options: Options,
    tracking: bool,
    name: Seq<char>,
    failure: Option<Seq<char>>,
)
    ensures
        file_report(options, tracking, name, failure).tick == tracking,
        dir_report(options, tracking, name, failure).tick == tracking,
        file_preview(name).tick ==> tracking,
        dir_preview(tracking, name).tick ==> tracking,
{
}

/// The summary of a tree accounts for the whole walk: when each file and each
/// directory of the plan is counted once, the files, the directories and the
/// errors add up to the number of items that the walk gave.
pub proof fn law_summary_accounts_for_walk<P>(
    items: Seq<Result<Entry<P>, String>>,
    parts: Seq<Tally>,
)
    requires
        items.len() <= u64::MAX,
        parts.len() == scan_of(items).files.len() + scan_of(items).dirs.len(),
        forall|i: int| 0 <= i < parts.len() ==> counts_one(#[trigger] parts[i]),
    ensures
        ({
            let t = merged(scan_of(items).tally, total(parts));
            t.files + t.dirs + t.errors == items.len()
        }),
{
    lemma_scan_counts(items);
    law_each_counted_once(parts);
}

/// A removal that was tried: the name of the entry and, if it failed, why.
pub struct Tried {
    pub name: Seq<char>,
    pub failure: Option<Seq<char>>,
}

/// The number of removals that worked.
pub open spec fn went(tried: Seq<Tried>) -> nat {
    tried.filter(|t: Tried| t.failure is None).len()
}

/// The number of removals that failed.
pub open spec fn failed(tried: Seq<Tried>) -> nat {
    tried.filter(|t: Tried| t.failure is Some).len()
}

/// The number of items of a walk that are errors.
pub open spec fn walk_errors<P>(items: Seq<Result<Entry<P>, String>>) -> nat {
    items.filter(|item: Result<Entry<P>, String>| item is Err).len()
}

/// What is counted for each file whose removal was tried.
pub open spec fn file_tallies(options: Options, tracking: bool, tried: Seq<Tried>) -> Seq<Tally> {
    tried.map_values(|t: Tried| file_report(options, tracking, t.name, t.failure).tally)
}

/// What is counted for each directory whose removal was tried.
pub open spec fn dir_tallies(options: Options, tracking: bool, tried: Seq<Tried>) -> Seq<Tally> {
    tried.map_values(|t: Tried| dir_report(options, tracking, t.name, t.failure).tally)
}

/// The summary of a tree tells what became of it: its files are the removals of
/// files that worked, its directories those of directories, and its errors are
/// the errors of the walk and the removals that failed, of either kind.
pub proof fn law_summary_counts_by_kind<P>(
    options: Options,
    tracking: bool,
    items: Seq<Result<Entry<P>, String>>,
    files: Seq<Tried>,
    dirs: Seq<Tried>,
)
    requires
        items.len() <= u64::MAX,
        files.len() == scan_of(items).files.len(),
        dirs.len() == scan_of(items).dirs.len(),
    ensures
        ({
            let t = merged(
                scan_of(items).tally,
                merged(
                    total(file_tallies(options, tracking, files)),
                    total(dir_tallies(options, tracking, dirs)),
                ),
            );
            &&& t.files == went(files)
            &&& t.dirs == went(dirs)
            &&& t.errors == walk_errors(items) + failed(files) + failed(dirs)
        }),
{
    lemma_scan_counts(items);
    lemma_walk_errors(items);
    lemma_file_tallies(options, tracking, files);
    lemma_dir_tallies(options, tracking, dirs);
}

/// The summary of a dry run tells what the walk found: every file, every
/// directory and every error of the walk.
pub proof fn law_dry_run_counts_what_was_found<P>(
    options: Options,
    tracking: bool,
    items: Seq<Result<Entry<P>, String>>,
    files: Seq<Seq<char>>,
    dirs: Seq<Seq<char>>,
)
    requires
        options.dry_run,
        items.len() <= u64::MAX,
        files.len() == scan_of(items).files.len(),
        dirs.len() == scan_of(items).dirs.len(),
    ensures
        ({
            let t = merged(scan_of(items).tally, tree_counted(options, tracking, files, dirs));
            &&& t.files == files.len()
            &&& t.dirs == dirs.len()
            &&& t.errors == walk_errors(items)
        }),
{
    lemma_scan_counts(items);
    lemma_walk_errors(items);
    let file_parts = files.map_values(|name: Seq<char>| file_counted(options, tracking, name));
    let dir_parts = dirs.map_values(|name: Seq<char>| dir_counted(options, tracking, name));
    lemma_same_parts(file_parts, one_file());
    lemma_same_parts(dir_parts, one_dir());
}

/// Parts that each count one file, or each one directory, add up to their
/// number.
proof fn lemma_same_parts(parts: Seq<Tally>, one: Tally)
    requires
        one == one_file() || one == one_dir(),
        parts.len() <= u64::MAX,
        forall|i: int| 0 <= i < parts.len() ==> #[trigger] parts[i] == one,
    ensures
        total(parts).files == (if one == one_file() {
            parts.len()
        } else {
            0
        }),
        total(parts).dirs == (if one == one_dir() {
            parts.len()
        } else {
            0
        }),
        total(parts).errors == 0,
    decreases parts.len(),
{
    if parts.len() > 0 {
        lemma_same_parts(parts.drop_last(), one);
        assert(parts.last() == one);
    }
}

/// The errors of a scan are those of the walk.
proof fn lemma_walk_errors<P>(items: Seq<Result<Entry<P>, String>>)
    requires
        items.len() <= u64::MAX,
    ensures
        scan_of(items).tally.errors == walk_errors(items),
        walk_errors(items) <= items.len(),
    decreases items.len(),
{
    let pred = |item: Result<Entry<P>, String>| item is Err;
    if items.len() == 0 {
        assert(items.filter(pred) =~= Seq::empty());
    } else {
        let init = items.drop_last();
        lemma_walk_errors(init);
        init.lemma_filter_push(items.last(), pred);
        assert(items =~= init.push(items.last()));
    }
}

/// A removal worked or failed.
proof fn lemma_went_or_failed(tried: Seq<Tried>)
    ensures
        tried.len() == 0 ==> went(tried) == 0 && failed(tried) == 0,
        tried.len() > 0 ==> went(tried) == went(tried.drop_last()) + (if tried.last().failure
            is None {
            1nat
        } else {
            0nat
        }),
        tried.len() > 0 ==> failed(tried) == failed(tried.drop_last()) + (if tried.last().failure
            is Some {
            1nat
        } else {
            0nat
        }),
{
    let worked = |t: Tried| t.failure is None;
    let broke = |t: Tried| t.failure is Some;
    if tried.len() == 0 {
        assert(tried.filter(worked) =~= Seq::empty());
        assert(tried.filter(broke) =~= Seq::empty());
    } else {
        let init = tried.drop_last();
        init.lemma_filter_push(tried.last(), worked);
        init.lemma_filter_push(tried.last(), broke);
        assert(tried =~= init.push(tried.last()));
    }
}

/// The counts of the files of a tree.
proof fn lemma_file_tallies(options: Options, tracking: bool, tried: Seq<Tried>)
    requires
        tried.len() <= u64::MAX,
    ensures
        ({
            let t = total(file_tallies(options, tracking, tried));
            &&& t.files == went(tried)
            &&& t.dirs == 0
            &&& t.errors == failed(tried)
        }),
        went(tried) + failed(tried) == tried.len(),
    decreases tried.len(),
{
    lemma_went_or_failed(tried);
    if tried.len() > 0 {
        let init = tried.drop_last();
        lemma_file_tallies(options, tracking, init);
        assert(file_tallies(options, tracking, tried).drop_last() =~= file_tallies(
            options,
            tracking,
            init,
        ));
    }
}

/// The counts of the directories of a tree.
proof fn lemma_dir_tallies(options: Options, tracking: bool, tried: Seq<Tried>)
    requires
        tried.len() <= u64::MAX,
    ensures
        ({
            let t = total(dir_tallies(options, tracking, tried));
            &&& t.files == 0
            &&& t.dirs == went(tried)
            &&& t.errors == failed(tried)
        }),
        went(tried) + failed(tried) == tried.len(),
    decreases tried.len(),
{
    lemma_went_or_failed(tried);
    if tried.len() > 0 {
        let init = tried.drop_last();
        lemma_dir_tallies(options, tracking, init);
        assert(dir_tallies(options, tracking, tried).drop_last() =~= dir_tallies(
            options,
            tracking,
            init,
        ));
    }
}

/// Each item of a walk is a file, a directory or an error.
proof fn lemma_scan_counts<P>(items: Seq<Result<Entry<P>, String>>)
    requires
        items.len() <= u64::MAX,
    ensures
        ({
            let s = scan_of(items);
            &&& s.files.len() + s.dirs.len() + s.tally.errors == items.len()
            &&& s.tally.files == 0
            &&& s.tally.dirs == 0
        }),
    decreases items.len(),
{
    if items.len() > 0 {
        lemma_scan_counts(items.drop_last());
    }
}

/// What is asked for is done: unless the run is dry, every entry is removed,
/// whatever else the run was asked for, and in a dry run none is.
pub proof fn law_every_other_run_removes(options: Options)
    ensures
        request_for(options) == Request::Remove <==> !options.dry_run,
        request_for(options) == Request::Preview <==> options.dry_run,
{
}

/// How a target starts rests on what it is, and for a single entry on whether
/// the run is dry: a directory is walked, anything else is removed or previewed
/// as one file, and what cannot be read fails with the cause.
pub proof fn law_targets_start_by_kind(
    options: Options,
    name: Seq<char>,
    kind: FileKind,
    cause: String,
)
    ensures
        start_of(options, name, Ok(FileKind::Directory)) == StartView::Walk,
        kind != FileKind::Directory && !options.dry_run ==> start_of(options, name, Ok(kind))
            == StartView::RemoveLeaf,
        kind != FileKind::Directory && options.dry_run ==> start_of(options, name, Ok(kind))
            == StartView::Preview(
            ReportView {
                out: Some("would delete "@ + name),
                err: None,
                tally: Tally { files: 1, dirs: 0, errors: 0 },
                tick: false,
            },
        ),
        start_of(options, name, Err(cause)) == StartView::Fail(
            "cannot stat "@ + name + ": "@ + cause@,
        ),
        leaf_failure(name, cause@) == "remove "@ + name + ": "@ + cause@,
{
}

/// What is said and counted of an entry rests on what came of it: one that went
/// is counted by its kind and printed if the run is verbose, a directory with a
/// slash, and one that stayed is an error that is always reported.
pub proof fn law_reports_tell_what_came(
    options: Options,
    tracking: bool,
    name: Seq<char>,
    cause: Seq<char>,
)
    ensures
        ({
            let r = file_report(options, tracking, name, None);
            &&& options.verbose ==> r.out == Some(name)
            &&& !options.verbose ==> r.out is None
            &&& r.err is None
            &&& r.tally.files == 1 && r.tally.dirs == 0 && r.tally.errors == 0
        }),
        ({
            let r = dir_report(options, tracking, name, None);
            &&& options.verbose ==> r.out == Some(name + "/"@)
            &&& !options.verbose ==> r.out is None
            &&& r.err is None
            &&& r.tally.files == 0 && r.tally.dirs == 1 && r.tally.errors == 0
        }),
        ({
            let r = file_report(options, tracking, name, Some(cause));
            &&& r.out is None
            &&& r.err == Some("error: remove "@ + name + ": "@ + cause)
            &&& r.tally.files == 0 && r.tally.dirs == 0 && r.tally.errors == 1
        }),
        ({
            let r = dir_report(options, tracking, name, Some(cause));
            &&& r.out is None
            &&& r.err == Some("error: rmdir "@ + name + ": "@ + cause)
            &&& r.tally.files == 0 && r.tally.dirs == 0 && r.tally.errors == 1
        }),
        file_preview(name).tally.files == 1 && file_preview(name).tally.dirs == 0
            && file_preview(name).tally.errors == 0,
        dir_preview(tracking, name).tally.files == 0 && dir_preview(tracking, name).tally.dirs == 1
            && dir_preview(tracking, name).tally.errors == 0,
        dir_preview(tracking, name).tick == tracking,
        !file_preview(name).tick,
{
}

/// The cause of a failed removal is what the system said, and a removal that
/// worked has none.
pub proof fn law_causes_are_kept(cause: String)
    ensures
        failure_text(Ok(())) is None,
        failure_text(Err(cause)) == Some(cause@),
{
}

/// An error of the walk is reported with its cause, and nothing else is.
pub proof fn law_walk_errors_are_reported<P>(entry: Entry<P>, cause: String)
    ensures
        walk_line::<P>(Ok(entry)) is None,
        walk_line::<P>(Err(cause)) == Some("walk error: "@ + cause@),
{
}

/// A walk is split by what its entries are, and by nothing else: the directories
/// of the scan are the entries that are directories, each with its path and its
/// depth, its files are all the other entries, and both are in the order of the
/// walk.
pub proof fn law_scan_splits_the_walk<P>(items: Seq<Result<Entry<P>, String>>)
    ensures
        scan_of(items).dirs == items.filter(
            |item: Result<Entry<P>, String>|
                item is Ok && item->Ok_0.kind == FileKind::Directory,
        ).map_values(
            |item: Result<Entry<P>, String>|
                Dir { depth: item->Ok_0.depth, path: item->Ok_0.path },
        ),
        scan_of(items).files == items.filter(
            |item: Result<Entry<P>, String>|
                item is Ok && item->Ok_0.kind != FileKind::Directory,
        ).map_values(|item: Result<Entry<P>, String>| item->Ok_0.path),
    decreases items.len(),
{
    let is_dir = |item: Result<Entry<P>, String>|
        item is Ok && item->Ok_0.kind == FileKind::Directory;
    let is_leaf = |item: Result<Entry<P>, String>|
        item is Ok && item->Ok_0.kind != FileKind::Directory;
    let dir = |item: Result<Entry<P>, String>|
        Dir { depth: item->Ok_0.depth, path: item->Ok_0.path };
    let path = |item: Result<Entry<P>, String>| item->Ok_0.path;
    if items.len() == 0 {
        assert(items.filter(is_dir) =~= Seq::empty());
        assert(items.filter(is_leaf) =~= Seq::empty());
        assert(scan_of(items).dirs =~= items.filter(is_dir).map_values(dir));
        assert(scan_of(items).files =~= items.filter(is_leaf).map_values(path));
    } else {
        let init = items.drop_last();
        law_scan_splits_the_walk(init);
        init.lemma_filter_push(items.last(), is_dir);
        init.lemma_filter_push(items.last(), is_leaf);
        assert(items =~= init.push(items.last()));
        assert(scan_of(items).dirs =~= items.filter(is_dir).map_values(dir));
        assert(scan_of(items).files =~= items.filter(is_leaf).map_values(path));
    }
}

/// Every directory that the walk found is removed as one, with its path and its
/// depth, however deep it lies.
pub proof fn law_directories_are_dirs<P>(items: Seq<Result<Entry<P>, String>>, i: int)
    requires
        0 <= i < items.len(),
        items[i] matches Ok(entry) && entry.kind == FileKind::Directory,
    ensures
        exists|x: int|
            0 <= x < scan_of(items).dirs.len() && (#[trigger] scan_of(items).dirs[x]).path
                == items[i]->Ok_0.path && scan_of(items).dirs[x].depth == items[i]->Ok_0.depth,
    decreases items.len(),
{
    let before = scan_of(items.drop_last()).dirs;
    let after = scan_of(items).dirs;
    if i < items.len() - 1 {
        law_directories_are_dirs(items.drop_last(), i);
        let x = choose|x: int|
            0 <= x < before.len() && (#[trigger] before[x]).path == items[i]->Ok_0.path
                && before[x].depth == items[i]->Ok_0.depth;
        assert(after[x] == before[x]);
    } else {
        assert(after[before.len() as int].path == items[i]->Ok_0.path);
    }
}

/// No directory is removed as a file: every file of the scan is an entry that
/// the walk found to be something else.
pub proof fn law_files_are_no_directories<P>(items: Seq<Result<Entry<P>, String>>, x: int)
    requires
        0 <= x < scan_of(items).files.len(),
    ensures
        exists|i: int|
            0 <= i < items.len() && (#[trigger] items[i] matches Ok(entry) && entry.kind
                != FileKind::Directory && entry.path == scan_of(items).files[x]),
    decreases items.len(),
{
    let init = items.drop_last();
    if x < scan_of(init).files.len() {
        law_files_are_no_directories(init, x);
        let i = choose|i: int|
            0 <= i < init.len() && (#[trigger] init[i] matches Ok(entry) && entry.kind
                != FileKind::Directory && entry.path == scan_of(init).files[x]);
        assert(items[i] == init[i]);
    } else {
        assert(items[items.len() - 1] is Ok);
    }
}

/// A disk, by the components and the kind of its entries, after one step on a
/// system that is strict about them: a directory cannot be removed as a file,
/// nothing else can be removed as a directory, and a directory goes only if it
/// is empty when the step starts.
pub open spec fn after_strict_step<P, C>(
    disk: Map<Seq<C>, FileKind>,
    step: TreeStepView<P>,
    components: spec_fn(P) -> Seq<C>,
) -> Map<Seq<C>, FileKind> {
    match step {
        TreeStepView::Files(files) => disk.restrict(
            disk.dom().filter(
                |c: Seq<C>|
                    !(names_one(c, files, components) && disk[c] != FileKind::Directory),
            ),
        ),
        TreeStepView::Dirs(dirs) => disk.restrict(
            disk.dom().filter(
                |c: Seq<C>|
                    !(names_one(c, dirs, components) && disk[c] == FileKind::Directory
                        && is_empty_dir(disk.dom(), c)),
            ),
        ),
    }
}

/// Such a disk after all `steps`.
pub open spec fn after_strict_steps<P, C>(
    disk: Map<Seq<C>, FileKind>,
    steps: Seq<TreeStepView<P>>,
    components: spec_fn(P) -> Seq<C>,
) -> Map<Seq<C>, FileKind>
    decreases steps.len(),
{
    if steps.len() == 0 {
        disk
    } else {
        after_strict_steps(
            after_strict_step(disk, steps[0], components),
            steps.skip(1),
            components,
        )
    }
}

/// The walk came across an entry at `c`.
pub open spec fn walked<P, C>(
    items: Seq<Result<Entry<P>, String>>,
    components: spec_fn(P) -> Seq<C>,
    c: Seq<C>,
) -> bool {
    exists|j: int|
        0 <= j < items.len() && (#[trigger] items[j] matches Ok(entry) && components(entry.path)
            == c)
}

/// From the walk to the empty place: if the walk told of each entry what it is
/// and where, and left out nothing below a directory that it found, then after
/// all steps every entry that it found is gone, as the kind of entry that it
/// is, and everything else on the disk is there as before.
pub proof fn law_walked_tree_goes<P, C>(
    disk: Map<Seq<C>, FileKind>,
    items: Seq<Result<Entry<P>, String>>,
    batches: Seq<Batch<P>>,
    components: spec_fn(P) -> Seq<C>,
)
    requires
        is_schedule(scan_of(items).dirs, batches),
        depths_recorded(items, components),
        forall|i: int|
            0 <= i < items.len() ==> (#[trigger] items[i] matches Ok(entry)
                ==> disk.contains_key(components(entry.path)) && disk[components(entry.path)]
                == entry.kind),
        forall|c: Seq<C>, i: int|
            #![trigger disk.contains_key(c), items[i]]
            disk.contains_key(c) && 0 <= i < items.len() && (items[i] matches Ok(entry)
                && entry.kind == FileKind::Directory && is_below(c, components(entry.path)))
                ==> walked(items, components, c),
    ensures
        after_strict_steps(
            disk,
            all_steps(scan_of(items).files, batches),
            components,
        ).dom() == disk.dom().filter(|c: Seq<C>| !walked(items, components, c)),
{
    let files = scan_of(items).files;
    let dirs = scan_of(items).dirs;
    let steps = all_steps(files, batches);
    assert forall|c: Seq<C>| #[trigger] walked(items, components, c) == (names_one(
        c,
        files,
        components,
    ) || names_one(c, paths(dirs), components)) by {
        lemma_walked_is_named(items, components, c);
    }
    assert forall|c: Seq<C>| #[trigger] names_one(c, files, components) implies disk[c]
        != FileKind::Directory by {
        let x = choose|x: int| 0 <= x < files.len() && c == components(#[trigger] files[x]);
        law_files_are_no_directories(items, x);
    }
    assert forall|c: Seq<C>| #[trigger] names_one(c, paths(dirs), components) implies disk[c]
        == FileKind::Directory by {
        let x = choose|x: int|
            0 <= x < paths(dirs).len() && c == components(#[trigger] paths(dirs)[x]);
        law_only_directories_are_dirs(items, x);
    }
    law_scan_depths_agree(items, components);
    assert forall|c: Seq<C>, x: int|
        #![trigger disk.dom().contains(c), dirs[x]]
        disk.dom().contains(c) && 0 <= x < dirs.len() && is_below(
            c,
            components(dirs[x].path),
        ) implies names_one(c, files, components) || names_one(c, paths(dirs), components) by {
        law_only_directories_are_dirs(items, x);
        assert(disk.contains_key(c));
        assert(walked(items, components, c));
    }
    law_only_the_tree_goes(disk.dom(), files, dirs, batches, components);
    assert forall|i: int, c: Seq<C>| 0 <= i < steps.len() && step_names(
        #[trigger] steps[i],
        c,
        components,
    ) && #[trigger] disk.contains_key(c) implies (disk[c] == FileKind::Directory) == (steps[i]
        is Dirs) by {
        if i > 0 {
            assert(steps[i] == TreeStepView::Dirs(batches[i - 1].dirs@));
            let now = batches[i - 1].dirs@;
            let x = choose|x: int| 0 <= x < now.len() && c == components(#[trigger] now[x]);
            let m = lemma_at_depth_source(dirs, batches[i - 1].depth, x);
            assert(paths(dirs)[m] == now[x]);
            assert(names_one(c, paths(dirs), components));
        } else {
            assert(names_one(c, files, components));
        }
    }
    lemma_strict_steps(disk, steps, components);
    assert(disk.dom().filter(|c: Seq<C>| !walked(items, components, c)) =~= disk.dom().filter(
        |c: Seq<C>| !names_one(c, files, components) && !names_one(c, paths(dirs), components),
    ));
}

/// What the walk came across is what the scan holds.
proof fn lemma_walked_is_named<P, C>(
    items: Seq<Result<Entry<P>, String>>,
    components: spec_fn(P) -> Seq<C>,
    c: Seq<C>,
)
    ensures
        walked(items, components, c) == (names_one(c, scan_of(items).files, components)
            || names_one(c, paths(scan_of(items).dirs), components)),
{
    let files = scan_of(items).files;
    let dirs = scan_of(items).dirs;
    if walked(items, components, c) {
        let j = choose|j: int|
            0 <= j < items.len() && (#[trigger] items[j] matches Ok(entry) && components(
                entry.path,
            ) == c);
        if items[j]->Ok_0.kind == FileKind::Directory {
            law_directories_are_dirs(items, j);
            let x = choose|x: int|
                0 <= x < dirs.len() && (#[trigger] dirs[x]).path == items[j]->Ok_0.path
                    && dirs[x].depth == items[j]->Ok_0.depth;
            assert(c == components(paths(dirs)[x]));
        } else {
            law_links_are_leaves(items, j);
            let x = choose|x: int| 0 <= x < files.len() && files[x] == items[j]->Ok_0.path;
            assert(c == components(files[x]));
        }
    }
    if names_one(c, files, components) {
        let x = choose|x: int| 0 <= x < files.len() && c == components(#[trigger] files[x]);
        law_files_are_no_directories(items, x);
    }
    if names_one(c, paths(dirs), components) {
        let x = choose|x: int|
            0 <= x < paths(dirs).len() && c == components(#[trigger] paths(dirs)[x]);
        law_only_directories_are_dirs(items, x);
    }
}

/// Where every step is about entries of its own kind, a strict system removes
/// what any other does.
proof fn lemma_strict_steps<P, C>(
    disk: Map<Seq<C>, FileKind>,
    steps: Seq<TreeStepView<P>>,
    components: spec_fn(P) -> Seq<C>,
)
    requires
        forall|i: int, c: Seq<C>|
            0 <= i < steps.len() && step_names(#[trigger] steps[i], c, components)
                && #[trigger] disk.contains_key(c) ==> (disk[c] == FileKind::Directory) == (steps[i]
                is Dirs),
    ensures
        after_strict_steps(disk, steps, components).dom() == after_steps(
            disk.dom(),
            steps,
            components,
        ),
    decreases steps.len(),
{
    if steps.len() > 0 {
        let left = after_strict_step(disk, steps[0], components);
        assert forall|c: Seq<C>| left.dom().contains(c) == after_step(
            disk.dom(),
            steps[0],
            components,
        ).contains(c) by {
            assert(disk.dom().contains(c) == disk.contains_key(c));
        }
        assert(left.dom() =~= after_step(disk.dom(), steps[0], components));
        let rest = steps.skip(1);
        assert forall|i: int, c: Seq<C>| 0 <= i < rest.len() && step_names(
            #[trigger] rest[i],
            c,
            components,
        ) && #[trigger] left.contains_key(c) implies (left[c] == FileKind::Directory) == (rest[i]
            is Dirs) by {
            assert(rest[i] == steps[i + 1]);
            assert(disk.contains_key(c) && left[c] == disk[c]);
        }
        lemma_strict_steps(left, rest, components);
    }
}

/// What is decided for a target is what is done: a start and a report are no
/// other by their text than by themselves.
pub proof fn law_starts_are_what_they_seem(start: Start, report: Report)
    ensures
        start@ == StartView::Walk <==> start is Walk,
        start@ == StartView::RemoveLeaf <==> start is RemoveLeaf,
        start@ is Preview <==> start is Preview,
        start@ is Fail <==> start is Fail,
        report@.out is Some <==> report.out is Some,
        report@.err is Some <==> report.err is Some,
        report.out matches Some(line) ==> report@.out == Some(line@),
        report.err matches Some(line) ==> report@.err == Some(line@),
        report@.tally == report.tally,
        report@.tick == report.tick,
{
}

/// The plan made from a walk does what it is for. Its first step is the only one
/// for files, and it starts with the errors of the walk counted. If the walk
/// told of each entry what it is and where, and left out nothing below a
/// directory that it found, then after all steps every entry that it found is
/// gone and everything else is there as before.
pub proof fn law_plan_removes_what_was_walked<P, C>(
    disk: Map<Seq<C>, FileKind>,
    items: Seq<Result<Entry<P>, String>>,
    steps: Seq<TreeStepView<P>>,
    tally: Tally,
    components: spec_fn(P) -> Seq<C>,
)
    requires
        is_plan(scan_of(items), steps, tally),
        items.len() <= u64::MAX,
        depths_recorded(items, components),
        forall|i: int|
            0 <= i < items.len() ==> (#[trigger] items[i] matches Ok(entry)
                ==> disk.contains_key(components(entry.path)) && disk[components(entry.path)]
                == entry.kind),
        forall|c: Seq<C>, i: int|
            #![trigger disk.contains_key(c), items[i]]
            disk.contains_key(c) && 0 <= i < items.len() && (items[i] matches Ok(entry)
                && entry.kind == FileKind::Directory && is_below(c, components(entry.path)))
                ==> walked(items, components, c),
    ensures
        steps.len() > 0,
        steps[0] is Files,
        forall|i: int| 0 < i < steps.len() ==> (#[trigger] steps[i]) is Dirs,
        tally.files == 0 && tally.dirs == 0 && tally.errors == walk_errors(items),
        after_strict_steps(disk, steps, components).dom() == disk.dom().filter(
            |c: Seq<C>| !walked(items, components, c),
        ),
{
    let batches = choose|batches: Seq<Batch<P>>| #[trigger]
        is_schedule(scan_of(items).dirs, batches) && steps == all_steps(
            scan_of(items).files,
            batches,
        );
    law_walked_tree_goes(disk, items, batches, components);
    lemma_scan_counts(items);
    lemma_walk_errors(items);
}

} // verus!
