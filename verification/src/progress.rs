//! When progress is shown, and how.
//!
//! Bars are drawn only where they help: on a terminal, not beside a list of
//! paths, and not for a tree that is gone before a bar could be read.
use vstd::prelude::*;

verus! {

/// Below this many entries no bar is drawn for the removal.
pub const MIN_ENTRIES_FOR_BAR: u64 = 2_000;

/// The count of the scan is refreshed every so many entries. A smaller tree
/// never shows it.
pub const SCAN_REFRESH: usize = 2_048;

/// What is drawn.
#[derive(Clone, Copy, PartialEq, Eq, Structural)]
pub enum Bar {
    /// Nothing.
    Hidden,
    /// A spinner with a count.
    Spinner,
    /// A bar of this length.
    Determinate(u64),
}

/// The layout of what is drawn.
pub open spec fn template_of(bar: Bar) -> Option<Seq<char>> {
    match bar {
        Bar::Hidden => None,
        Bar::Spinner => Some("  {spinner:.cyan} scanning… {human_pos} entries"@),
        Bar::Determinate(_) => Some(
            "  {spinner:.red} ripping [{bar:32.red/dim}] {human_pos}/{human_len} ({eta})"@,
        ),
    }
}

/// The characters of the bar itself, from a full cell to an empty one. A spinner
/// has no bar.
pub open spec fn chars_of(bar: Bar) -> Option<Seq<char>> {
    match bar {
        Bar::Determinate(_) => Some("█▉▊▋▌▍▎▏ "@),
        _ => None,
    }
}

impl Bar {
    /// The layout of what is drawn, in the notation of the progress bars.
    pub fn template(&self) -> (text: Option<&'static str>)
        ensures
            match text {
                Some(s) => template_of(*self) == Some(s@),
                None => template_of(*self) is None,
            },
    {
        match self {
            Bar::Hidden => None,
            Bar::Spinner => Some("  {spinner:.cyan} scanning… {human_pos} entries"),
            Bar::Determinate(_) => Some(
                "  {spinner:.red} ripping [{bar:32.red/dim}] {human_pos}/{human_len} ({eta})",
            ),
        }
    }

    /// The characters of the bar itself, from a full cell to an empty one.
    pub fn chars(&self) -> (text: Option<&'static str>)
        ensures
            match text {
                Some(s) => chars_of(*self) == Some(s@),
                None => chars_of(*self) is None,
            },
    {
        match self {
            Bar::Determinate(_) => Some("█▉▊▋▌▍▎▏ "),
            _ => None,
        }
    }
}

/// Whether progress is shown at all in this run.
pub open spec fn shows(verbose: bool, dry_run: bool, terminal: bool) -> bool {
    !verbose && !dry_run && terminal
}

/// Whether progress is shown at all in this run: on a terminal, unless each path
/// is listed or nothing is deleted.
pub fn enabled(verbose: bool, dry_run: bool, terminal: bool) -> (show: bool)
    ensures
        show == shows(verbose, dry_run, terminal),
{
    !verbose && !dry_run && terminal
}

/// What is drawn during the walk.
pub open spec fn scanner_bar(show: bool) -> Bar {
    if show {
        Bar::Spinner
    } else {
        Bar::Hidden
    }
}

/// What is drawn during the walk: a spinner, or nothing.
pub fn scanner(show: bool) -> (bar: Bar)
    ensures
        bar == scanner_bar(show),
{
    if !show {
        return Bar::Hidden;
    }
    Bar::Spinner
}

/// What is drawn during the removal of `total` entries.
pub open spec fn deleter_bar(show: bool, total: u64) -> Bar {
    if show && total >= MIN_ENTRIES_FOR_BAR {
        Bar::Determinate(total)
    } else {
        Bar::Hidden
    }
}

/// What is drawn during the removal of `total` entries: a bar of that length, or
/// nothing for a small tree.
pub fn deleter(show: bool, total: u64) -> (bar: Bar)
    ensures
        bar == deleter_bar(show, total),
{
    if !show || total < MIN_ENTRIES_FOR_BAR {
        return Bar::Hidden;
    }
    Bar::Determinate(total)
}

/// Whether the count of the scan is refreshed after the item with this index,
/// which counts from zero. It is not after an item that is an error.
pub open spec fn refreshes(scanning: bool, failed: bool, index: usize) -> bool {
    scanning && !failed && index > 0 && index as int % SCAN_REFRESH as int == 0
}

/// The count that the scan shows after the item with this index, if it is
/// refreshed there.
pub open spec fn count_shown(scanning: bool, failed: bool, index: usize, entries: usize) -> Option<
    u64,
> {
    if refreshes(scanning, failed, index) {
        Some(entries as u64)
    } else {
        None
    }
}

/// The count that the scan shows after the item with this index, if it is
/// refreshed there. `failed` says that the item is an error.
pub fn scan_position(scanning: bool, failed: bool, index: usize, entries: usize) -> (position:
    Option<u64>)
    ensures
        position == count_shown(scanning, failed, index, entries),
{
    if scanning && !failed && index > 0 && index % SCAN_REFRESH == 0 {
        Some(entries as u64)
    } else {
        None
    }
}

/// A walk of no more items than the refresh interval never shows its count.
pub proof fn law_small_scans_are_silent(scanning: bool, failed: bool, items: nat, index: usize)
    requires
        items <= SCAN_REFRESH,
        index < items,
    ensures
        !refreshes(scanning, failed, index),
{
    if 0 < index {
        vstd::arithmetic::div_mod::lemma_small_mod(index as nat, SCAN_REFRESH as nat);
    }
}

/// A small tree never shows a bar.
pub proof fn law_small_trees_have_no_bar(show: bool, total: u64)
    requires
        total < MIN_ENTRIES_FOR_BAR,
    ensures
        deleter_bar(show, total) == Bar::Hidden,
{
}

/// Progress is shown on a terminal, and neither beside a list of paths nor where
/// nothing is deleted. Where it is shown, the walk has a spinner and the removal
/// of a tree that is large enough a bar as long as the tree, and elsewhere there
/// is neither.
pub proof fn law_progress_is_shown(
    verbose: bool,
    dry_run: bool,
    terminal: bool,
    show: bool,
    total: u64,
)
    ensures
        shows(verbose, dry_run, terminal) <==> terminal && !verbose && !dry_run,
        scanner_bar(true) == Bar::Spinner,
        scanner_bar(false) == Bar::Hidden,
        deleter_bar(show, total) == Bar::Determinate(total) <==> show && total >= 2000,
        deleter_bar(show, total) == Bar::Hidden <==> !show || total < 2000,
{
}

/// The count of the scan is refreshed at each multiple of the interval but the
/// first, and nowhere in between, unless the item there is an error. What it
/// then shows is the number of entries.
pub proof fn law_scan_is_refreshed_at_intervals(
    scanning: bool,
    failed: bool,
    index: usize,
    entries: usize,
    k: nat,
    past: nat,
)
    requires
        index == k * 2048 + past,
        past < 2048,
    ensures
        refreshes(scanning, failed, index) <==> scanning && !failed && k > 0 && past == 0,
        count_shown(scanning, failed, index, entries) is Some <==> scanning && !failed && k > 0
            && past == 0,
        count_shown(scanning, failed, index, entries) matches Some(n) ==> n == entries,
{
    vstd::arithmetic::div_mod::lemma_fundamental_div_mod_converse(
        index as int,
        2048,
        k as int,
        past as int,
    );
}

/// The layout of what is drawn does not rest on how long it is.
pub proof fn law_layout_of_bars(total: u64)
    ensures
        template_of(Bar::Hidden) is None,
        template_of(Bar::Spinner) == Some("  {spinner:.cyan} scanning… {human_pos} entries"@),
        template_of(Bar::Determinate(total)) == Some(
            "  {spinner:.red} ripping [{bar:32.red/dim}] {human_pos}/{human_len} ({eta})"@,
        ),
        chars_of(Bar::Hidden) is None,
        chars_of(Bar::Spinner) is None,
        chars_of(Bar::Determinate(total)) == Some("█▉▊▋▌▍▎▏ "@),
{
}

} // verus!
