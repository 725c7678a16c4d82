use rip::options::Options;
use rip::progress::{
    deleter, enabled, scan_position, scanner, Bar, MIN_ENTRIES_FOR_BAR, SCAN_REFRESH,
};
use rip::recycle::{trash_paths, trash_summary, TrashEvent, TrashStep};
use rip::ui::{agrees, confirm, prompt, render_list, Mode};

fn names(n: usize) -> Vec<String> {
    (0..n).map(|i| format!("path{i}")).collect()
}

fn the_plain_warning_before_a_rip() {
    colored::control::set_override(false);
    let rule = "━".repeat(66);
    let expected = format!(
        "\n{rule}\n  ⚠  RIP  —  PERMANENT DELETION  ⚠\n{rule}\n\n  \
         About to PERMANENTLY delete 2 path(s):\n    • path0\n    • path1\n\n  \
         This is what \"rip\" means:\n    \
         ✗  No Recycle Bin — this cannot be undone.\n    \
         ✗  Read-only files are deleted anyway (IGNORE_READONLY).\n    \
         ✗  Files still in use are force-removed (POSIX_SEMANTICS).\n\n  \
         Type y to rip it out — anything else aborts ▸ "
    );
    assert_eq!(confirm(&names(2), Mode::Rip), expected);
}

fn the_coloured_warning_before_a_rip() {
    colored::control::set_override(true);
    let rule = format!("\x1B[91m{}\x1B[0m", "━".repeat(66));
    let cross = "\x1B[91m✗\x1B[0m";
    let expected = format!(
        "\n{rule}\n\x1B[1;91m  ⚠  RIP  —  PERMANENT DELETION  ⚠\x1B[0m\n{rule}\n\n  \
         About to \x1B[1;91mPERMANENTLY\x1B[0m delete \x1B[1m1\x1B[0m path(s):\n    \
         \x1B[91m•\x1B[0m \x1B[1mpath0\x1B[0m\n\n  \
         This is what \"rip\" means:\n    \
         {cross}  No Recycle Bin — \x1B[1;97mthis cannot be undone\x1B[0m.\n    \
         {cross}  Read-only files are deleted anyway (IGNORE_READONLY).\n    \
         {cross}  Files still in use are force-removed (POSIX_SEMANTICS).\n\n  \
         Type \x1B[1;91my\x1B[0m to rip it out — anything else aborts \x1B[1;96m▸\x1B[0m "
    );
    assert_eq!(confirm(&names(1), Mode::Rip), expected);
}

fn the_coloured_warning_before_a_move() {
    colored::control::set_override(true);
    let rule = format!("\x1B[33m{}\x1B[0m", "━".repeat(66));
    let expected = format!(
        "\n{rule}\n\x1B[1;33m  ♻  RIP  —  MOVE TO RECYCLE BIN\x1B[0m\n{rule}\n\n  \
         About to move \x1B[1m1\x1B[0m path(s) to the Recycle Bin \
         (\x1B[32mrecoverable\x1B[0m):\n    \
         \x1B[33m•\x1B[0m \x1B[1mpath0\x1B[0m\n\n  \
         Type \x1B[1;33my\x1B[0m to continue — anything else aborts \x1B[1;96m▸\x1B[0m "
    );
    assert_eq!(confirm(&names(1), Mode::Trash), expected);
}

fn the_plain_warning_before_a_move() {
    colored::control::set_override(false);
    let rule = "━".repeat(66);
    let mut expected = format!(
        "\n{rule}\n  ♻  RIP  —  MOVE TO RECYCLE BIN\n{rule}\n\n  \
         About to move 15 path(s) to the Recycle Bin (recoverable):\n"
    );
    for i in 0..12 {
        expected.push_str(&format!("    • path{i}\n"));
    }
    expected.push_str("    • … and 3 more\n\n  Type y to continue — anything else aborts ▸ ");
    assert_eq!(confirm(&names(15), Mode::Trash), expected);
}

fn a_reset_code_inside_a_name_does_not_end_its_style() {
    colored::control::set_override(true);
    let text = confirm(&vec!["a\x1B[0mb\x1B[0m".to_string()], Mode::Rip);
    assert!(text.contains("\x1B[1ma\x1B[0m\x1B[1mb\x1B[0m\x1B[1m\x1B[0m\n"));
}

/// What each warning says of itself, and what it does not.
fn the_words_of_the_warnings() {
    for coloured in [false, true] {
        colored::control::set_override(coloured);
        let text = confirm(&names(15), Mode::Rip);
        assert!(text.contains("PERMANENT DELETION"));
        assert!(!text.contains("MOVE TO RECYCLE BIN"));
        assert!(!text.contains("recoverable"));
        let text = confirm(&names(15), Mode::Trash);
        assert!(text.contains("MOVE TO RECYCLE BIN"));
        assert!(text.contains("recoverable"));
        assert!(!text.contains("PERMANENT DELETION"));
        // The word is a path's own here, and only if the path is shown.
        let mut paths = names(12);
        paths.push("recoverable".to_string());
        assert!(!confirm(&paths, Mode::Rip).contains("recoverable"));
        paths[0] = "recoverable".to_string();
        assert!(confirm(&paths, Mode::Rip).contains("recoverable"));
    }
}

/// Whether colours are written is a setting of the whole process, so all that
/// depends on it runs here, one after the other.
#[test]
fn the_warnings_with_and_without_colours() {
    the_plain_warning_before_a_rip();
    the_coloured_warning_before_a_rip();
    the_coloured_warning_before_a_move();
    the_plain_warning_before_a_move();
    a_reset_code_inside_a_name_does_not_end_its_style();
    the_words_of_the_warnings();
}

#[test]
fn long_lists_are_cut_at_twelve() {
    let shown = names(12);
    let text = render_list("*", &shown, 12);
    assert_eq!(text.lines().count(), 12);
    assert!(text.ends_with("    * path11\n"));
    let text = render_list("*", &shown, 13);
    assert!(text.ends_with("    * path11\n    * … and 1 more\n"));
    assert_eq!(render_list("*", &names(0), 0), "");
    assert_eq!(prompt("Go on?", ">"), "  Go on? > ");
}

#[test]
fn yes_comes_in_three_words() {
    for yes in ["y", "Y", "yes", "YES", "yEs", "rip", "RIP", " y\n", "\t yes \r\n", "rip\u{3000}"] {
        assert!(agrees(Some(yes)));
    }
    for no in ["", "\n", "   ", "n", "no", "ye", "yess", "y es", "rips", "ri", "ÿ", "y.", "yyy"] {
        assert!(!agrees(Some(no)));
    }
    assert!(!agrees(None));
}

#[test]
fn the_same_reply_gets_the_same_answer() {
    for (one, other) in [("rip", " RIP\r\n"), ("yes", "\tYeS"), ("no", "No "), ("", " \n")] {
        assert_eq!(agrees(Some(one)), agrees(Some(other)));
    }
}

#[test]
fn white_space_is_what_unicode_says() {
    for u in 0..=0x10FFFFu32 {
        if let Some(c) = char::from_u32(u) {
            let mut reply = String::new();
            reply.push(c);
            reply.push('y');
            reply.push(c);
            assert_eq!(agrees(Some(&reply)), c.is_whitespace());
        }
    }
}

#[test]
fn letters_are_compared_as_ascii_lower_case() {
    for u in 0..=0x10FFFFu32 {
        if let Some(c) = char::from_u32(u) {
            let reply = c.to_string();
            assert_eq!(agrees(Some(&reply)), reply.to_ascii_lowercase() == "y");
        }
    }
}

#[test]
fn progress_is_for_terminals() {
    assert!(enabled(false, false, true));
    assert!(!enabled(true, false, true));
    assert!(!enabled(false, true, true));
    assert!(!enabled(false, false, false));
}

#[test]
fn bars_are_for_large_trees() {
    assert!(scanner(true) == Bar::Spinner);
    assert!(scanner(false) == Bar::Hidden);
    assert_eq!(MIN_ENTRIES_FOR_BAR, 2000);
    assert!(deleter(true, 1999) == Bar::Hidden);
    assert!(deleter(true, 2000) == Bar::Determinate(2000));
    assert!(deleter(false, 1_000_000) == Bar::Hidden);
    assert_eq!(Bar::Hidden.template(), None);
    assert_eq!(
        Bar::Spinner.template(),
        Some("  {spinner:.cyan} scanning… {human_pos} entries")
    );
    assert_eq!(
        Bar::Determinate(5).template(),
        Some("  {spinner:.red} ripping [{bar:32.red/dim}] {human_pos}/{human_len} ({eta})")
    );
}

#[test]
fn only_a_bar_has_bar_characters() {
    assert_eq!(Bar::Hidden.chars(), None);
    assert_eq!(Bar::Spinner.chars(), None);
    assert_eq!(Bar::Determinate(2000).chars(), Some("█▉▊▋▌▍▎▏ "));
    assert_eq!(Bar::Determinate(0).chars().unwrap().chars().count(), 9);
}

#[test]
fn the_templates_are_ones_that_a_bar_takes() {
    for bar in [Bar::Spinner, Bar::Determinate(1)] {
        let style = indicatif::ProgressStyle::with_template(bar.template().unwrap());
        assert!(style.is_ok());
        if let Some(chars) = bar.chars() {
            style.unwrap().progress_chars(chars);
        }
    }
}

#[test]
fn the_scan_count_is_refreshed_now_and_then() {
    assert_eq!(SCAN_REFRESH, 2048);
    assert_eq!(scan_position(true, false, 0, 1), None);
    for index in 1..2048 {
        assert_eq!(scan_position(true, false, index, index + 1), None);
    }
    assert_eq!(scan_position(true, false, 2048, 2000), Some(2000));
    assert_eq!(scan_position(true, false, 2049, 2001), None);
    assert_eq!(scan_position(true, false, 4096, 4097), Some(4097));
    assert_eq!(scan_position(false, false, 2048, 2000), None);
    // An item that is an error refreshes nothing.
    assert_eq!(scan_position(true, true, 2048, 2000), None);
}

fn options(dry_run: bool, verbose: bool) -> Options {
    Options { dry_run, trash: true, force: true, verbose }
}

#[test]
fn targets_are_moved_one_by_one() {
    let mut run = trash_paths(&options(false, true), names(3));
    assert!(run.step() == TrashStep::Move(0));
    let lines = run.record(TrashEvent::Moved);
    assert_eq!((lines.out, lines.err), (Some("path0".to_string()), None));
    assert!(run.step() == TrashStep::Move(1));
    let lines = run.record(TrashEvent::Failed("no bin".to_string()));
    assert_eq!((lines.out, lines.err), (None, Some("error: trash path1: no bin".to_string())));
    assert!(run.step() == TrashStep::Move(2));
    run.record(TrashEvent::Moved);
    assert!(run.step() == TrashStep::Done);
    assert_eq!((run.tally().moved, run.tally().errors), (2, 1));
    let lines = run.record(TrashEvent::Moved);
    assert_eq!((lines.out, lines.err), (None, None));
    assert_eq!((run.tally().moved, run.tally().errors), (2, 1));
    assert_eq!(
        trash_summary(&options(false, true), &run.tally(), "1.50"),
        "\nRIP: trashed 2 path(s) in 1.50s (1 errors)"
    );
}

#[test]
fn a_dry_run_moves_nothing() {
    let mut run = trash_paths(&options(true, true), names(2));
    assert!(run.step() == TrashStep::Preview(0));
    let lines = run.record(TrashEvent::Previewed);
    assert_eq!((lines.out, lines.err), (Some("would trash path0".to_string()), None));
    assert!(run.step() == TrashStep::Preview(1));
    run.record(TrashEvent::Previewed);
    assert!(run.step() == TrashStep::Done);
    assert_eq!(
        trash_summary(&options(true, true), &run.tally(), "0.00"),
        "\nRIP: would trash 2 path(s) in 0.00s (0 errors)"
    );
    let mut quiet = trash_paths(&options(true, false), names(1));
    let lines = quiet.record(TrashEvent::Previewed);
    assert_eq!((lines.out, lines.err), (Some("would trash path0".to_string()), None));
    let mut quiet = trash_paths(&options(false, false), names(1));
    let lines = quiet.record(TrashEvent::Moved);
    assert_eq!((lines.out, lines.err), (None, None));
    assert!(trash_paths(&options(false, false), names(0)).step() == TrashStep::Done);
}

#[test]
fn every_target_has_its_turn_whatever_came_before() {
    for dry_run in [false, true] {
        let mut run = trash_paths(&options(dry_run, false), names(6));
        for i in 0..6 {
            let due = if dry_run { TrashStep::Preview(i) } else { TrashStep::Move(i) };
            assert!(run.step() == due);
            run.record(match (dry_run, i % 3) {
                (true, _) => TrashEvent::Previewed,
                (false, 0) => TrashEvent::Failed("no bin".to_string()),
                (false, _) => TrashEvent::Moved,
            });
        }
        assert!(run.step() == TrashStep::Done);
        let expected = if dry_run { (6, 0) } else { (4, 2) };
        assert_eq!((run.tally().moved, run.tally().errors), expected);
    }
}
