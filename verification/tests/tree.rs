use rip::options::Options;
use rip::path::{depth_of, Component, LexPath, Prefix};
use rip::tree::{
    dir_removed, file_removed, leaf_removed, preview_dir, preview_file, request, rip_path,
    walk_options, Entry, FileKind, Report, Request, Scan, Start, TreeStep,
};
use rip::schedule::{schedule, Dir};
use rip::tally::Tally;
use rip::text::decimal;

fn options(dry_run: bool, verbose: bool) -> Options {
    Options { dry_run, trash: false, force: true, verbose }
}

fn counts(t: Tally) -> (u64, u64, u64) {
    (t.files, t.dirs, t.errors)
}

fn shape(r: Report) -> (Option<String>, Option<String>, (u64, u64, u64), bool) {
    (r.out, r.err, counts(r.tally), r.tick)
}

fn some(s: &str) -> Option<String> {
    Some(s.to_string())
}

#[test]
fn numbers_in_decimal() {
    for n in [0, 1, 9, 10, 11, 99, 100, 2048, 18446744073709551615] {
        assert_eq!(decimal(n), n.to_string());
    }
}

#[test]
fn tallies_merge_in_any_order_and_wrap() {
    let a = Tally { files: 1, dirs: 2, errors: 3 };
    let b = Tally { files: 10, dirs: 20, errors: 30 };
    let c = Tally { files: u64::MAX, dirs: u64::MAX, errors: u64::MAX };
    assert_eq!(counts(a.merge(b)), (11, 22, 33));
    assert_eq!(counts(b.merge(a)), (11, 22, 33));
    assert_eq!(counts(a.merge(c)), (0, 1, 2));
    assert_eq!(counts(a.merge(b).merge(c)), counts(a.merge(b.merge(c))));
    assert_eq!(counts(Tally::zero().merge(a)), (1, 2, 3));
    assert_eq!(counts(Tally::default()), (0, 0, 0));
    assert_eq!(counts(Tally::file()), (1, 0, 0));
    assert_eq!(counts(Tally::dir()), (0, 1, 0));
    assert_eq!(counts(Tally::error()), (0, 0, 1));
}

#[test]
fn a_dry_run_previews_and_any_other_removes() {
    assert!(request(&options(true, false)) == Request::Preview);
    assert!(request(&options(false, false)) == Request::Remove);
    let w = walk_options();
    assert!(!w.skip_hidden && !w.follow_links);
}

#[test]
fn reports_on_files() {
    assert_eq!(shape(preview_file("t/f")), (some("would delete t/f"), None, (1, 0, 0), false));
    let quiet = options(false, false);
    let loud = options(false, true);
    assert_eq!(
        shape(file_removed(&quiet, true, "t/f", Ok(()))),
        (None, None, (1, 0, 0), true)
    );
    assert_eq!(
        shape(file_removed(&loud, false, "t/f", Ok(()))),
        (some("t/f"), None, (1, 0, 0), false)
    );
    assert_eq!(
        shape(file_removed(&loud, true, "t/f", Err("denied".to_string()))),
        (None, some("error: remove t/f: denied"), (0, 0, 1), true)
    );
}

#[test]
fn reports_on_directories() {
    assert_eq!(
        shape(preview_dir(true, "t/d")),
        (some("would delete t/d/"), None, (0, 1, 0), true)
    );
    assert_eq!(
        shape(preview_dir(false, "t/d")),
        (some("would delete t/d/"), None, (0, 1, 0), false)
    );
    let loud = options(false, true);
    assert_eq!(
        shape(dir_removed(&loud, true, "t/d", Ok(()))),
        (some("t/d/"), None, (0, 1, 0), true)
    );
    assert_eq!(
        shape(dir_removed(&options(false, false), false, "t/d", Ok(()))),
        (None, None, (0, 1, 0), false)
    );
    assert_eq!(
        shape(dir_removed(&loud, false, "t/d", Err("not empty".to_string()))),
        (None, some("error: rmdir t/d: not empty"), (0, 0, 1), false)
    );
}

#[test]
fn how_a_target_starts() {
    let real = options(false, false);
    match rip_path(&real, "t", Err("denied".to_string())) {
        Start::Fail(text) => assert_eq!(text, "cannot stat t: denied"),
        _ => panic!("an unreadable target went on"),
    }
    assert!(matches!(rip_path(&real, "t", Ok(FileKind::Directory)), Start::Walk));
    for kind in [FileKind::File, FileKind::Symlink, FileKind::Other] {
        assert!(matches!(rip_path(&real, "t", Ok(kind)), Start::RemoveLeaf));
    }
    // A dry run names the target, with or without `--verbose`.
    for verbose in [false, true] {
        let dry = options(true, verbose);
        assert!(matches!(rip_path(&dry, "t", Ok(FileKind::Directory)), Start::Walk));
        for kind in [FileKind::File, FileKind::Symlink, FileKind::Other] {
            match rip_path(&dry, "t", Ok(kind)) {
                Start::Preview(r) => {
                    assert_eq!(shape(r), (some("would delete t"), None, (1, 0, 0), false))
                }
                _ => panic!("a dry run went on"),
            }
        }
    }
}

#[test]
fn a_single_entry_that_fails_is_not_counted() {
    let loud = options(false, true);
    let report = leaf_removed(&loud, "t", Ok(())).ok().unwrap();
    assert_eq!(shape(report), (some("t"), None, (1, 0, 0), false));
    let text = leaf_removed(&loud, "t", Err("denied".to_string())).err().unwrap();
    assert_eq!(text, "remove t: denied");
}

fn entry(path: &'static str, kind: FileKind) -> Result<Entry<&'static str>, String> {
    let names = path.split('/').map(|n| Component::Normal(n.encode_utf16().collect()));
    Ok(Entry::new(path, &LexPath { components: names.collect() }, kind))
}

#[test]
fn depth_is_the_number_of_components() {
    assert_eq!(depth_of(&LexPath { components: vec![] }), 0);
    let path = LexPath {
        components: vec![
            Component::Prefix(Prefix::Disk(b'C')),
            Component::RootDir,
            Component::Normal(vec![97]),
        ],
    };
    assert_eq!(depth_of(&path), 3);
    assert_eq!(Entry::new((), &path, FileKind::Directory).depth, 3);
    assert_eq!(entry("victim/a/b", FileKind::File).ok().unwrap().depth, 3);
}

/// Uneven branches, empty directories, a hidden directory and a link.
fn victim() -> Vec<Result<Entry<&'static str>, String>> {
    vec![
        entry("victim", FileKind::Directory),
        entry("victim/a", FileKind::Directory),
        entry("victim/a/b", FileKind::Directory),
        entry("victim/a/b/c", FileKind::Directory),
        entry("victim/a/b/c/deep.txt", FileKind::File),
        entry("victim/a/empty", FileKind::Directory),
        entry("victim/sibling", FileKind::Directory),
        entry("victim/.hidden", FileKind::Directory),
        entry("victim/.hidden/link", FileKind::Symlink),
        entry("victim/top.txt", FileKind::Other),
    ]
}

#[test]
fn mixed_depths_go_deepest_first() {
    let mut scan = Scan::new();
    for item in victim() {
        assert!(scan.record(item).is_none());
    }
    assert_eq!(scan.entries(), 10);
    let (mut plan, tally) = scan.plan();
    assert_eq!(counts(tally), (0, 0, 0));
    match plan.next() {
        TreeStep::Files(files) => {
            assert_eq!(files, ["victim/a/b/c/deep.txt", "victim/.hidden/link", "victim/top.txt"])
        }
        _ => panic!("files come first"),
    }
    let mut batches = Vec::new();
    loop {
        match plan.next() {
            TreeStep::Dirs(dirs) => batches.push(dirs),
            TreeStep::Files(_) => panic!("files come once"),
            TreeStep::Done => break,
        }
    }
    assert_eq!(
        batches,
        [
            vec!["victim/a/b/c"],
            vec!["victim/a/b", "victim/a/empty"],
            vec!["victim/a", "victim/sibling", "victim/.hidden"],
            vec!["victim"],
        ]
    );
    assert!(matches!(plan.next(), TreeStep::Done));
}

#[test]
fn walk_errors_are_counted_apart() {
    let mut scan: Scan<&str> = Scan::new();
    assert_eq!(scan.record(Err("denied".to_string())), some("walk error: denied"));
    assert_eq!(scan.record(entry("t", FileKind::Directory)), None);
    assert_eq!(scan.record(Err("gone".to_string())), some("walk error: gone"));
    assert_eq!(scan.entries(), 1);
    let (mut plan, tally) = scan.plan();
    assert_eq!(counts(tally), (0, 0, 2));
    assert!(matches!(plan.next(), TreeStep::Files(files) if files.is_empty()));
    assert!(matches!(plan.next(), TreeStep::Dirs(dirs) if dirs == ["t"]));
    assert!(matches!(plan.next(), TreeStep::Done));
}

#[test]
fn batches_keep_each_directory_and_its_order() {
    let mut dirs = Vec::new();
    for i in 0..1000usize {
        dirs.push(Dir { depth: (i * 7919) % 23, path: i });
    }
    let batches = schedule(dirs);
    assert_eq!(batches.len(), 23);
    let mut seen = vec![false; 1000];
    for (k, batch) in batches.iter().enumerate() {
        assert_eq!(batch.depth, 22 - k);
        let mut last = None;
        for &i in &batch.dirs {
            assert_eq!((i * 7919) % 23, batch.depth);
            assert!(!seen[i]);
            seen[i] = true;
            assert!(last < Some(i));
            last = Some(i);
        }
    }
    assert!(seen.iter().all(|s| *s));
    assert!(schedule(Vec::<Dir<u8>>::new()).is_empty());
}

#[test]
fn a_batch_never_holds_a_directory_and_its_parent() {
    let mut scan = Scan::new();
    for item in victim() {
        scan.record(item);
    }
    let (mut plan, _) = scan.plan();
    plan.next();
    let mut gone: Vec<&str> = Vec::new();
    while let TreeStep::Dirs(dirs) = plan.next() {
        for dir in &dirs {
            for item in victim() {
                let entry = item.ok().unwrap();
                let below = entry.path.starts_with(&format!("{dir}/"));
                if below && entry.kind == FileKind::Directory {
                    assert!(gone.contains(&entry.path));
                }
            }
        }
        gone.extend(dirs);
    }
    assert_eq!(gone.len(), 7);
}

#[test]
fn a_summary_accounts_for_every_item() {
    let mut items = victim();
    items.push(Err("denied".to_string()));
    let n = items.len() as u64;
    let mut scan = Scan::new();
    for item in items {
        scan.record(item);
    }
    let (mut plan, mut tally) = scan.plan();
    let o = options(false, false);
    loop {
        match plan.next() {
            TreeStep::Files(files) => {
                for f in files {
                    let result = if f.ends_with(".txt") { Ok(()) } else { Err("busy".to_string()) };
                    tally = tally.merge(file_removed(&o, false, f, result).tally);
                }
            }
            TreeStep::Dirs(dirs) => {
                for d in dirs {
                    tally = tally.merge(dir_removed(&o, false, d, Ok(())).tally);
                }
            }
            TreeStep::Done => break,
        }
    }
    assert_eq!(counts(tally), (2, 7, 2));
    assert_eq!(tally.files + tally.dirs + tally.errors, n);
}

#[test]
fn a_whole_tree_goes_and_nothing_else() {
    let mut disk: Vec<&str> = vec!["external", "external/canary.txt", "victim2"];
    let mut scan = Scan::new();
    for item in victim() {
        disk.push(item.as_ref().ok().unwrap().path);
        scan.record(item);
    }
    let (mut plan, _) = scan.plan();
    loop {
        match plan.next() {
            TreeStep::Files(files) => disk.retain(|e| !files.contains(e)),
            TreeStep::Dirs(dirs) => {
                // A directory goes only if it is empty when the batch starts.
                let before = disk.clone();
                disk.retain(|e| {
                    let inside = format!("{e}/");
                    !dirs.contains(e) || before.iter().any(|x| x.starts_with(&inside))
                });
            }
            TreeStep::Done => break,
        }
    }
    assert_eq!(disk, ["external", "external/canary.txt", "victim2"]);
}

/// What a run over the whole tree counts and prints, if every removal works.
fn walked(o: &Options) -> ((u64, u64, u64), Vec<String>) {
    let mut scan = Scan::new();
    for item in victim() {
        scan.record(item);
    }
    scan.record(Err("denied".to_string()));
    let (mut plan, mut tally) = scan.plan();
    let mut lines = Vec::new();
    loop {
        let reports: Vec<Report> = match plan.next() {
            TreeStep::Files(files) => files
                .iter()
                .map(|f| match request(o) {
                    Request::Preview => preview_file(f),
                    Request::Remove => file_removed(o, false, f, Ok(())),
                })
                .collect(),
            TreeStep::Dirs(dirs) => dirs
                .iter()
                .map(|d| match request(o) {
                    Request::Preview => preview_dir(false, d),
                    Request::Remove => dir_removed(o, false, d, Ok(())),
                })
                .collect(),
            TreeStep::Done => break,
        };
        for report in reports {
            tally = tally.merge(report.tally);
            lines.extend(report.out);
        }
    }
    (counts(tally), lines)
}

#[test]
fn a_dry_run_counts_what_a_run_counts() {
    let (counted, lines) = walked(&options(false, false));
    assert_eq!(counted, (3, 7, 1));
    assert!(lines.is_empty());
    for verbose in [false, true] {
        let (counted, lines) = walked(&options(true, verbose));
        assert_eq!(counted, (3, 7, 1));
        assert_eq!(
            lines,
            [
                "would delete victim/a/b/c/deep.txt",
                "would delete victim/.hidden/link",
                "would delete victim/top.txt",
                "would delete victim/a/b/c/",
                "would delete victim/a/b/",
                "would delete victim/a/empty/",
                "would delete victim/a/",
                "would delete victim/sibling/",
                "would delete victim/.hidden/",
                "would delete victim/",
            ]
        );
    }
}

#[test]
fn a_summary_counts_by_kind() {
    let o = options(false, false);
    let mut scan = Scan::new();
    for item in victim() {
        scan.record(item);
    }
    scan.record(Err("denied".to_string()));
    scan.record(Err("gone".to_string()));
    let (mut plan, mut tally) = scan.plan();
    loop {
        match plan.next() {
            TreeStep::Files(files) => {
                for f in files {
                    let result = if f.ends_with("link") { Err("busy".to_string()) } else { Ok(()) };
                    tally = tally.merge(file_removed(&o, false, f, result).tally);
                }
            }
            TreeStep::Dirs(dirs) => {
                for d in dirs {
                    let full = d.ends_with("hidden") || d == "victim";
                    let result = if full { Err("not empty".to_string()) } else { Ok(()) };
                    tally = tally.merge(dir_removed(&o, false, d, result).tally);
                }
            }
            TreeStep::Done => break,
        }
    }
    // Two files and five directories went; the walk failed twice, one file and
    // two directories stayed.
    assert_eq!(counts(tally), (2, 5, 5));
}
