use rip::options::Options;
use rip::path::{is_root, Component, LexPath, Prefix};
use rip::session::{
    answered, begin, failure_line, summary, workers_line, Next, RipRun, RipStep, Target,
};
use rip::tally::Tally;
use rip::ui::Mode;
use std::path::Path;

fn units(name: &Path) -> Vec<u16> {
    name.as_os_str().as_encoded_bytes().iter().map(|b| *b as u16).collect()
}

fn lex(path: &Path) -> LexPath {
    let mut components = Vec::new();
    for c in path.components() {
        components.push(match c {
            std::path::Component::Prefix(p) => {
                Component::Prefix(Prefix::Verbatim(units(p.as_os_str().as_ref())))
            }
            std::path::Component::RootDir => Component::RootDir,
            std::path::Component::CurDir => Component::CurDir,
            std::path::Component::ParentDir => Component::ParentDir,
            std::path::Component::Normal(name) => Component::Normal(units(name.as_ref())),
        });
    }
    LexPath { components }
}

/// The guard as the program uses it: on the path qualified by the system.
fn guarded(path: &str) -> bool {
    let path = Path::new(path);
    let absolute = std::path::absolute(path).ok().map(|p| lex(&p));
    is_root(&lex(path), &absolute)
}

fn wide(text: &str) -> Vec<u16> {
    text.encode_utf16().collect()
}

/// `C:\` and, if there are any, the names below it.
fn drive(names: &[&str]) -> LexPath {
    let mut components = vec![Component::Prefix(Prefix::Disk(b'C')), Component::RootDir];
    for name in names {
        components.push(match *name {
            "." => Component::CurDir,
            ".." => Component::ParentDir,
            name => Component::Normal(wide(name)),
        });
    }
    LexPath { components }
}

#[test]
fn detects_roots() {
    assert!(guarded("/"));
    // `C:\`, `C:\.` and `C:\foo\..` all qualify to the bare drive.
    assert!(is_root(&drive(&[]), &Some(drive(&[]))));
    assert!(is_root(&drive(&["."]), &Some(drive(&[]))));
    assert!(is_root(&drive(&["foo", ".."]), &Some(drive(&[]))));
}

#[test]
fn allows_non_roots() {
    assert!(!guarded("/home/user/project/node_modules"));
    // `C:\Users\me\project\node_modules`
    let deep = ["Users", "me", "project", "node_modules"];
    assert!(!is_root(&drive(&deep), &Some(drive(&deep))));
    assert!(!guarded("node_modules"));
    assert!(!guarded("."));
}

#[test]
fn share_roots_are_roots() {
    let share = || Component::Prefix(Prefix::UNC(wide("server"), wide("share")));
    let bare = LexPath { components: vec![share()] };
    let rooted = LexPath { components: vec![share(), Component::RootDir] };
    let inside = LexPath {
        components: vec![share(), Component::RootDir, Component::Normal(wide("a"))],
    };
    assert!(is_root(&inside, &Some(bare)));
    assert!(is_root(&inside, &Some(rooted)));
    assert!(!is_root(&inside, &None));
}

#[test]
fn unqualified_paths_are_judged_as_given() {
    assert!(is_root(&lex(Path::new("/")), &None));
    assert!(!is_root(&lex(Path::new("/a")), &None));
}

#[test]
fn an_empty_path_is_no_root() {
    // It names nothing, and so nothing is there.
    assert!(!guarded(""));
    let empty = LexPath { components: vec![] };
    assert!(!is_root(&empty, &None));
    assert!(!is_root(&drive(&["a"]), &Some(LexPath { components: vec![] })));
    for bits in 0..8 {
        let o = options(bits & 1 != 0, bits & 2 != 0, bits & 4 != 0);
        let targets = vec![Target {
            name: String::new(),
            given: LexPath { components: vec![] },
            absolute: None,
            exists: false,
        }];
        match begin(&o, &targets) {
            Next::Refuse(text) => assert_eq!(text, "path does not exist: "),
            _ => panic!("an empty path got through"),
        }
    }
}

#[test]
fn parents_and_names() {
    let path = lex(Path::new("/a/b"));
    let parent = path.parent().unwrap();
    assert!(parent.same_as(&lex(Path::new("/a"))));
    assert!(!parent.same_as(&lex(Path::new("/b"))));
    assert!(!parent.same_as(&path));
    assert_eq!(path.file_name(), Some(wide("b")));
    assert_eq!(lex(Path::new("/a/..")).file_name(), None);
    assert!(lex(Path::new("/a/..")).parent().is_some());
    assert!(lex(Path::new("/")).file_name().is_none());
    // The empty path is the parent of a bare name.
    let bare = lex(Path::new("a")).parent().unwrap();
    assert!(bare.components.is_empty());
    assert!(bare.parent().is_none());
}

#[test]
fn every_kind_of_component_is_compared() {
    let all = || LexPath {
        components: vec![
            Component::Prefix(Prefix::Verbatim(wide("x"))),
            Component::Prefix(Prefix::VerbatimUNC(wide("s"), wide("t"))),
            Component::Prefix(Prefix::VerbatimDisk(b'C')),
            Component::Prefix(Prefix::DeviceNS(wide("COM1"))),
            Component::Prefix(Prefix::UNC(wide("s"), wide("t"))),
            Component::Prefix(Prefix::Disk(b'C')),
            Component::RootDir,
            Component::CurDir,
            Component::ParentDir,
            Component::Normal(wide("n")),
        ],
    };
    assert!(all().same_as(&all()));
    for i in 0..10 {
        let mut other = all();
        other.components[i] = Component::Normal(wide("different"));
        assert!(!all().same_as(&other));
    }
    assert!(!drive(&[]).same_as(&LexPath {
        components: vec![Component::Prefix(Prefix::Disk(b'D')), Component::RootDir],
    }));
    let mut longer = all();
    longer.components.push(Component::Normal(wide("end")));
    assert!(longer.parent().unwrap().same_as(&all()));
}

fn options(dry_run: bool, trash: bool, force: bool) -> Options {
    Options { dry_run, trash, force, verbose: false }
}

fn target(path: &str, exists: bool) -> Target {
    Target {
        name: path.to_string(),
        given: lex(Path::new(path)),
        absolute: Some(lex(Path::new(path))),
        exists,
    }
}

const ROOT_REFUSED: &str = "refusing to rip a filesystem root: / — this is almost \
     certainly a mistake. rip is for throwaway subtrees \
     (.git, .venv, node_modules, target/), not whole volumes.";

#[test]
fn roots_are_refused_under_every_option() {
    for bits in 0..8 {
        let o = options(bits & 1 != 0, bits & 2 != 0, bits & 4 != 0);
        let targets = vec![target("/tmp/x", true), target("/", true)];
        match begin(&o, &targets) {
            Next::Refuse(text) => assert_eq!(text, ROOT_REFUSED),
            _ => panic!("a root got through"),
        }
    }
}

#[test]
fn the_first_bad_target_is_named() {
    let o = options(false, false, true);
    let targets = vec![target("/a", true), target("/gone", false), target("/", true)];
    match begin(&o, &targets) {
        Next::Refuse(text) => assert_eq!(text, "path does not exist: /gone"),
        _ => panic!("a missing path got through"),
    }
    // A root is called a root even where nothing is known to be there.
    assert!(matches!(begin(&o, &vec![target("/", false)]),
        Next::Refuse(text) if text == ROOT_REFUSED));
}

#[test]
fn the_user_is_asked_unless_forced_or_dry() {
    let targets = vec![target("/a", true)];
    assert!(matches!(begin(&options(false, false, false), &targets), Next::Ask(Mode::Rip)));
    assert!(matches!(begin(&options(false, true, false), &targets), Next::Ask(Mode::Trash)));
    assert!(matches!(begin(&options(false, false, true), &targets), Next::Rip));
    assert!(matches!(begin(&options(false, true, true), &targets), Next::Trash));
    assert!(matches!(begin(&options(true, false, false), &targets), Next::Rip));
    assert!(matches!(begin(&options(true, true, false), &targets), Next::Trash));
}

#[test]
fn only_a_yes_starts_the_work() {
    assert!(matches!(answered(&options(false, false, false), true), Next::Rip));
    assert!(matches!(answered(&options(false, true, false), true), Next::Trash));
    assert!(matches!(answered(&options(false, false, false), false), Next::Abort));
    assert!(matches!(answered(&options(false, true, false), false), Next::Abort));
}

#[test]
fn lines_around_a_run() {
    assert_eq!(workers_line(16), "rip: 16 worker threads");
    assert_eq!(failure_line("a/b", "remove a/b: denied"), "error ripping a/b: remove a/b: denied");
    let tally = Tally { files: 3, dirs: 7, errors: 0 };
    assert_eq!(
        summary(&options(false, false, true), &tally, "0.12"),
        "\nRIP: deleted 3 files, 7 dirs in 0.12s (0 errors)"
    );
    let tally = Tally { files: 10000, dirs: 201, errors: 18446744073709551615 };
    assert_eq!(
        summary(&options(true, false, false), &tally, "12.00"),
        "\nRIP: would delete 10000 files, 201 dirs in 12.00s (18446744073709551615 errors)"
    );
}

#[test]
fn a_target_that_fails_stops_no_other() {
    let mut run = RipRun::new(vec!["a".to_string(), "b".to_string(), "c".to_string()]);
    assert!(run.step() == RipStep::Target(0));
    assert_eq!(run.record(Ok(Tally { files: 3, dirs: 2, errors: 1 })), None);
    assert!(run.step() == RipStep::Target(1));
    assert_eq!(
        run.record(Err("cannot stat b: denied".to_string())),
        Some("error ripping b: cannot stat b: denied".to_string())
    );
    assert!(run.step() == RipStep::Target(2));
    assert_eq!(run.record(Ok(Tally::file())), None);
    assert!(run.step() == RipStep::Done);
    let t = run.tally();
    assert_eq!((t.files, t.dirs, t.errors), (4, 2, 1));
    // All had their turn, so nothing counts any more.
    assert_eq!(run.record(Err("late".to_string())), None);
    assert_eq!(run.record(Ok(Tally::file())), None);
    assert!(run.step() == RipStep::Done);
    assert_eq!(run.tally().files, 4);
    let none = RipRun::new(Vec::new());
    assert!(none.step() == RipStep::Done);
    assert_eq!(none.tally().files, 0);
}
