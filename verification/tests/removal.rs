use rip::path::{Component, LexPath, Prefix};
use rip::platform::portable::{
    clear_readonly, remove_dir, remove_file, EntryType, Event, Metadata, Removal,
};
use rip::platform::win::{
    delete_handle, leaf_opened, to_io, to_wide, DeleteError, Deletion, DeletionEvent, FileDeleter,
    FileStep, ParentInfo, WidePath,
};
use rip::platform::win;

const PLAIN: Metadata = Metadata { symlink: false, readonly: false };
const READONLY: Metadata = Metadata { symlink: false, readonly: true };
const LINK: Metadata = Metadata { symlink: true, readonly: true };

#[test]
fn only_read_only_entries_are_made_writable() {
    assert!(clear_readonly(Some(READONLY)));
    assert!(!clear_readonly(Some(PLAIN)));
    assert!(!clear_readonly(Some(LINK)));
    assert!(!clear_readonly(None));
}

#[test]
fn a_removal_that_works_is_over() {
    let r: Removal<u8> = remove_file();
    assert!(matches!(r, Removal::Attempt(EntryType::File)));
    let r = r.next(Event::Removed);
    assert!(matches!(r, Removal::Finished(Ok(()))));
    assert!(matches!(r.next(Event::Failed(1)), Removal::Finished(Ok(()))));
}

#[test]
fn a_read_only_entry_gets_a_second_try() {
    let r: Removal<u8> = remove_dir();
    let r = r.next(Event::Failed(1));
    assert!(matches!(r, Removal::Inspect(EntryType::Directory)));
    let r = r.next(Event::Found(READONLY));
    assert!(matches!(r, Removal::MakeWritable(EntryType::Directory)));
    let r = r.next(Event::Changed);
    assert!(matches!(r, Removal::Retry(EntryType::Directory)));
    assert!(matches!(r.next(Event::Failed(2)), Removal::Finished(Err(2))));
}

#[test]
fn a_link_is_tried_again_as_it_is() {
    for event in [Event::Found(LINK), Event::Found(PLAIN), Event::NotFound] {
        let r: Removal<u8> = remove_file();
        let r = r.next(Event::Failed(1)).next(event);
        assert!(matches!(r, Removal::Retry(EntryType::File)));
        assert!(matches!(r.next(Event::Removed), Removal::Finished(Ok(()))));
    }
}

#[test]
fn events_out_of_turn_change_nothing() {
    let r: Removal<u8> = remove_file();
    let r = r.next(Event::Changed).next(Event::NotFound).next(Event::Found(READONLY));
    assert!(matches!(r, Removal::Attempt(EntryType::File)));
}

fn wide(text: &str) -> Vec<u16> {
    text.encode_utf16().collect()
}

fn path(prefix: Option<Prefix>, text: &str) -> WidePath {
    let mut components = Vec::new();
    if let Some(p) = prefix {
        components.push(Component::Prefix(p));
        components.push(Component::RootDir);
    }
    components.push(Component::Normal(wide("x")));
    WidePath { path: LexPath { components }, units: wide(text) }
}

fn widened(prefix: Option<Prefix>, text: &str) -> String {
    let given = path(None, "unused");
    let mut units = to_wide(&given, &Some(path(prefix, text)));
    assert_eq!(units.pop(), Some(0));
    String::from_utf16(&units).unwrap()
}

#[test]
fn paths_are_opened_in_verbatim_form() {
    assert_eq!(widened(Some(Prefix::Disk(b'C')), r"C:\a\x"), r"\\?\C:\a\x");
    assert_eq!(
        widened(Some(Prefix::UNC(wide("server"), wide("share"))), r"\\server\share\x"),
        r"\\?\UNC\server\share\x"
    );
    let same = r"\\?\C:\x";
    assert_eq!(widened(Some(Prefix::VerbatimDisk(b'C')), same), same);
    let same = r"\\?\UNC\server\share\x";
    assert_eq!(widened(Some(Prefix::VerbatimUNC(wide("server"), wide("share"))), same), same);
    let same = r"\\?\name\x";
    assert_eq!(widened(Some(Prefix::Verbatim(wide("name"))), same), same);
    let same = r"\\.\COM1";
    assert_eq!(widened(Some(Prefix::DeviceNS(wide("COM1"))), same), same);
    assert_eq!(widened(None, r"a\x"), r"a\x");
    assert_eq!(widened(Some(Prefix::UNC(wide("s"), wide("t"))), ""), r"\\?\UNC");
}

#[test]
fn a_path_that_cannot_be_qualified_is_opened_as_given() {
    let given = path(Some(Prefix::Disk(b'C')), r"C:x");
    let mut expected = wide(r"\\?\C:x");
    expected.push(0);
    assert_eq!(to_wide(&given, &None), expected);
}

#[test]
fn paths_past_the_old_limit_are_kept_whole() {
    let long = format!(r"C:\{}", "x".repeat(400));
    assert_eq!(widened(Some(Prefix::Disk(b'C')), &long), format!(r"\\?\{long}"));
}

#[test]
fn error_codes_are_unwrapped() {
    assert_eq!(to_io(0x8007_0005u32 as i32), 5);
    assert_eq!(to_io(0), 0);
    assert_eq!(to_io(-1), 0xFFFF);
    assert_eq!(to_io(0x7FFF_1234), 0x1234);
}

#[test]
fn a_deletion_opens_marks_and_closes() {
    let given = path(None, "unused");
    let absolute = Some(path(Some(Prefix::Disk(b'C')), r"C:\x"));
    for start in [win::remove_file, win::remove_dir] {
        let d = start(&given, &absolute);
        match &d {
            Deletion::Open(r) => {
                assert_eq!(r.name, to_wide(&given, &absolute));
                assert_eq!(r.access, 0x0001_0000);
                assert_eq!(r.share, 7);
                assert_eq!(r.flags, 0x0220_0000);
            }
            _ => panic!("a deletion starts with an open"),
        }
        let d = d.next(DeletionEvent::Opened);
        assert!(matches!(d, Deletion::Dispose(0x13)));
        let d = d.next(DeletionEvent::Disposed);
        assert!(matches!(d, Deletion::Close(Ok(()))));
        assert!(matches!(d.next(DeletionEvent::Closed), Deletion::Finished(Ok(()))));
    }
}

#[test]
fn a_path_with_a_zero_in_it_is_never_opened() {
    let plain = path(Some(Prefix::Disk(b'C')), r"C:\x");
    let zero = path(Some(Prefix::Disk(b'C')), "C:\\x\0y");
    for start in [win::delete, win::remove_file, win::remove_dir] {
        let d = start(&plain, &Some(path(Some(Prefix::Disk(b'C')), "C:\\x\0y")));
        assert!(matches!(d, Deletion::Finished(Err(123))));
        assert!(matches!(start(&zero, &None), Deletion::Finished(Err(123))));
        // What counts is the path that would be opened.
        match start(&zero, &Some(path(Some(Prefix::Disk(b'C')), r"C:\x"))) {
            Deletion::Open(r) => assert_eq!(r.name.iter().filter(|u| **u == 0).count(), 1),
            _ => panic!("the qualified path has no zero"),
        }
    }
    let last = path(None, "x\0");
    assert!(matches!(win::delete(&last, &None), Deletion::Finished(Err(123))));
}

#[test]
fn a_path_in_verbatim_form_is_not_written_again() {
    for (text, prefix, read) in [
        (r"C:\a\x", Prefix::Disk(b'C'), Prefix::VerbatimDisk(b'C')),
        (
            r"\\s\t\x",
            Prefix::UNC(wide("s"), wide("t")),
            Prefix::VerbatimUNC(wide("s"), wide("t")),
        ),
    ] {
        let once = widened(Some(prefix), text);
        assert_eq!(widened(Some(read), &once), once);
    }
}

#[test]
fn a_deletion_that_fails_still_closes() {
    let given = path(None, "x");
    let d = win::delete(&given, &None).next(DeletionEvent::OpenFailed(0x8007_0002u32 as i32));
    assert!(matches!(d, Deletion::Finished(Err(2))));
    let d = delete_handle().next(DeletionEvent::DisposeFailed(0x8007_0005u32 as i32));
    assert!(matches!(d, Deletion::Close(Err(5))));
    let d = d.next(DeletionEvent::Disposed);
    assert!(matches!(d, Deletion::Close(Err(5))));
    assert!(matches!(d.next(DeletionEvent::Closed), Deletion::Finished(Err(5))));
}

fn file(dir: &str, name: &str) -> LexPath {
    LexPath {
        components: vec![
            Component::Prefix(Prefix::Disk(b'C')),
            Component::RootDir,
            Component::Normal(wide(dir)),
            Component::Normal(wide(name)),
        ],
    }
}

const FOLDER: ParentInfo = ParentInfo { is_dir: true, attributes: 0x10 };
const JUNCTION: ParentInfo = ParentInfo { is_dir: true, attributes: 0x410 };

#[test]
fn a_held_parent_is_reused_and_names_are_counted_in_bytes() {
    let mut deleter = FileDeleter::default();
    let name = "非ASCII-🦀.txt";
    let first = file("a", name);
    match deleter.remove_file(&first) {
        FileStep::OpenParent(r) => {
            assert!(r.path.same_as(&first.parent().unwrap()));
            assert_eq!((r.access, r.share, r.flags), (0x80, 7, 0x0220_0000));
        }
        _ => panic!("the parent has to be opened"),
    }
    match deleter.parent_opened(&first, Ok(FOLDER)) {
        FileStep::OpenLeaf(r) => {
            assert_eq!(r.name, wide(name));
            assert_eq!(r.bytes as usize, wide(name).len() * 2);
            assert_eq!((r.access, r.share, r.options), (0x0001_0000, 7, 0x0020_4000));
        }
        _ => panic!("the file has to be opened"),
    }
    // Another file of the same directory needs no second open of it.
    match deleter.remove_file(&file("a", "second")) {
        FileStep::OpenLeaf(r) => assert_eq!(r.name, wide("second")),
        _ => panic!("the parent is held"),
    }
    // Another directory takes its place.
    assert!(matches!(deleter.remove_file(&file("b", name)), FileStep::OpenParent(_)));
    assert!(deleter.parent.is_none());
}

#[test]
fn a_linked_parent_is_rejected() {
    for info in [JUNCTION, ParentInfo { is_dir: false, attributes: 0 }] {
        let mut deleter = FileDeleter::default();
        let path = file("a", "second");
        deleter.remove_file(&path);
        match deleter.parent_opened(&path, Ok(info)) {
            FileStep::Fail(e) => {
                assert!(e == DeleteError::ParentNotDirectory);
                assert_eq!(e.message(), Some("parent is not a non-reparse directory"));
            }
            _ => panic!("a link was followed"),
        }
        assert!(deleter.parent.is_none());
    }
}

#[test]
fn deleters_fail_as_the_path_does() {
    let mut deleter = FileDeleter::default();
    let root = LexPath { components: vec![Component::RootDir] };
    match deleter.remove_file(&root) {
        FileStep::Fail(e) => assert_eq!(e.message(), Some("missing parent")),
        _ => panic!("a root has no parent"),
    }
    let up = LexPath { components: vec![Component::RootDir, Component::ParentDir] };
    match deleter.remove_file(&up) {
        FileStep::Fail(e) => assert_eq!(e.message(), Some("missing filename")),
        _ => panic!("`..` is no name"),
    }
    match deleter.parent_opened(&file("a", "b"), Err(5)) {
        FileStep::Fail(e) => {
            assert!(e == DeleteError::Os(5));
            assert_eq!(e.message(), None);
        }
        _ => panic!("the parent was not opened"),
    }
}

#[test]
fn names_have_a_limit() {
    let mut deleter = FileDeleter::default();
    let fits = file("a", &"x".repeat(32767));
    match deleter.parent_opened(&fits, Ok(FOLDER)) {
        FileStep::OpenLeaf(r) => assert_eq!(r.bytes, 65534),
        _ => panic!("the name fits"),
    }
    match deleter.remove_file(&file("a", &"x".repeat(32768))) {
        FileStep::Fail(e) => {
            assert_eq!(e.message(), Some("filename exceeds UNICODE_STRING length"))
        }
        _ => panic!("the name does not fit"),
    }
    assert!(deleter.parent.is_some());
}

#[test]
fn an_opened_file_is_deleted_by_its_handle() {
    assert!(matches!(leaf_opened(0, 0), FileStep::Delete(Deletion::Dispose(0x13))));
    assert!(matches!(leaf_opened(1, 7), FileStep::Delete(Deletion::Dispose(0x13))));
    assert!(matches!(leaf_opened(-1, 2), FileStep::Fail(DeleteError::Os(2))));
}
