//! Removal on Windows: open a handle, mark the entry for deletion, close the
//! handle. Every open asks for the entry itself and not for what a link points
//! at.
use vstd::prelude::*;
use crate::path::{copy_units, Component, LexPath, Prefix};
#[allow(unused_imports)]
use crate::path::{file_name_of, parent_of, path_view, ComponentView, PrefixView};

verus! {

/// The access right to delete.
pub const DELETE: u32 = 0x0001_0000;

/// The access right to read attributes.
pub const FILE_READ_ATTRIBUTES: u32 = 0x0000_0080;

/// Others may read meanwhile.
pub const FILE_SHARE_READ: u32 = 0x0000_0001;

/// Others may write meanwhile.
pub const FILE_SHARE_WRITE: u32 = 0x0000_0002;

/// Others may delete meanwhile.
pub const FILE_SHARE_DELETE: u32 = 0x0000_0004;

/// Lets an open reach directories too.
pub const FILE_FLAG_BACKUP_SEMANTICS: u32 = 0x0200_0000;

/// Opens a link itself, not what it points at.
pub const FILE_FLAG_OPEN_REPARSE_POINT: u32 = 0x0020_0000;

/// The attribute of links and other reparse points.
pub const FILE_ATTRIBUTE_REPARSE_POINT: u32 = 0x0000_0400;

/// Marks an entry for deletion.
pub const FILE_DISPOSITION_FLAG_DELETE: u32 = 0x0000_0001;

/// The entry vanishes at once, even if it is in use.
pub const FILE_DISPOSITION_FLAG_POSIX_SEMANTICS: u32 = 0x0000_0002;

/// A read-only entry is deleted too.
pub const FILE_DISPOSITION_FLAG_IGNORE_READONLY_ATTRIBUTE: u32 = 0x0000_0010;

/// The native form of `FILE_FLAG_OPEN_REPARSE_POINT`.
pub const FILE_OPEN_REPARSE_POINT: u32 = 0x0020_0000;

/// The native form of `FILE_FLAG_BACKUP_SEMANTICS`.
pub const FILE_OPEN_FOR_BACKUP_INTENT: u32 = 0x0000_4000;

/// The system's error code for a name that cannot be one.
pub const ERROR_INVALID_NAME: i32 = 123;

/// A path with its text in UTF-16.
pub struct WidePath {
    pub path: LexPath,
    pub units: Vec<u16>,
}

/// `\\?\`, which lifts the limit on the length of a path.
pub open spec fn verbatim_lead() -> Seq<u16> {
    seq![0x5Cu16, 0x5C, 0x3F, 0x5C]
}

/// `\\?\UNC`, which does so for a path on a share.
pub open spec fn unc_lead() -> Seq<u16> {
    seq![0x5Cu16, 0x5C, 0x3F, 0x5C, 0x55, 0x4E, 0x43]
}

/// The prefix of a path, if it starts with one.
pub open spec fn prefix_of(path: Seq<ComponentView>) -> Option<PrefixView> {
    if path.len() > 0 && path[0] is Prefix {
        Some(path[0]->Prefix_0)
    } else {
        None
    }
}

/// A fully qualified path in verbatim form. A drive path gets `\\?\` in front,
/// a share path `\\?\UNC` in place of its first backslash. A path that is
/// verbatim already, or names a device, stays as it is, and so does one without
/// a prefix.
pub open spec fn verbatim(path: Seq<ComponentView>, units: Seq<u16>) -> Seq<u16> {
    match prefix_of(path) {
        Some(PrefixView::Disk(_)) => verbatim_lead() + units,
        Some(PrefixView::UNC(_, _)) => unc_lead() + (if units.len() > 0 {
            units.skip(1)
        } else {
            units
        }),
        _ => units,
    }
}

/// The path that is written: the qualified one, or the given one where that
/// failed.
pub open spec fn chosen_path(given: WidePath, absolute: Option<WidePath>) -> WidePath {
    match absolute {
        Some(p) => p,
        None => given,
    }
}

/// The name that is opened: the path in verbatim form and with a zero at its
/// end.
pub open spec fn wide_name(given: WidePath, absolute: Option<WidePath>) -> Seq<u16> {
    let p = chosen_path(given, absolute);
    verbatim(p.path@, p.units@).push(0)
}

/// The path can be handed to the system, which reads a name up to its first
/// zero: there is none inside it.
pub open spec fn is_openable(path: WidePath) -> bool {
    !path.units@.contains(0)
}

/// Appends `units` from index `from` on.
fn append_from(wide: &mut Vec<u16>, units: &Vec<u16>, from: usize)
    requires
        from <= units.len(),
    ensures
        final(wide)@ == old(wide)@ + units@.skip(from as int),
{
    let mut i: usize = from;
    assert(units@.subrange(from as int, from as int) =~= Seq::<u16>::empty());
    while i < units.len()
        invariant
            from <= i <= units.len(),
            wide@ == old(wide)@ + units@.subrange(from as int, i as int),
        decreases units.len() - i,
    {
        wide.push(units[i]);
        i += 1;
        assert(wide@ =~= old(wide)@ + units@.subrange(from as int, i as int));
    }
    assert(units@.skip(from as int) =~= units@.subrange(from as int, i as int));
}

/// Says whether `units` hold a zero.
fn holds_zero(units: &Vec<u16>) -> (zero: bool)
    ensures
        zero == units@.contains(0),
{
    let mut i: usize = 0;
    while i < units.len()
        invariant
            i <= units.len(),
            forall|j: int| 0 <= j < i ==> units@[j] != 0,
        decreases units.len() - i,
    {
        if units[i] == 0 {
            return true;
        }
        i += 1;
    }
    false
}

/// Writes a path as the system is to read it: verbatim, so that its length is
/// not limited, and with a zero at its end. `absolute` is the path fully
/// qualified, if that worked.
pub fn to_wide(given: &WidePath, absolute: &Option<WidePath>) -> (wide: Vec<u16>)
    ensures
        wide@ == wide_name(*given, *absolute),
{
    let chosen = match absolute {
        Some(p) => p,
        None => given,
    };
    let units = &chosen.units;
    let mut wide: Vec<u16> = Vec::new();
    let mut from: usize = 0;
    if chosen.path.components.len() > 0 {
        assert(chosen.path@[0] == chosen.path.components@[0]@);
        match &chosen.path.components[0] {
            Component::Prefix(Prefix::Disk(_)) => {
                wide = vec![0x5C, 0x5C, 0x3F, 0x5C];
                assert(wide@ =~= verbatim_lead());
            },
            Component::Prefix(Prefix::UNC(_, _)) => {
                wide = vec![0x5C, 0x5C, 0x3F, 0x5C, 0x55, 0x4E, 0x43];
                assert(wide@ =~= unc_lead());
                if units.len() > 0 {
                    from = 1;
                }
            },
            _ => {},
        }
    }
    append_from(&mut wide, units, from);
    wide.push(0);
    assert(wide@ =~= wide_name(*given, *absolute));
    wide
}

/// The system's own error code in a wrapped one: its low sixteen bits.
pub open spec fn bare_code(wrapped: i32) -> int {
    wrapped as int % 0x1_0000
}

/// Takes the system's own error code out of the wrapped one that a call
/// returned.
pub fn to_io(wrapped: i32) -> (code: i32)
    ensures
        code == bare_code(wrapped),
{
    assert(0 <= wrapped & 0xFFFF <= 0xFFFF && (wrapped as int - (wrapped & 0xFFFF) as int) % 0x1_0000
        == 0) by (bit_vector);
    wrapped & 0xFFFF
}

/// How an entry is opened. The name is one that exists.
pub struct OpenRequest {
    pub name: Vec<u16>,
    pub access: u32,
    pub share: u32,
    pub flags: u32,
}

/// Others may do with an open entry what they like.
pub open spec fn share_all() -> u32 {
    FILE_SHARE_READ | FILE_SHARE_WRITE | FILE_SHARE_DELETE
}

/// An open reaches directories too, and a link itself.
pub open spec fn open_flags() -> u32 {
    FILE_FLAG_BACKUP_SEMANTICS | FILE_FLAG_OPEN_REPARSE_POINT
}

/// How an entry is deleted: at once, read-only or not.
pub open spec fn disposition_flags() -> u32 {
    FILE_DISPOSITION_FLAG_DELETE | FILE_DISPOSITION_FLAG_POSIX_SEMANTICS
        | FILE_DISPOSITION_FLAG_IGNORE_READONLY_ATTRIBUTE
}

/// Where a deletion stands. All states but the last name the next step.
pub enum Deletion {
    /// Open the entry.
    Open(OpenRequest),
    /// Mark the opened entry for deletion, with these flags.
    Dispose(u32),
    /// Close the handle. The result is settled.
    Close(Result<(), i32>),
    /// Nothing is left to do, and this is the result.
    Finished(Result<(), i32>),
}

/// What came of a step. An error is the wrapped code that the call returned.
pub enum DeletionEvent {
    Opened,
    OpenFailed(i32),
    Disposed,
    DisposeFailed(i32),
    /// The handle was closed, or could not be.
    Closed,
}

/// The state that follows `state` when `event` comes. An event that does not
/// answer the step in hand changes nothing.
pub open spec fn deletion_advance(state: Deletion, event: DeletionEvent) -> Deletion {
    match (state, event) {
        (Deletion::Open(_), DeletionEvent::Opened) => Deletion::Dispose(disposition_flags()),
        (Deletion::Open(_), DeletionEvent::OpenFailed(code)) => Deletion::Finished(
            Err(bare_code(code) as i32),
        ),
        (Deletion::Dispose(_), DeletionEvent::Disposed) => Deletion::Close(Ok(())),
        (Deletion::Dispose(_), DeletionEvent::DisposeFailed(code)) => Deletion::Close(
            Err(bare_code(code) as i32),
        ),
        (Deletion::Close(result), DeletionEvent::Closed) => Deletion::Finished(result),
        (_, _) => state,
    }
}

/// How many steps of a deletion may still come.
pub open spec fn deletion_steps_left(state: Deletion) -> nat {
    match state {
        Deletion::Open(_) => 3,
        Deletion::Dispose(_) => 2,
        Deletion::Close(_) => 1,
        Deletion::Finished(_) => 0,
    }
}

/// A handle is open in this state.
pub open spec fn handle_open(state: Deletion) -> bool {
    state is Dispose || state is Close
}

/// How the deletion of a path starts: with an open, or with a failure where the
/// system would read the name of another entry.
pub open spec fn starts_deletion(
    state: Deletion,
    given: WidePath,
    absolute: Option<WidePath>,
) -> bool {
    if is_openable(chosen_path(given, absolute)) {
        state matches Deletion::Open(request) && request.name@ == wide_name(given, absolute)
            && request.access == DELETE && request.share == share_all() && request.flags
            == open_flags()
    } else {
        state == Deletion::Finished(Err(ERROR_INVALID_NAME))
    }
}

/// Starts the deletion of an entry, file or directory, by its path. A path with
/// a zero in it names nothing: its deletion fails at once.
pub fn delete(given: &WidePath, absolute: &Option<WidePath>) -> (d: Deletion)
    ensures
        starts_deletion(d, *given, *absolute),
{
    let chosen = match absolute {
        Some(p) => p,
        None => given,
    };
    if holds_zero(&chosen.units) {
        return Deletion::Finished(Err(ERROR_INVALID_NAME));
    }
    Deletion::Open(
        OpenRequest {
            name: to_wide(given, absolute),
            access: DELETE,
            share: FILE_SHARE_READ | FILE_SHARE_WRITE | FILE_SHARE_DELETE,
            flags: FILE_FLAG_BACKUP_SEMANTICS | FILE_FLAG_OPEN_REPARSE_POINT,
        },
    )
}

/// Starts the deletion of an entry whose handle is open already.
pub fn delete_handle() -> (d: Deletion)
    ensures
        d == Deletion::Dispose(disposition_flags()),
{
    Deletion::Dispose(
        FILE_DISPOSITION_FLAG_DELETE | FILE_DISPOSITION_FLAG_POSIX_SEMANTICS
            | FILE_DISPOSITION_FLAG_IGNORE_READONLY_ATTRIBUTE,
    )
}

/// Starts the removal of a file or a link.
pub fn remove_file(given: &WidePath, absolute: &Option<WidePath>) -> (d: Deletion)
    ensures
        starts_deletion(d, *given, *absolute),
{
    delete(given, absolute)
}

/// Starts the removal of an empty directory.
pub fn remove_dir(given: &WidePath, absolute: &Option<WidePath>) -> (d: Deletion)
    ensures
        starts_deletion(d, *given, *absolute),
{
    delete(given, absolute)
}

impl Deletion {
    /// Moves on, given what came of the step in hand.
    pub fn next(self, event: DeletionEvent) -> (d: Deletion)
        ensures
            d == deletion_advance(self, event),
    {
        match (self, event) {
            (Deletion::Open(_), DeletionEvent::Opened) => delete_handle(),
            (Deletion::Open(_), DeletionEvent::OpenFailed(code)) => Deletion::Finished(
                Err(to_io(code)),
            ),
            (Deletion::Dispose(_), DeletionEvent::Disposed) => Deletion::Close(Ok(())),
            (Deletion::Dispose(_), DeletionEvent::DisposeFailed(code)) => Deletion::Close(
                Err(to_io(code)),
            ),
            (Deletion::Close(result), DeletionEvent::Closed) => Deletion::Finished(result),
            (state, _) => state,
        }
    }
}

/// Why a file could not be removed by way of its parent directory.
#[derive(Clone, Copy, PartialEq, Eq, Structural)]
pub enum DeleteError {
    /// The path has no parent.
    MissingParent,
    /// The path does not end in a name.
    MissingFilename,
    /// The parent is no directory, or is a link to one.
    ParentNotDirectory,
    /// The name takes more bytes than sixteen bits can count.
    NameTooLong,
    /// The system's error code.
    Os(i32),
}

/// The words for an error that is not the system's own.
pub open spec fn message_of(error: DeleteError) -> Option<Seq<char>> {
    match error {
        DeleteError::MissingParent => Some("missing parent"@),
        DeleteError::MissingFilename => Some("missing filename"@),
        DeleteError::ParentNotDirectory => Some("parent is not a non-reparse directory"@),
        DeleteError::NameTooLong => Some("filename exceeds UNICODE_STRING length"@),
        DeleteError::Os(_) => None,
    }
}

impl DeleteError {
    /// The words for this error, unless it is the system's own.
    pub fn message(&self) -> (text: Option<&'static str>)
        ensures
            match text {
                Some(s) => message_of(*self) == Some(s@),
                None => message_of(*self) is None,
            },
    {
        match self {
            DeleteError::MissingParent => Some("missing parent"),
            DeleteError::MissingFilename => Some("missing filename"),
            DeleteError::ParentNotDirectory => Some("parent is not a non-reparse directory"),
            DeleteError::NameTooLong => Some("filename exceeds UNICODE_STRING length"),
            DeleteError::Os(_) => None,
        }
    }
}

/// How a parent directory is opened.
pub struct ParentRequest {
    pub path: LexPath,
    pub access: u32,
    pub share: u32,
    pub flags: u32,
}

/// How a file is opened, by its name in the parent directory. `bytes` is the
/// length of the name in bytes.
pub struct LeafRequest {
    pub name: Vec<u16>,
    pub bytes: u16,
    pub access: u32,
    pub share: u32,
    pub options: u32,
}

/// What was read of an opened parent directory.
#[derive(Clone, Copy)]
pub struct ParentInfo {
    pub is_dir: bool,
    pub attributes: u32,
}

/// The next step in the removal of a file.
pub enum FileStep {
    /// Let go of the parent that is held and open this one.
    OpenParent(ParentRequest),
    /// Open the file in the parent that is held.
    OpenLeaf(LeafRequest),
    /// Delete the opened file.
    Delete(Deletion),
    /// The removal fails.
    Fail(DeleteError),
}

/// A step, by its path and its name.
pub enum FileStepView {
    OpenParent { path: Seq<ComponentView>, access: u32, share: u32, flags: u32 },
    OpenLeaf { name: Seq<u16>, bytes: u16, access: u32, share: u32, options: u32 },
    Delete(Deletion),
    Fail(DeleteError),
}

impl View for FileStep {
    type V = FileStepView;

    open spec fn view(&self) -> FileStepView {
        match self {
            FileStep::OpenParent(r) => FileStepView::OpenParent {
                path: r.path@,
                access: r.access,
                share: r.share,
                flags: r.flags,
            },
            FileStep::OpenLeaf(r) => FileStepView::OpenLeaf {
                name: r.name@,
                bytes: r.bytes,
                access: r.access,
                share: r.share,
                options: r.options,
            },
            FileStep::Delete(deletion) => FileStepView::Delete(*deletion),
            FileStep::Fail(error) => FileStepView::Fail(*error),
        }
    }
}

/// Removes files one after the other, holding on to the directory of the last
/// one. Files of one directory are opened by name in the directory that was
/// opened first, even if something else has taken its path since.
pub struct FileDeleter {
    pub parent: Option<LexPath>,
    pub name: Vec<u16>,
}

/// A deleter, by the path of its parent and its name.
pub struct DeleterView {
    pub parent: Option<Seq<ComponentView>>,
    pub name: Seq<u16>,
}

impl View for FileDeleter {
    type V = DeleterView;

    open spec fn view(&self) -> DeleterView {
        DeleterView { parent: path_view(self.parent), name: self.name@ }
    }
}

/// The open of a parent directory: to read its attributes, and of the directory
/// itself if it is a link.
pub open spec fn open_parent(path: Seq<ComponentView>) -> FileStepView {
    FileStepView::OpenParent {
        path,
        access: FILE_READ_ATTRIBUTES,
        share: share_all(),
        flags: open_flags(),
    }
}

/// The open of a file by its name, which fails if the name is too long for the
/// system to take.
pub open spec fn open_leaf(name: Seq<u16>) -> FileStepView {
    if name.len() * 2 > u16::MAX {
        FileStepView::Fail(DeleteError::NameTooLong)
    } else {
        FileStepView::OpenLeaf {
            name,
            bytes: (name.len() * 2) as u16,
            access: DELETE,
            share: share_all(),
            options: FILE_OPEN_REPARSE_POINT | FILE_OPEN_FOR_BACKUP_INTENT,
        }
    }
}

/// A parent that files may be removed from: a directory, and no link to one.
pub open spec fn plain_directory(info: ParentInfo) -> bool {
    info.is_dir && info.attributes & FILE_ATTRIBUTE_REPARSE_POINT == 0
}

/// The first step in the removal of the file at `path`, and the deleter after
/// it. The parent is opened unless it is the one that is held.
pub open spec fn file_start(d: DeleterView, path: Seq<ComponentView>) -> (
    DeleterView,
    FileStepView,
) {
    match (parent_of(path), file_name_of(path)) {
        (None, _) => (d, FileStepView::Fail(DeleteError::MissingParent)),
        (Some(_), None) => (d, FileStepView::Fail(DeleteError::MissingFilename)),
        (Some(parent), Some(name)) => if d.parent == Some(parent) {
            (DeleterView { parent: d.parent, name }, open_leaf(name))
        } else {
            (DeleterView { parent: None, name: d.name }, open_parent(parent))
        },
    }
}

/// The step after the parent of `path` was opened and read, and the deleter
/// after it. Only a plain directory is held on to.
pub open spec fn file_in_parent(
    d: DeleterView,
    path: Seq<ComponentView>,
    opened: Result<ParentInfo, i32>,
) -> (DeleterView, FileStepView) {
    match (parent_of(path), file_name_of(path)) {
        (None, _) => (d, FileStepView::Fail(DeleteError::MissingParent)),
        (Some(_), None) => (d, FileStepView::Fail(DeleteError::MissingFilename)),
        (Some(parent), Some(name)) => match opened {
            Err(code) => (
                DeleterView { parent: None, name: d.name },
                FileStepView::Fail(DeleteError::Os(code)),
            ),
            Ok(info) => if plain_directory(info) {
                (DeleterView { parent: Some(parent), name }, open_leaf(name))
            } else {
                (
                    DeleterView { parent: None, name: d.name },
                    FileStepView::Fail(DeleteError::ParentNotDirectory),
                )
            },
        },
    }
}

/// The open of a file by its name.
fn leaf(name: &Vec<u16>) -> (step: FileStep)
    ensures
        step@ == open_leaf(name@),
{
    if name.len() > 0x7FFF {
        return FileStep::Fail(DeleteError::NameTooLong);
    }
    let bytes: u16 = (name.len() * 2) as u16;
    FileStep::OpenLeaf(
        LeafRequest {
            name: copy_units(name),
            bytes,
            access: DELETE,
            share: FILE_SHARE_READ | FILE_SHARE_WRITE | FILE_SHARE_DELETE,
            options: FILE_OPEN_REPARSE_POINT | FILE_OPEN_FOR_BACKUP_INTENT,
        },
    )
}

impl Default for FileDeleter {
    fn default() -> (d: FileDeleter)
        ensures
            d@ == (DeleterView { parent: None, name: Seq::empty() }),
    {
        FileDeleter { parent: None, name: Vec::new() }
    }
}

impl FileDeleter {
    /// Starts the removal of the file at `path`.
    pub fn remove_file(&mut self, path: &LexPath) -> (step: FileStep)
        ensures
            (final(self)@, step@) == file_start(old(self)@, path@),
    {
        let parent = match path.parent() {
            Some(parent) => parent,
            None => {
                return FileStep::Fail(DeleteError::MissingParent);
            },
        };
        let name = match path.file_name() {
            Some(name) => name,
            None => {
                return FileStep::Fail(DeleteError::MissingFilename);
            },
        };
        let held = match &self.parent {
            Some(cached) => cached.same_as(&parent),
            None => false,
        };
        if held {
            self.name = name;
            leaf(&self.name)
        } else {
            self.parent = None;
            FileStep::OpenParent(
                ParentRequest {
                    path: parent,
                    access: FILE_READ_ATTRIBUTES,
                    share: FILE_SHARE_READ | FILE_SHARE_WRITE | FILE_SHARE_DELETE,
                    flags: FILE_FLAG_BACKUP_SEMANTICS | FILE_FLAG_OPEN_REPARSE_POINT,
                },
            )
        }
    }

    /// Goes on with the removal of the file at `path` after its parent was
    /// opened and read, or could not be.
    pub fn parent_opened(&mut self, path: &LexPath, opened: Result<ParentInfo, i32>) -> (step:
        FileStep)
        ensures
            (final(self)@, step@) == file_in_parent(old(self)@, path@, opened),
    {
        let parent = match path.parent() {
            Some(parent) => parent,
            None => {
                return FileStep::Fail(DeleteError::MissingParent);
            },
        };
        let name = match path.file_name() {
            Some(name) => name,
            None => {
                return FileStep::Fail(DeleteError::MissingFilename);
            },
        };
        self.parent = None;
        let info = match opened {
            Ok(info) => info,
            Err(code) => {
                return FileStep::Fail(DeleteError::Os(code));
            },
        };
        if !info.is_dir || info.attributes & FILE_ATTRIBUTE_REPARSE_POINT != 0 {
            return FileStep::Fail(DeleteError::ParentNotDirectory);
        }
        self.parent = Some(parent);
        self.name = name;
        leaf(&self.name)
    }
}

/// The step after the open of a file by its name.
pub open spec fn leaf_step(status: i32, code: i32) -> FileStepView {
    if status < 0 {
        FileStepView::Fail(DeleteError::Os(code))
    } else {
        FileStepView::Delete(Deletion::Dispose(disposition_flags()))
    }
}

/// Goes on after the open of a file by its name: a negative status is a
/// failure, with the system's error code for it, and any other leaves a handle
/// to delete by.
pub fn leaf_opened(status: i32, code: i32) -> (step: FileStep)
    ensures
        step@ == leaf_step(status, code),
{
    if status < 0 {
        FileStep::Fail(DeleteError::Os(code))
    } else {
        FileStep::Delete(delete_handle())
    }
}

/// Whatever is opened, it is the entry itself: every open of a path, of a
/// parent and of a name asks for a link and not for what it points at.
pub proof fn law_links_are_not_followed(
    state: Deletion,
    given: WidePath,
    absolute: Option<WidePath>,
    parent: Seq<ComponentView>,
    name: Seq<u16>,
)
    requires
        starts_deletion(state, given, absolute),
    ensures
        state matches Deletion::Open(request) ==> request.flags & FILE_FLAG_OPEN_REPARSE_POINT
            == FILE_FLAG_OPEN_REPARSE_POINT,
        open_parent(parent)->flags & FILE_FLAG_OPEN_REPARSE_POINT == FILE_FLAG_OPEN_REPARSE_POINT,
        open_leaf(name) matches FileStepView::OpenLeaf { options, .. } ==> options
            & FILE_OPEN_REPARSE_POINT == FILE_OPEN_REPARSE_POINT,
{
    assert((FILE_FLAG_BACKUP_SEMANTICS | FILE_FLAG_OPEN_REPARSE_POINT)
        & FILE_FLAG_OPEN_REPARSE_POINT == FILE_FLAG_OPEN_REPARSE_POINT) by (bit_vector);
    assert((FILE_OPEN_REPARSE_POINT | FILE_OPEN_FOR_BACKUP_INTENT) & FILE_OPEN_REPARSE_POINT
        == FILE_OPEN_REPARSE_POINT) by (bit_vector);
}

/// An entry that is deleted vanishes at once, and a read-only one is no
/// exception.
pub proof fn law_deletion_ignores_readonly()
    ensures
        disposition_flags() & FILE_DISPOSITION_FLAG_DELETE == FILE_DISPOSITION_FLAG_DELETE,
        disposition_flags() & FILE_DISPOSITION_FLAG_POSIX_SEMANTICS
            == FILE_DISPOSITION_FLAG_POSIX_SEMANTICS,
        disposition_flags() & FILE_DISPOSITION_FLAG_IGNORE_READONLY_ATTRIBUTE
            == FILE_DISPOSITION_FLAG_IGNORE_READONLY_ATTRIBUTE,
{
    assert((FILE_DISPOSITION_FLAG_DELETE | FILE_DISPOSITION_FLAG_POSIX_SEMANTICS
        | FILE_DISPOSITION_FLAG_IGNORE_READONLY_ATTRIBUTE) & FILE_DISPOSITION_FLAG_DELETE
        == FILE_DISPOSITION_FLAG_DELETE && (FILE_DISPOSITION_FLAG_DELETE
        | FILE_DISPOSITION_FLAG_POSIX_SEMANTICS | FILE_DISPOSITION_FLAG_IGNORE_READONLY_ATTRIBUTE)
        & FILE_DISPOSITION_FLAG_POSIX_SEMANTICS == FILE_DISPOSITION_FLAG_POSIX_SEMANTICS && (
    FILE_DISPOSITION_FLAG_DELETE | FILE_DISPOSITION_FLAG_POSIX_SEMANTICS
        | FILE_DISPOSITION_FLAG_IGNORE_READONLY_ATTRIBUTE)
        & FILE_DISPOSITION_FLAG_IGNORE_READONLY_ATTRIBUTE
        == FILE_DISPOSITION_FLAG_IGNORE_READONLY_ATTRIBUTE) by (bit_vector);
}

/// A handle that was opened is closed before the deletion is finished, whether
/// or not the entry could be marked, and closing it does not change the result.
pub proof fn law_handle_is_closed(state: Deletion, event: DeletionEvent)
    requires
        handle_open(state),
    ensures
        deletion_advance(state, event) is Finished ==> event is Closed && state
            == Deletion::Close(deletion_advance(state, event)->Finished_0),
        !(deletion_advance(state, event) is Finished) ==> handle_open(
            deletion_advance(state, event),
        ),
{
}

/// A deletion ends: an event that changes its state leaves fewer steps, and
/// nothing changes it once it is finished.
pub proof fn law_deletion_ends(state: Deletion, event: DeletionEvent)
    ensures
        deletion_advance(state, event) == state || deletion_steps_left(
            deletion_advance(state, event),
        ) < deletion_steps_left(state),
        state is Finished ==> deletion_advance(state, event) == state,
{
}

/// The name that is opened is the whole path and not the name of another entry:
/// its last unit is zero, and no other is.
pub proof fn law_opened_name_has_one_zero(
    state: Deletion,
    given: WidePath,
    absolute: Option<WidePath>,
)
    requires
        starts_deletion(state, given, absolute),
    ensures
        state matches Deletion::Open(request) ==> {
            &&& request.name@.len() > 0
            &&& request.name@.last() == 0
            &&& forall|i: int| 0 <= i < request.name@.len() - 1 ==> #[trigger] request.name@[i] != 0
        },
{
    if is_openable(chosen_path(given, absolute)) {
        law_only_the_last_unit_is_zero(given, absolute);
    }
}

/// Writing a path adds one zero, at its end, and no other.
pub proof fn law_only_the_last_unit_is_zero(given: WidePath, absolute: Option<WidePath>)
    requires
        is_openable(chosen_path(given, absolute)),
    ensures
        wide_name(given, absolute).last() == 0,
        forall|i: int|
            0 <= i < wide_name(given, absolute).len() - 1 ==> #[trigger] wide_name(
                given,
                absolute,
            )[i] != 0,
{
    let path = chosen_path(given, absolute);
    let units = path.units@;
    let wide = wide_name(given, absolute);
    assert forall|i: int| 0 <= i < wide.len() - 1 implies #[trigger] wide[i] != 0 by {
        let body = verbatim(path.path@, units);
        assert(wide[i] == body[i]);
        match prefix_of(path.path@) {
            Some(PrefixView::Disk(_)) => {
                if i >= 4 {
                    assert(body[i] == units[i - 4]);
                    assert(units.contains(units[i - 4]));
                }
            },
            Some(PrefixView::UNC(_, _)) => {
                if i >= 7 {
                    assert(units.len() > 0);
                    assert(body[i] == units[i - 6]);
                    assert(units.contains(units[i - 6]));
                }
            },
            _ => {
                assert(units.contains(units[i]));
            },
        }
    }
}

/// A path starts with `\\?\`.
pub open spec fn has_verbatim_lead(units: Seq<u16>) -> bool {
    units.len() >= 4 && units.take(4) == verbatim_lead()
}

/// `again` is what the system reads in the text that was written for `path`: a
/// text that starts with `\\?\` has a verbatim prefix, and a text that was
/// written unchanged has the components that it had.
pub open spec fn is_reading(again: WidePath, path: WidePath) -> bool {
    &&& again.units@ == verbatim(path.path@, path.units@)
    &&& has_verbatim_lead(again.units@) ==> (prefix_of(again.path@) matches Some(p) && (
    p is Verbatim || p is VerbatimUNC || p is VerbatimDisk))
    &&& !has_verbatim_lead(again.units@) && again.units@ == path.units@ ==> again.path@
        == path.path@
}

/// Writing a path a second time adds nothing: what was written, read as a path
/// and written again, is the same.
pub proof fn law_second_writing_adds_nothing(
    given: WidePath,
    absolute: Option<WidePath>,
    other: WidePath,
    again: WidePath,
)
    requires
        is_reading(again, chosen_path(given, absolute)),
    ensures
        again.units@ == wide_name(given, absolute).drop_last(),
        wide_name(other, Some(again)) == wide_name(given, absolute),
        wide_name(again, None) == wide_name(given, absolute),
{
    let path = chosen_path(given, absolute);
    let text = verbatim(path.path@, path.units@);
    assert(wide_name(given, absolute).drop_last() =~= text);
    if !has_verbatim_lead(text) {
        match prefix_of(path.path@) {
            Some(PrefixView::Disk(_)) => {
                assert(text.take(4) =~= verbatim_lead());
            },
            Some(PrefixView::UNC(_, _)) => {
                assert(text.take(4) =~= verbatim_lead());
            },
            _ => {},
        }
    }
}

/// A drive path and a share path are always opened in verbatim form, so the
/// limit on the length of a path does not apply to them, and what follows the
/// lead is the path itself.
pub proof fn law_long_paths(given: WidePath, path: WidePath)
    requires
        prefix_of(path.path@) matches Some(p) && (p is Disk || p is UNC),
    ensures
        wide_name(given, Some(path)).take(4) == verbatim_lead(),
        prefix_of(path.path@)->Some_0 is Disk ==> wide_name(given, Some(path)).skip(4)
            == path.units@.push(0),
        prefix_of(path.path@)->Some_0 is UNC && path.units@.len() > 0 ==> wide_name(
            given,
            Some(path),
        ).skip(7) == path.units@.skip(1).push(0),
{
    let wide = wide_name(given, Some(path));
    assert(wide.take(4) =~= verbatim_lead());
    if prefix_of(path.path@)->Some_0 is Disk {
        assert(wide.skip(4) =~= path.units@.push(0));
    } else if path.units@.len() > 0 {
        assert(wide.skip(7) =~= path.units@.skip(1).push(0));
    }
}

/// A path that is verbatim already, names a device or has no prefix is opened
/// as it is written.
pub proof fn law_other_paths_stay(given: WidePath, path: WidePath)
    requires
        !(prefix_of(path.path@) matches Some(p) && (p is Disk || p is UNC)),
    ensures
        wide_name(given, Some(path)) == path.units@.push(0),
{
}

/// A parent that is held keeps its place: for another file in it nothing is
/// opened by path again.
pub proof fn law_held_parent_is_reused(d: DeleterView, path: Seq<ComponentView>)
    requires
        parent_of(path) is Some,
        d.parent == parent_of(path),
    ensures
        !(file_start(d, path).1 is OpenParent),
        file_start(d, path).0.parent == d.parent,
{
}

/// Only a plain directory is ever held: a parent that was just opened stays
/// only if it is a directory and no link, and otherwise none is held.
pub proof fn law_only_plain_directories_held(
    d: DeleterView,
    path: Seq<ComponentView>,
    opened: Result<ParentInfo, i32>,
)
    requires
        parent_of(path) is Some,
        file_name_of(path) is Some,
    ensures
        file_in_parent(d, path, opened).0.parent is Some ==> (opened matches Ok(info)
            && plain_directory(info) && file_in_parent(d, path, opened).0.parent == parent_of(
            path,
        )),
{
}

/// The flags and rights that are asked for, as the system has them.
pub proof fn law_flags()
    ensures
        DELETE == 0x0001_0000,
        FILE_READ_ATTRIBUTES == 0x80,
        share_all() == 0x7,
        open_flags() == 0x0220_0000,
        disposition_flags() == 0x13,
        FILE_OPEN_REPARSE_POINT | FILE_OPEN_FOR_BACKUP_INTENT == 0x0020_4000,
        FILE_ATTRIBUTE_REPARSE_POINT == 0x400,
{
    assert(FILE_SHARE_READ | FILE_SHARE_WRITE | FILE_SHARE_DELETE == 0x7) by (bit_vector);
    assert(FILE_FLAG_BACKUP_SEMANTICS | FILE_FLAG_OPEN_REPARSE_POINT == 0x0220_0000)
        by (bit_vector);
    assert(FILE_DISPOSITION_FLAG_DELETE | FILE_DISPOSITION_FLAG_POSIX_SEMANTICS
        | FILE_DISPOSITION_FLAG_IGNORE_READONLY_ATTRIBUTE == 0x13) by (bit_vector);
    assert(FILE_OPEN_REPARSE_POINT | FILE_OPEN_FOR_BACKUP_INTENT == 0x0020_4000) by (bit_vector);
}

/// The name that is opened is the qualified path, or the given one where there
/// is none, in full. By its first component: a path on any drive has `\\?\` in
/// front, a path on any share `\\?\UNC` in place of its first backslash, and
/// every other path nothing. A zero ends it.
pub proof fn law_names_by_their_prefix(
    given: WidePath,
    absolute: Option<WidePath>,
    path: WidePath,
)
    requires
        absolute == Some(path) || (absolute is None && given == path),
    ensures
        ({
            let parts = path.path.components@;
            let units = path.units@;
            let wide = wide_name(given, absolute);
            if parts.len() == 0 {
                wide == units.push(0)
            } else {
                match parts[0] {
                    Component::Prefix(Prefix::Disk(_)) => wide == seq![
                        0x5Cu16,
                        0x5C,
                        0x3F,
                        0x5C,
                    ] + units.push(0),
                    Component::Prefix(Prefix::UNC(_, _)) => wide == seq![
                        0x5Cu16,
                        0x5C,
                        0x3F,
                        0x5C,
                        0x55,
                        0x4E,
                        0x43,
                    ] + (if units.len() > 0 {
                        units.skip(1)
                    } else {
                        units
                    }).push(0),
                    _ => wide == units.push(0),
                }
            }
        }),
{
    let parts = path.path.components@;
    let units = path.units@;
    let wide = wide_name(given, absolute);
    if parts.len() > 0 {
        assert(path.path@[0] == parts[0]@);
        match parts[0] {
            Component::Prefix(Prefix::Disk(_)) => {
                assert(wide =~= seq![0x5Cu16, 0x5C, 0x3F, 0x5C] + units.push(0));
            },
            Component::Prefix(Prefix::UNC(_, _)) => {
                let rest = if units.len() > 0 {
                    units.skip(1)
                } else {
                    units
                };
                assert(wide =~= seq![0x5Cu16, 0x5C, 0x3F, 0x5C, 0x55, 0x4E, 0x43] + rest.push(0));
            },
            _ => {},
        }
    }
}

/// A deletion by path starts with an open of that very path, for deletion, shared
/// with everyone, and of a link itself. Only a path with a zero in it is not
/// opened: its deletion is over, with the error for a name that cannot be one.
pub proof fn law_deletion_starts_with_an_open(
    state: Deletion,
    given: WidePath,
    absolute: Option<WidePath>,
    path: WidePath,
)
    requires
        starts_deletion(state, given, absolute),
        absolute == Some(path) || (absolute is None && given == path),
    ensures
        (exists|i: int| 0 <= i < path.units@.len() && #[trigger] path.units@[i] == 0) ==> state
            == Deletion::Finished(Err(123)),
        (forall|i: int| 0 <= i < path.units@.len() ==> #[trigger] path.units@[i] != 0) ==> (
        state matches Deletion::Open(request) && request.name@ == wide_name(given, absolute)
            && request.access == 0x0001_0000 && request.share == 0x7 && request.flags
            == 0x0220_0000),
{
    law_flags();
}

/// A deletion goes on by what came of each step: an opened entry is marked to
/// vanish at once, read-only or not, and its handle is closed whatever came of
/// that. Success is success of the marking, and an error is the system's own
/// code, the low half of the one that the call returned.
pub proof fn law_deletion_by_its_events(
    request: OpenRequest,
    flags: u32,
    result: Result<(), i32>,
    wrapped: i32,
    high: int,
    code: i32,
)
    requires
        wrapped == high * 0x1_0000 + code,
        0 <= code < 0x1_0000,
    ensures
        bare_code(wrapped) == code,
        deletion_advance(Deletion::Open(request), DeletionEvent::Opened) == Deletion::Dispose(
            0x13,
        ),
        deletion_advance(Deletion::Open(request), DeletionEvent::OpenFailed(wrapped))
            == Deletion::Finished(Err(code)),
        deletion_advance(Deletion::Dispose(flags), DeletionEvent::Disposed) == Deletion::Close(
            Ok(()),
        ),
        deletion_advance(Deletion::Dispose(flags), DeletionEvent::DisposeFailed(wrapped))
            == Deletion::Close(Err(code)),
        deletion_advance(Deletion::Close(result), DeletionEvent::Closed) == Deletion::Finished(
            result,
        ),
{
    law_flags();
    vstd::arithmetic::div_mod::lemma_fundamental_div_mod_converse(
        wrapped as int,
        0x1_0000,
        high,
        code as int,
    );
}

/// A file is removed by way of its own directory: by its own name if that
/// directory is held, else after the directory, and no other, was opened to be
/// looked at. Every open is of a link itself.
pub proof fn law_file_is_removed_in_its_directory(
    d: DeleterView,
    dir: Seq<ComponentView>,
    name: Seq<u16>,
)
    ensures
        ({
            let (after, step) = file_start(d, dir.push(ComponentView::Normal(name)));
            &&& d.parent == Some(dir) ==> after.parent == Some(dir) && after.name == name && step
                == open_leaf(name)
            &&& d.parent != Some(dir) ==> after.parent is None && after.name == d.name && step == (
            FileStepView::OpenParent { path: dir, access: 0x80, share: 0x7, flags: 0x0220_0000 })
        }),
        name.len() <= 0x7FFF ==> (open_leaf(name) matches FileStepView::OpenLeaf {
            name: opened,
            bytes,
            access,
            share,
            options,
        } && opened == name && bytes == 2 * name.len() && access == 0x0001_0000 && share == 0x7
            && options == 0x0020_4000),
        name.len() > 0x7FFF ==> open_leaf(name) == FileStepView::Fail(DeleteError::NameTooLong),
{
    law_flags();
    let path = dir.push(ComponentView::Normal(name));
    assert(path.drop_last() =~= dir);
}

/// A directory that was opened is held, and the file opened in it, if it is a
/// directory and no link. Otherwise nothing is held and the removal fails, with
/// the system's code if the directory could not be opened.
pub proof fn law_opened_directory_is_looked_at(
    d: DeleterView,
    dir: Seq<ComponentView>,
    name: Seq<u16>,
    opened: Result<ParentInfo, i32>,
)
    ensures
        ({
            let (after, step) = file_in_parent(
                d,
                dir.push(ComponentView::Normal(name)),
                opened,
            );
            match opened {
                Ok(info) => if info.is_dir && info.attributes & 0x400 == 0 {
                    after.parent == Some(dir) && after.name == name && step == open_leaf(name)
                } else {
                    after.parent is None && after.name == d.name && step == FileStepView::Fail(
                        DeleteError::ParentNotDirectory,
                    )
                },
                Err(code) => after.parent is None && after.name == d.name && step
                    == FileStepView::Fail(DeleteError::Os(code)),
            }
        }),
{
    let path = dir.push(ComponentView::Normal(name));
    assert(path.drop_last() =~= dir);
}

/// A path that does not end in a name is no file's: nothing is opened for it and
/// the deleter stays as it is. A root, a prefix and the empty path have no
/// parent, and a dot or two are no name.
pub proof fn law_only_names_are_removed(
    d: DeleterView,
    dir: Seq<ComponentView>,
    end: ComponentView,
    opened: Result<ParentInfo, i32>,
)
    requires
        !(end is Normal),
    ensures
        ({
            let error = if end is Prefix || end is RootDir {
                DeleteError::MissingParent
            } else {
                DeleteError::MissingFilename
            };
            &&& file_start(d, dir.push(end)) == (d, FileStepView::Fail(error))
            &&& file_in_parent(d, dir.push(end), opened) == (d, FileStepView::Fail(error))
        }),
        file_start(d, Seq::empty()) == (d, FileStepView::Fail(DeleteError::MissingParent)),
        file_in_parent(d, Seq::empty(), opened) == (
            d,
            FileStepView::Fail(DeleteError::MissingParent),
        ),
{
}

/// A file that was opened by its name is deleted by its handle, at once and
/// read-only or not, and a file that was not is the system's error.
pub proof fn law_opened_files_are_deleted(status: i32, code: i32)
    ensures
        status >= 0 ==> leaf_step(status, code) == FileStepView::Delete(Deletion::Dispose(0x13)),
        status < 0 ==> leaf_step(status, code) == FileStepView::Fail(DeleteError::Os(code)),
{
    law_flags();
}

/// The words for each error.
pub proof fn law_error_words(code: i32)
    ensures
        message_of(DeleteError::MissingParent) == Some("missing parent"@),
        message_of(DeleteError::MissingFilename) == Some("missing filename"@),
        message_of(DeleteError::ParentNotDirectory) == Some(
            "parent is not a non-reparse directory"@,
        ),
        message_of(DeleteError::NameTooLong) == Some("filename exceeds UNICODE_STRING length"@),
        message_of(DeleteError::Os(code)) is None,
{
}

/// An event that answers nothing changes nothing: a deletion moves on only by
/// what came of the step in hand.
pub proof fn law_stray_events_change_no_deletion(state: Deletion, event: DeletionEvent)
    requires
        match state {
            Deletion::Open(_) => !(event is Opened) && !(event is OpenFailed),
            Deletion::Dispose(_) => !(event is Disposed) && !(event is DisposeFailed),
            Deletion::Close(_) => !(event is Closed),
            Deletion::Finished(_) => true,
        },
    ensures
        deletion_advance(state, event) == state,
{
}

} // verus!
