//! Removal through the portable file operations. A first failure is taken for a
//! read-only entry: its permissions are cleared and the removal is tried once
//! more.
use vstd::prelude::*;

verus! {

/// Whether the entry is removed as a file or as a directory. A link counts as a
/// file, whatever it points at.
#[derive(Clone, Copy, PartialEq, Eq, Structural)]
pub enum EntryType {
    File,
    Directory,
}

/// What was read of an entry, without following it if it is a link.
#[derive(Clone, Copy)]
pub struct Metadata {
    pub symlink: bool,
    pub readonly: bool,
}

/// Where a removal stands. All states but the last name the next step.
pub enum Removal<E> {
    /// Remove the entry.
    Attempt(EntryType),
    /// Read the entry's metadata.
    Inspect(EntryType),
    /// Clear the entry's read-only permission.
    MakeWritable(EntryType),
    /// Remove the entry once more.
    Retry(EntryType),
    /// Nothing is left to do, and this is the result.
    Finished(Result<(), E>),
}

/// What came of a step.
pub enum Event<E> {
    /// The entry was removed.
    Removed,
    /// The entry could not be removed.
    Failed(E),
    /// The metadata could be read.
    Found(Metadata),
    /// The metadata could not be read.
    NotFound,
    /// The permission was changed, or could not be.
    Changed,
}

/// Whether the read-only permission of an entry is cleared. Changing the
/// permissions of a link would change those of what it points at, so links are
/// left alone.
pub open spec fn clears(metadata: Option<Metadata>) -> bool {
    match metadata {
        Some(m) => !m.symlink && m.readonly,
        None => false,
    }
}

/// The state that follows `state` when `event` comes. An event that does not
/// answer the step in hand changes nothing.
pub open spec fn advance<E>(state: Removal<E>, event: Event<E>) -> Removal<E> {
    match (state, event) {
        (Removal::Attempt(_), Event::Removed) => Removal::Finished(Ok(())),
        (Removal::Attempt(entry), Event::Failed(_)) => Removal::Inspect(entry),
        (Removal::Inspect(entry), Event::Found(m)) => if clears(Some(m)) {
            Removal::MakeWritable(entry)
        } else {
            Removal::Retry(entry)
        },
        (Removal::Inspect(entry), Event::NotFound) => Removal::Retry(entry),
        (Removal::MakeWritable(entry), Event::Changed) => Removal::Retry(entry),
        (Removal::Retry(_), Event::Removed) => Removal::Finished(Ok(())),
        (Removal::Retry(_), Event::Failed(error)) => Removal::Finished(Err(error)),
        (_, _) => state,
    }
}

/// `event` is an answer to the step that `state` names.
pub open spec fn answers<E>(state: Removal<E>, event: Event<E>) -> bool {
    match state {
        Removal::Attempt(_) => event is Removed || event is Failed,
        Removal::Inspect(_) => event is Found || event is NotFound,
        Removal::MakeWritable(_) => event is Changed,
        Removal::Retry(_) => event is Removed || event is Failed,
        Removal::Finished(_) => false,
    }
}

/// How many steps may still come.
pub open spec fn steps_left<E>(state: Removal<E>) -> nat {
    match state {
        Removal::Attempt(_) => 4,
        Removal::Inspect(_) => 3,
        Removal::MakeWritable(_) => 2,
        Removal::Retry(_) => 1,
        Removal::Finished(_) => 0,
    }
}

/// How often the entry may still be removed.
pub open spec fn tries_left<E>(state: Removal<E>) -> nat {
    match state {
        Removal::Attempt(_) => 2,
        Removal::Finished(_) => 0,
        _ => 1,
    }
}

/// Decides whether the read-only permission of an entry is cleared, given its
/// metadata, if that could be read.
pub fn clear_readonly(metadata: Option<Metadata>) -> (clear: bool)
    ensures
        clear == clears(metadata),
{
    match metadata {
        Some(m) => !m.symlink && m.readonly,
        None => false,
    }
}

/// Starts the removal of a file or a link.
pub fn remove_file<E>() -> (r: Removal<E>)
    ensures
        r == Removal::<E>::Attempt(EntryType::File),
{
    Removal::Attempt(EntryType::File)
}

/// Starts the removal of an empty directory.
pub fn remove_dir<E>() -> (r: Removal<E>)
    ensures
        r == Removal::<E>::Attempt(EntryType::Directory),
{
    Removal::Attempt(EntryType::Directory)
}

impl<E> Removal<E> {
    /// Moves on, given what came of the step in hand.
    pub fn next(self, event: Event<E>) -> (r: Removal<E>)
        ensures
            r == advance(self, event),
    {
        match (self, event) {
            (Removal::Attempt(_), Event::Removed) => Removal::Finished(Ok(())),
            (Removal::Attempt(entry), Event::Failed(_)) => Removal::Inspect(entry),
            (Removal::Inspect(entry), Event::Found(m)) => if clear_readonly(Some(m)) {
                Removal::MakeWritable(entry)
            } else {
                Removal::Retry(entry)
            },
            (Removal::Inspect(entry), Event::NotFound) => Removal::Retry(entry),
            (Removal::MakeWritable(entry), Event::Changed) => Removal::Retry(entry),
            (Removal::Retry(_), Event::Removed) => Removal::Finished(Ok(())),
            (Removal::Retry(_), Event::Failed(error)) => Removal::Finished(Err(error)),
            (state, _) => state,
        }
    }
}

/// The permissions of a link are never changed: the step that clears them comes
/// up only for an entry that was just read as read-only and as no link.
pub proof fn law_links_keep_permissions<E>(state: Removal<E>, event: Event<E>)
    requires
        !(state is MakeWritable),
        advance(state, event) is MakeWritable,
    ensures
        event matches Event::Found(m) && !m.symlink && m.readonly,
{
}

/// A removal ends: each answered step leaves fewer of them, and never more
/// tries. There are two tries at most, and every answered try uses one up.
pub proof fn law_removal_ends<E>(state: Removal<E>, event: Event<E>)
    requires
        answers(state, event),
    ensures
        steps_left(advance(state, event)) < steps_left(state),
        tries_left(advance(state, event)) <= tries_left(state),
        event is Removed || event is Failed ==> tries_left(advance(state, event)) < tries_left(
            state,
        ),
{
}

/// The result is that of the last try: success as soon as the entry is gone,
/// and failure only after the second try, with the error of that one.
pub proof fn law_result_of_last_try<E>(state: Removal<E>, event: Event<E>)
    requires
        !(state is Finished),
        advance(state, event) is Finished,
    ensures
        match advance(state, event)->Finished_0 {
            Ok(_) => event is Removed,
            Err(error) => state is Retry && event == Event::<E>::Failed(error),
        },
{
}

/// The type of entry that a removal is about, until it is finished.
pub open spec fn entry_of<E>(state: Removal<E>) -> Option<EntryType> {
    match state {
        Removal::Attempt(entry) => Some(entry),
        Removal::Inspect(entry) => Some(entry),
        Removal::MakeWritable(entry) => Some(entry),
        Removal::Retry(entry) => Some(entry),
        Removal::Finished(_) => None,
    }
}

/// A removal keeps to the type of entry that it was started for.
pub proof fn law_entry_type_kept<E>(state: Removal<E>, event: Event<E>)
    ensures
        advance(state, event) is Finished || entry_of(advance(state, event)) == entry_of(state),
{
}

/// A permission is cleared where it stands in the way and only there: on a
/// read-only entry that is no link.
pub proof fn law_read_only_entries_are_cleared(m: Metadata)
    ensures
        clears(Some(m)) <==> m.readonly && !m.symlink,
        !clears(None),
{
}

/// A first failure leads to exactly one more try. Before it the metadata is
/// read, and a read-only entry that is no link is made writable. The entry stays
/// what it was taken for, and the second result is the result.
pub proof fn law_second_try_follows<E>(entry: EntryType, m: Metadata, first: E, second: E)
    ensures
        advance(Removal::<E>::Attempt(entry), Event::Removed) == Removal::<E>::Finished(Ok(())),
        advance(Removal::<E>::Attempt(entry), Event::Failed(first)) == Removal::<E>::Inspect(
            entry,
        ),
        m.readonly && !m.symlink ==> advance(Removal::<E>::Inspect(entry), Event::Found(m))
            == Removal::<E>::MakeWritable(entry),
        !m.readonly || m.symlink ==> advance(Removal::<E>::Inspect(entry), Event::Found(m))
            == Removal::<E>::Retry(entry),
        advance(Removal::<E>::Inspect(entry), Event::NotFound) == Removal::<E>::Retry(entry),
        advance(Removal::<E>::MakeWritable(entry), Event::Changed) == Removal::<E>::Retry(entry),
        advance(Removal::<E>::Retry(entry), Event::Removed) == Removal::<E>::Finished(Ok(())),
        advance(Removal::<E>::Retry(entry), Event::Failed(second)) == Removal::<E>::Finished(
            Err(second),
        ),
{
}

/// An event that answers nothing changes nothing.
pub proof fn law_stray_events_change_nothing<E>(state: Removal<E>, event: Event<E>)
    requires
        !answers(state, event),
    ensures
        advance(state, event) == state,
{
}

} // verus!
