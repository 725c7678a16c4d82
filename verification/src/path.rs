//! Paths by their components.
//!
//! A path is what the operating system reads in it: a list of components. Two
//! paths are the same if their components are, and a path is deeper the more of
//! them it has.
use vstd::prelude::*;

verus! {

/// What a Windows path starts with, before its root. Names are in UTF-16, a
/// drive is its upper-case letter.
pub enum Prefix {
    /// `\\?\name`
    Verbatim(Vec<u16>),
    /// `\\?\UNC\server\share`
    VerbatimUNC(Vec<u16>, Vec<u16>),
    /// `\\?\C:`
    VerbatimDisk(u8),
    /// `\\.\device`
    DeviceNS(Vec<u16>),
    /// `\\server\share`
    UNC(Vec<u16>, Vec<u16>),
    /// `C:`
    Disk(u8),
}

/// One component of a path. A name is in UTF-16 on Windows; elsewhere each
/// unit is one of its bytes.
pub enum Component {
    Prefix(Prefix),
    RootDir,
    CurDir,
    ParentDir,
    Normal(Vec<u16>),
}

/// A path prefix, by its names.
pub enum PrefixView {
    Verbatim(Seq<u16>),
    VerbatimUNC(Seq<u16>, Seq<u16>),
    VerbatimDisk(u8),
    DeviceNS(Seq<u16>),
    UNC(Seq<u16>, Seq<u16>),
    Disk(u8),
}

/// A component, by its name.
pub enum ComponentView {
    Prefix(PrefixView),
    RootDir,
    CurDir,
    ParentDir,
    Normal(Seq<u16>),
}

impl View for Prefix {
    type V = PrefixView;

    open spec fn view(&self) -> PrefixView {
        match self {
            Prefix::Verbatim(name) => PrefixView::Verbatim(name@),
            Prefix::VerbatimUNC(server, share) => PrefixView::VerbatimUNC(server@, share@),
            Prefix::VerbatimDisk(drive) => PrefixView::VerbatimDisk(*drive),
            Prefix::DeviceNS(name) => PrefixView::DeviceNS(name@),
            Prefix::UNC(server, share) => PrefixView::UNC(server@, share@),
            Prefix::Disk(drive) => PrefixView::Disk(*drive),
        }
    }
}

impl View for Component {
    type V = ComponentView;

    open spec fn view(&self) -> ComponentView {
        match self {
            Component::Prefix(prefix) => ComponentView::Prefix(prefix@),
            Component::RootDir => ComponentView::RootDir,
            Component::CurDir => ComponentView::CurDir,
            Component::ParentDir => ComponentView::ParentDir,
            Component::Normal(name) => ComponentView::Normal(name@),
        }
    }
}

/// A path as the list of its components.
pub struct LexPath {
    pub components: Vec<Component>,
}

impl View for LexPath {
    type V = Seq<ComponentView>;

    open spec fn view(&self) -> Seq<ComponentView> {
        self.components@.map_values(|c: Component| c@)
    }
}

/// The path without its last component. A path that ends in its root or its
/// prefix has no parent, and neither has the empty path.
pub open spec fn parent_of(path: Seq<ComponentView>) -> Option<Seq<ComponentView>> {
    if path.len() == 0 || path.last() is Prefix || path.last() is RootDir {
        None
    } else {
        Some(path.drop_last())
    }
}

/// The name that a path ends in, if it ends in one.
pub open spec fn file_name_of(path: Seq<ComponentView>) -> Option<Seq<u16>> {
    if path.len() > 0 && path.last() is Normal {
        Some(path.last()->Normal_0)
    } else {
        None
    }
}

/// The path leads to a root and no further: it has components but no parent. The
/// empty path leads nowhere.
pub open spec fn is_bare_root(path: Seq<ComponentView>) -> bool {
    path.len() > 0 && parent_of(path) is None
}

/// A path is a root if it leads to one and no further, once it is fully
/// qualified. Where it could not be qualified it is judged as it was given.
pub open spec fn root_path(
    given: Seq<ComponentView>,
    absolute: Option<Seq<ComponentView>>,
) -> bool {
    match absolute {
        Some(path) => is_bare_root(path),
        None => is_bare_root(given),
    }
}

/// The components of a path that may be missing.
pub open spec fn path_view(path: Option<LexPath>) -> Option<Seq<ComponentView>> {
    match path {
        Some(p) => Some(p@),
        None => None,
    }
}

/// Copies a name.
pub(crate) fn copy_units(units: &Vec<u16>) -> (copy: Vec<u16>)
    ensures
        copy@ == units@,
{
    let copy = units.clone();
    assert(copy@ =~= units@);
    copy
}

/// Compares two names unit by unit.
fn same_units(a: &Vec<u16>, b: &Vec<u16>) -> (same: bool)
    ensures
        same == (a@ == b@),
{
    if a.len() != b.len() {
        return false;
    }
    let mut i: usize = 0;
    while i < a.len()
        invariant
            a.len() == b.len(),
            i <= a.len(),
            forall|j: int| 0 <= j < i ==> a@[j] == b@[j],
        decreases a.len() - i,
    {
        if a[i] != b[i] {
            return false;
        }
        i += 1;
    }
    assert(a@ =~= b@);
    true
}

impl Prefix {
    fn copy(&self) -> (copy: Prefix)
        ensures
            copy@ == self@,
    {
        match self {
            Prefix::Verbatim(name) => Prefix::Verbatim(copy_units(name)),
            Prefix::VerbatimUNC(server, share) => Prefix::VerbatimUNC(
                copy_units(server),
                copy_units(share),
            ),
            Prefix::VerbatimDisk(drive) => Prefix::VerbatimDisk(*drive),
            Prefix::DeviceNS(name) => Prefix::DeviceNS(copy_units(name)),
            Prefix::UNC(server, share) => Prefix::UNC(copy_units(server), copy_units(share)),
            Prefix::Disk(drive) => Prefix::Disk(*drive),
        }
    }

    fn same_as(&self, other: &Prefix) -> (same: bool)
        ensures
            same == (self@ == other@),
    {
        match (self, other) {
            (Prefix::Verbatim(a), Prefix::Verbatim(b)) => same_units(a, b),
            (Prefix::VerbatimUNC(a, x), Prefix::VerbatimUNC(b, y)) => same_units(a, b)
                && same_units(x, y),
            (Prefix::VerbatimDisk(a), Prefix::VerbatimDisk(b)) => *a == *b,
            (Prefix::DeviceNS(a), Prefix::DeviceNS(b)) => same_units(a, b),
            (Prefix::UNC(a, x), Prefix::UNC(b, y)) => same_units(a, b) && same_units(x, y),
            (Prefix::Disk(a), Prefix::Disk(b)) => *a == *b,
            _ => false,
        }
    }
}

impl Component {
    fn copy(&self) -> (copy: Component)
        ensures
            copy@ == self@,
    {
        match self {
            Component::Prefix(prefix) => Component::Prefix(prefix.copy()),
            Component::RootDir => Component::RootDir,
            Component::CurDir => Component::CurDir,
            Component::ParentDir => Component::ParentDir,
            Component::Normal(name) => Component::Normal(copy_units(name)),
        }
    }

    fn same_as(&self, other: &Component) -> (same: bool)
        ensures
            same == (self@ == other@),
    {
        match (self, other) {
            (Component::Prefix(a), Component::Prefix(b)) => a.same_as(b),
            (Component::RootDir, Component::RootDir) => true,
            (Component::CurDir, Component::CurDir) => true,
            (Component::ParentDir, Component::ParentDir) => true,
            (Component::Normal(a), Component::Normal(b)) => same_units(a, b),
            _ => false,
        }
    }
}

impl LexPath {
    /// The path without its last component, if it has a parent.
    pub fn parent(&self) -> (parent: Option<LexPath>)
        ensures
            path_view(parent) == parent_of(self@),
    {
        if self.components.len() == 0 {
            return None;
        }
        let end: usize = self.components.len() - 1;
        assert(self@.last() == self.components@[end as int]@);
        match &self.components[end] {
            Component::Prefix(_) => None,
            Component::RootDir => None,
            _ => {
                let mut components: Vec<Component> = Vec::new();
                let mut i: usize = 0;
                while i < end
                    invariant
                        i <= end < self.components.len(),
                        components.len() == i,
                        forall|j: int| 0 <= j < i ==> (#[trigger] components@[j])@ == self@[j],
                    decreases end - i,
                {
                    components.push(self.components[i].copy());
                    i += 1;
                }
                let parent = LexPath { components };
                assert(parent@ =~= self@.drop_last());
                Some(parent)
            },
        }
    }

    /// The name that the path ends in, if it ends in one.
    pub fn file_name(&self) -> (name: Option<Vec<u16>>)
        ensures
            match name {
                Some(units) => file_name_of(self@) == Some(units@),
                None => file_name_of(self@) is None,
            },
    {
        if self.components.len() == 0 {
            return None;
        }
        let end: usize = self.components.len() - 1;
        assert(self@.last() == self.components@[end as int]@);
        match &self.components[end] {
            Component::Normal(name) => Some(copy_units(name)),
            _ => None,
        }
    }

    /// Compares two paths component by component.
    pub fn same_as(&self, other: &LexPath) -> (same: bool)
        ensures
            same == (self@ == other@),
    {
        if self.components.len() != other.components.len() {
            assert(self@.len() != other@.len());
            return false;
        }
        let mut i: usize = 0;
        while i < self.components.len()
            invariant
                self.components.len() == other.components.len(),
                i <= self.components.len(),
                forall|j: int| 0 <= j < i ==> self@[j] == other@[j],
            decreases self.components.len() - i,
        {
            if !self.components[i].same_as(&other.components[i]) {
                assert(self@[i as int] != other@[i as int]);
                return false;
            }
            i += 1;
        }
        assert(self@ =~= other@);
        true
    }
}

/// Says whether a path is a filesystem root: `/`, a drive or a share.
/// `absolute` is the path fully qualified, if that worked. The empty path is no
/// root.
pub fn is_root(given: &LexPath, absolute: &Option<LexPath>) -> (root: bool)
    ensures
        root == root_path(given@, path_view(*absolute)),
{
    match absolute {
        Some(path) => path.components.len() > 0 && path.parent().is_none(),
        None => given.components.len() > 0 && given.parent().is_none(),
    }
}

/// The depth of a path: the number of its components.
pub fn depth_of(path: &LexPath) -> (depth: usize)
    ensures
        depth == path@.len(),
{
    path.components.len()
}

/// Components as a path has them: a prefix comes first if there is one, and the
/// root directly after it or first.
pub open spec fn well_formed(path: Seq<ComponentView>) -> bool {
    forall|i: int|
        0 <= i < path.len() ==> match #[trigger] path[i] {
            ComponentView::Prefix(_) => i == 0,
            ComponentView::RootDir => i == 0 || (i == 1 && path[0] is Prefix),
            _ => true,
        }
}

/// The guard against roots is exact: a path is taken for a root if and only if
/// there is something in it, and nothing in it goes beyond its prefix and its
/// root.
pub proof fn law_root_is_exact(path: Seq<ComponentView>)
    requires
        well_formed(path),
    ensures
        is_bare_root(path) <==> path.len() > 0 && forall|i: int|
            0 <= i < path.len() ==> (#[trigger] path[i]) is Prefix || path[i] is RootDir,
{
    if is_bare_root(path) {
        assert forall|i: int| 0 <= i < path.len() implies (#[trigger] path[i]) is Prefix
            || path[i] is RootDir by {
            let last = path.len() - 1;
            assert(path[last] is Prefix || path[last] is RootDir);
            if i < last {
                assert(i == 0);
            }
        }
    } else if path.len() > 0 {
        assert(!(path[path.len() - 1] is Prefix));
        assert(!(path[path.len() - 1] is RootDir));
    }
}

/// A path that ends in a name is never taken for a root, and its parent is
/// shorter by that name.
pub proof fn law_named_paths_are_not_roots(path: Seq<ComponentView>)
    requires
        file_name_of(path) is Some,
    ensures
        !is_bare_root(path),
        parent_of(path) == Some(path.drop_last()),
        path == path.drop_last().push(ComponentView::Normal(file_name_of(path)->Some_0)),
{
    assert(path =~= path.drop_last().push(path.last()));
}

/// Two components are of one kind, with the same names and the same drive.
pub open spec fn alike(a: Component, b: Component) -> bool {
    match (a, b) {
        (Component::Prefix(p), Component::Prefix(q)) => match (p, q) {
            (Prefix::Verbatim(x), Prefix::Verbatim(y)) => x@ == y@,
            (Prefix::VerbatimUNC(x, s), Prefix::VerbatimUNC(y, t)) => x@ == y@ && s@ == t@,
            (Prefix::VerbatimDisk(x), Prefix::VerbatimDisk(y)) => x == y,
            (Prefix::DeviceNS(x), Prefix::DeviceNS(y)) => x@ == y@,
            (Prefix::UNC(x, s), Prefix::UNC(y, t)) => x@ == y@ && s@ == t@,
            (Prefix::Disk(x), Prefix::Disk(y)) => x == y,
            _ => false,
        },
        (Component::RootDir, Component::RootDir) => true,
        (Component::CurDir, Component::CurDir) => true,
        (Component::ParentDir, Component::ParentDir) => true,
        (Component::Normal(x), Component::Normal(y)) => x@ == y@,
        _ => false,
    }
}

/// Paths are told apart by their components, and components by all that is in
/// them: two paths are the same if and only if they have equally many, each like
/// the other.
pub proof fn law_paths_are_told_apart(a: LexPath, b: LexPath)
    ensures
        a@.len() == a.components@.len(),
        a@ == b@ <==> a.components@.len() == b.components@.len() && forall|i: int|
            0 <= i < a.components@.len() ==> alike(
                #[trigger] a.components@[i],
                b.components@[i],
            ),
{
    if a.components@.len() == b.components@.len() {
        assert forall|i: int| 0 <= i < a.components@.len() implies (a@[i] == b@[i]) == alike(
            #[trigger] a.components@[i],
            b.components@[i],
        ) by {
            assert(a@[i] == a.components@[i]@ && b@[i] == b.components@[i]@);
        }
        if forall|i: int|
            0 <= i < a.components@.len() ==> alike(#[trigger] a.components@[i], b.components@[i]) {
            assert forall|i: int| 0 <= i < a@.len() implies a@[i] == b@[i] by {
                assert(alike(a.components@[i], b.components@[i]));
            }
            assert(a@ =~= b@);
        }
    } else {
        assert(a@.len() != b@.len());
    }
}

/// A step into a directory can be taken back: the parent of a path with one more
/// component is the path, unless that component is a prefix or a root, which
/// have no parent. The empty path has none either.
pub proof fn law_parent_undoes_a_step(path: Seq<ComponentView>, step: ComponentView)
    ensures
        parent_of(path.push(step)) == (match step {
            ComponentView::Prefix(_) => None,
            ComponentView::RootDir => None,
            ComponentView::CurDir => Some(path),
            ComponentView::ParentDir => Some(path),
            ComponentView::Normal(_) => Some(path),
        }),
        parent_of(Seq::empty()) is None,
{
    assert(path.push(step).drop_last() =~= path);
}

/// The name of a path is the name that was stepped into last, and a path that
/// ends in anything else has none.
pub proof fn law_name_is_the_last_step(path: Seq<ComponentView>, step: ComponentView)
    ensures
        file_name_of(path.push(step)) == (match step {
            ComponentView::Normal(name) => Some(name),
            _ => None,
        }),
        file_name_of(Seq::empty()) is None,
{
}

/// Every root is taken for one, whatever its drive, its share or its device: a
/// path with something in it, and nothing but prefixes and roots, is a root. It
/// does not matter how the path was given, if it could be qualified.
pub proof fn law_bare_roots_are_roots(given: LexPath, path: LexPath)
    requires
        path.components@.len() > 0,
        forall|i: int|
            0 <= i < path.components@.len() ==> (#[trigger] path.components@[i]) is Prefix
                || path.components@[i] is RootDir,
    ensures
        root_path(given@, Some(path@)),
        root_path(path@, None),
{
    assert(path@.last() == path.components@.last()@);
}

/// Nothing else is taken for a root: neither the empty path nor one that goes on
/// after its root, by a name or by a dot or two.
pub proof fn law_longer_paths_are_no_roots(given: LexPath, path: LexPath)
    requires
        path.components@.len() == 0 || path.components@.last() is Normal
            || path.components@.last() is CurDir || path.components@.last() is ParentDir,
    ensures
        !root_path(given@, Some(path@)),
        !root_path(path@, None),
{
    if path.components@.len() > 0 {
        assert(path@.last() == path.components@.last()@);
    }
}

} // verus!
