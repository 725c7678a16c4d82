//! The order in which the directories of a tree are removed.
//!
//! A directory can only be removed once it is empty, so every directory below
//! it has to go first. Under one root, a longer path is a deeper path, so
//! directories are removed in batches of falling component count. No directory
//! of a batch lies below another of the same batch, so a batch may be removed
//! in parallel.
use vstd::prelude::*;
use vstd::multiset::Multiset;

verus! {

/// A directory found by the walk. `depth` is the number of components of its
/// path.
pub struct Dir<P> {
    pub depth: usize,
    pub path: P,
}

/// Directories of one depth, in the order in which the walk found them.
pub struct Batch<P> {
    pub depth: usize,
    pub dirs: Vec<P>,
}

/// The paths of `dirs`, in order.
pub open spec fn paths<P>(dirs: Seq<Dir<P>>) -> Seq<P> {
    dirs.map_values(|d: Dir<P>| d.path)
}

/// The paths of those of `dirs` that lie at `depth`, in order.
pub open spec fn at_depth<P>(dirs: Seq<Dir<P>>, depth: usize) -> Seq<P> {
    paths(dirs.filter(|d: Dir<P>| d.depth == depth))
}

/// Some batch holds the directories at `depth`.
pub open spec fn has_depth<P>(batches: Seq<Batch<P>>, depth: usize) -> bool {
    exists|k: int| 0 <= k < batches.len() && (#[trigger] batches[k]).depth == depth
}

/// `batches` are `dirs` grouped by depth, deepest first. A batch is never
/// empty, and within a batch the order of `dirs` is kept.
pub open spec fn is_schedule<P>(dirs: Seq<Dir<P>>, batches: Seq<Batch<P>>) -> bool {
    &&& forall|i: int, j: int|
        0 <= i < j < batches.len() ==> (#[trigger] batches[i]).depth > (
        #[trigger] batches[j]).depth
    &&& forall|k: int|
        0 <= k < batches.len() ==> (#[trigger] batches[k]).dirs@ == at_depth(
            dirs,
            batches[k].depth,
        )
    &&& forall|k: int| 0 <= k < batches.len() ==> (#[trigger] batches[k]).dirs@.len() > 0
    &&& forall|i: int|
        0 <= i < dirs.len() ==> has_depth(batches, (#[trigger] dirs[i]).depth)
}

/// The paths of all batches, in the order in which they are removed.
pub open spec fn removal_order<P>(batches: Seq<Batch<P>>) -> Seq<P>
    decreases batches.len(),
{
    if batches.len() == 0 {
        Seq::empty()
    } else {
        batches[0].dirs@ + removal_order(batches.skip(1))
    }
}

/// One more directory adds its path to those at its own depth, and to no
/// other.
proof fn lemma_at_depth_push<P>(dirs: Seq<Dir<P>>, d: Dir<P>, depth: usize)
    ensures
        at_depth(dirs.push(d), depth) == (if d.depth == depth {
            at_depth(dirs, depth).push(d.path)
        } else {
            at_depth(dirs, depth)
        }),
{
    let pred = |x: Dir<P>| x.depth == depth;
    dirs.lemma_filter_push(d, pred);
    assert(at_depth(dirs.push(d), depth) =~= (if d.depth == depth {
        at_depth(dirs, depth).push(d.path)
    } else {
        at_depth(dirs, depth)
    }));
}

/// No path is at a depth that none of the directories has.
proof fn lemma_at_depth_absent<P>(dirs: Seq<Dir<P>>, depth: usize)
    requires
        forall|i: int| 0 <= i < dirs.len() ==> (#[trigger] dirs[i]).depth != depth,
    ensures
        at_depth(dirs, depth) == Seq::<P>::empty(),
{
    let pred = |x: Dir<P>| x.depth == depth;
    dirs.lemma_all_neg_filter_empty(pred);
    assert(at_depth(dirs, depth) =~= Seq::<P>::empty());
}

/// Adds one directory to the batch of its depth, opening that batch if there
/// is none yet.
fn place<P>(batches: &mut Vec<Batch<P>>, dir: Dir<P>, seen: Ghost<Seq<Dir<P>>>)
    requires
        is_schedule(seen@, old(batches)@),
    ensures
        is_schedule(seen@.push(dir), final(batches)@),
{
    let mut k: usize = 0;
    while k < batches.len() && batches[k].depth > dir.depth
        invariant
            k <= batches.len(),
            batches@ == old(batches)@,
            forall|i: int| 0 <= i < k ==> (#[trigger] batches[i]).depth > dir.depth,
        decreases batches.len() - k,
    {
        k += 1;
    }
    let ghost before = batches@;
    let ghost added = seen@.push(dir);
    proof {
        assert forall|depth: usize| #[trigger] at_depth(added, depth) == (if dir.depth == depth {
            at_depth(seen@, depth).push(dir.path)
        } else {
            at_depth(seen@, depth)
        }) by {
            lemma_at_depth_push(seen@, dir, depth);
        }
    }
    if k < batches.len() && batches[k].depth == dir.depth {
        batches[k].dirs.push(dir.path);
        proof {
            assert forall|i: int| 0 <= i < added.len() implies has_depth(
                batches@,
                (#[trigger] added[i]).depth,
            ) by {
                if i < seen@.len() {
                    assert(has_depth(before, seen@[i].depth));
                    let m = choose|m: int|
                        0 <= m < before.len() && (#[trigger] before[m]).depth == seen@[i].depth;
                    assert(batches@[m].depth == seen@[i].depth);
                } else {
                    assert(batches@[k as int].depth == dir.depth);
                }
            }
        }
    } else {
        let depth = dir.depth;
        let mut dirs: Vec<P> = Vec::new();
        dirs.push(dir.path);
        let batch = Batch { depth, dirs };
        batches.insert(k, batch);
        proof {
            assert forall|i: int| 0 <= i < before.len() implies (#[trigger] before[i]).depth
                != dir.depth by {
                if k <= i {
                    if k < i {
                        assert(before[k as int].depth > before[i].depth);
                    }
                }
            }
            assert forall|i: int| 0 <= i < seen@.len() implies (#[trigger] seen@[i]).depth
                != dir.depth by {
                assert(has_depth(before, seen@[i].depth));
            }
            lemma_at_depth_absent(seen@, dir.depth);
            assert(batches@[k as int].dirs@ =~= at_depth(added, dir.depth));
            assert forall|i: int, j: int| 0 <= i < j < batches@.len() implies (
            #[trigger] batches@[i]).depth > (#[trigger] batches@[j]).depth by {
                let a = if i < k { i } else { i - 1 };
                let b = if j < k { j } else { j - 1 };
                if i != k && j != k {
                    assert(before[a].depth > before[b].depth);
                } else if i == k {
                    assert(before[b].depth != dir.depth);
                    if b > k {
                        assert(before[k as int].depth > before[b].depth);
                    }
                } else {
                    assert(before[a].depth > dir.depth);
                }
            }
            assert forall|i: int| 0 <= i < batches@.len() implies (
            #[trigger] batches@[i]).dirs@ == at_depth(added, batches@[i].depth)
                && batches@[i].dirs@.len() > 0 by {
                if i < k {
                    assert(batches@[i] == before[i]);
                } else if i > k {
                    assert(batches@[i] == before[i - 1]);
                }
            }
            assert forall|i: int| 0 <= i < added.len() implies has_depth(
                batches@,
                (#[trigger] added[i]).depth,
            ) by {
                if i < seen@.len() {
                    assert(has_depth(before, seen@[i].depth));
                    let m = choose|m: int|
                        0 <= m < before.len() && (#[trigger] before[m]).depth == seen@[i].depth;
                    let at = if m < k { m } else { m + 1 };
                    assert(batches@[at] == before[m]);
                } else {
                    assert(batches@[k as int].depth == dir.depth);
                }
            }
        }
    }
}

/// Groups directories by depth, deepest first.
pub fn schedule<P>(dirs: Vec<Dir<P>>) -> (batches: Vec<Batch<P>>)
    ensures
        is_schedule(dirs@, batches@),
{
    let mut batches: Vec<Batch<P>> = Vec::new();
    let ghost all = dirs@;
    for dir in it: dirs
        invariant
            it.seq() == all,
            is_schedule(all.take(it.index()), batches@),
    {
        let ghost i = it.index();
        let ghost seen = all.take(i);
        proof {
            assert(all.take(i + 1) =~= seen.push(all[i]));
        }
        place(&mut batches, dir, Ghost(seen));
    }
    proof {
        assert(all.take(all.len() as int) =~= all);
    }
    batches
}

/// `lower` is the path of something inside the directory at `upper`: its
/// components begin with all of those of `upper`, and there are more of them.
pub open spec fn is_below<C>(lower: Seq<C>, upper: Seq<C>) -> bool {
    &&& upper.len() < lower.len()
    &&& lower.take(upper.len() as int) == upper
}

/// The recorded depth of each directory is the number of components of its
/// path.
pub open spec fn depths_agree<P, C>(dirs: Seq<Dir<P>>, components: spec_fn(P) -> Seq<C>) -> bool {
    forall|i: int|
        0 <= i < dirs.len() ==> (#[trigger] dirs[i]).depth == components(dirs[i].path).len()
}

/// A path at some depth is that of a directory at that depth.
pub(crate) proof fn lemma_at_depth_source<P>(dirs: Seq<Dir<P>>, depth: usize, x: int) -> (m: int)
    requires
        0 <= x < at_depth(dirs, depth).len(),
    ensures
        0 <= m < dirs.len(),
        dirs[m].depth == depth,
        dirs[m].path == at_depth(dirs, depth)[x],
{
    let pred = |d: Dir<P>| d.depth == depth;
    let chosen = dirs.filter(pred);
    dirs.lemma_filter_pred(pred, x);
    dirs.lemma_filter_contains_rev(pred, chosen[x]);
    let m = choose|m: int| 0 <= m < dirs.len() && dirs[m] == chosen[x];
    m
}

/// The path of a directory is among those at its depth.
pub(crate) proof fn lemma_at_depth_holds<P>(dirs: Seq<Dir<P>>, m: int) -> (x: int)
    requires
        0 <= m < dirs.len(),
    ensures
        0 <= x < at_depth(dirs, dirs[m].depth).len(),
        at_depth(dirs, dirs[m].depth)[x] == dirs[m].path,
{
    let depth = dirs[m].depth;
    let pred = |d: Dir<P>| d.depth == depth;
    let chosen = dirs.filter(pred);
    dirs.lemma_filter_contains(pred, m);
    let x = choose|x: int| 0 <= x < chosen.len() && chosen[x] == dirs[m];
    x
}

/// What lies below a directory is removed in an earlier batch.
///
/// Whatever the components of the paths are, as long as each directory was
/// recorded with their number: where the second directory lies below the
/// first, its batch comes strictly earlier. So no directory of a batch lies
/// below another one of that batch, and by the time a directory is reached
/// every directory below it has had its turn.
pub proof fn law_children_first<P, C>(
    dirs: Seq<Dir<P>>,
    batches: Seq<Batch<P>>,
    components: spec_fn(P) -> Seq<C>,
    i: int,
    x: int,
    j: int,
    y: int,
)
    requires
        is_schedule(dirs, batches),
        depths_agree(dirs, components),
        0 <= i < batches.len(),
        0 <= x < batches[i].dirs@.len(),
        0 <= j < batches.len(),
        0 <= y < batches[j].dirs@.len(),
        is_below(components(batches[j].dirs@[y]), components(batches[i].dirs@[x])),
    ensures
        j < i,
{
    let a = lemma_at_depth_source(dirs, batches[i].depth, x);
    let b = lemma_at_depth_source(dirs, batches[j].depth, y);
    assert(dirs[a].depth < dirs[b].depth);
    if i < j {
        assert(batches[i].depth > batches[j].depth);
    }
}

/// The directories that are still to be removed when batch `k` starts, each by
/// the components of its path.
pub open spec fn standing<P, C>(
    batches: Seq<Batch<P>>,
    components: spec_fn(P) -> Seq<C>,
    k: int,
) -> Set<Seq<C>> {
    Set::new(
        |c: Seq<C>|
            exists|j: int, y: int|
                k <= j < batches.len() && 0 <= y < batches[j].dirs@.len() && c == components(
                    #[trigger] batches[j].dirs@[y],
                ),
    )
}

/// A directory holds no other directory any more when its batch starts: nothing
/// that still stands lies below it.
pub proof fn law_empty_when_reached<P, C>(
    dirs: Seq<Dir<P>>,
    batches: Seq<Batch<P>>,
    components: spec_fn(P) -> Seq<C>,
    k: int,
    x: int,
)
    requires
        is_schedule(dirs, batches),
        depths_agree(dirs, components),
        0 <= k < batches.len(),
        0 <= x < batches[k].dirs@.len(),
    ensures
        standing(batches, components, k).contains(components(batches[k].dirs@[x])),
        forall|c: Seq<C>| #[trigger]
            standing(batches, components, k).contains(c) ==> !is_below(
                c,
                components(batches[k].dirs@[x]),
            ),
{
    assert forall|c: Seq<C>| #[trigger]
        standing(batches, components, k).contains(c) implies !is_below(
        c,
        components(batches[k].dirs@[x]),
    ) by {
        let (j, y) = choose|j: int, y: int|
            k <= j < batches.len() && 0 <= y < batches[j].dirs@.len() && c == components(
                #[trigger] batches[j].dirs@[y],
            );
        if is_below(c, components(batches[k].dirs@[x])) {
            law_children_first(dirs, batches, components, k, x, j, y);
        }
    }
}

/// Splitting directories by a test keeps each of their paths.
proof fn lemma_split_keeps_paths<P>(dirs: Seq<Dir<P>>, depth: usize)
    ensures
        paths(dirs).to_multiset() == at_depth(dirs, depth).to_multiset().add(
            paths(dirs.filter(|d: Dir<P>| d.depth != depth)).to_multiset(),
        ),
    decreases dirs.len(),
{
    broadcast use vstd::seq_lib::group_to_multiset_ensures;

    let other = |d: Dir<P>| d.depth != depth;
    if dirs.len() == 0 {
        assert(paths(dirs) =~= Seq::<P>::empty());
        assert(at_depth(dirs, depth) =~= Seq::<P>::empty());
        assert(paths(dirs.filter(other)) =~= Seq::<P>::empty());
        assert(Seq::<P>::empty().to_multiset() =~= Multiset::empty());
        assert(paths(dirs).to_multiset() =~= at_depth(dirs, depth).to_multiset().add(
            paths(dirs.filter(other)).to_multiset(),
        ));
    } else {
        let init = dirs.drop_last();
        let last = dirs.last();
        lemma_split_keeps_paths(init, depth);
        assert(dirs =~= init.push(last));
        assert(paths(dirs) =~= paths(init).push(last.path));
        lemma_at_depth_push(init, last, depth);
        init.lemma_filter_push(last, other);
        assert(paths(dirs.filter(other)) =~= (if last.depth != depth {
            paths(init.filter(other)).push(last.path)
        } else {
            paths(init.filter(other))
        }));
        assert(paths(dirs).to_multiset() =~= at_depth(dirs, depth).to_multiset().add(
            paths(dirs.filter(other)).to_multiset(),
        ));
    }
}

/// Leaving out one depth changes nothing at another.
proof fn lemma_other_depths_stay<P>(dirs: Seq<Dir<P>>, gone: usize, depth: usize)
    requires
        gone != depth,
    ensures
        at_depth(dirs.filter(|d: Dir<P>| d.depth != gone), depth) == at_depth(dirs, depth),
    decreases dirs.len(),
{
    let other = |d: Dir<P>| d.depth != gone;
    if dirs.len() == 0 {
        assert(dirs.filter(other) =~= dirs);
    } else {
        let init = dirs.drop_last();
        let last = dirs.last();
        lemma_other_depths_stay(init, gone, depth);
        assert(dirs =~= init.push(last));
        init.lemma_filter_push(last, other);
        lemma_at_depth_push(init, last, depth);
        lemma_at_depth_push(init.filter(other), last, depth);
    }
}

/// Every directory is removed exactly once: the paths of the batches, taken
/// together, are the paths of the directories, each as often as it was found.
pub proof fn law_each_directory_once<P>(dirs: Seq<Dir<P>>, batches: Seq<Batch<P>>)
    requires
        is_schedule(dirs, batches),
    ensures
        removal_order(batches).to_multiset() == paths(dirs).to_multiset(),
    decreases batches.len(),
{
    broadcast use vstd::seq_lib::group_to_multiset_ensures;

    if batches.len() == 0 {
        if dirs.len() > 0 {
            assert(has_depth(batches, dirs[0].depth));
        }
        assert(paths(dirs) =~= Seq::<P>::empty());
    } else {
        let first = batches[0].depth;
        let other = |d: Dir<P>| d.depth != first;
        let left = dirs.filter(other);
        let rest = batches.skip(1);
        assert forall|k: int| 0 <= k < rest.len() implies (#[trigger] rest[k]).dirs@ == at_depth(
            left,
            rest[k].depth,
        ) && rest[k].dirs@.len() > 0 by {
            assert(rest[k] == batches[k + 1]);
            assert(batches[0].depth > batches[k + 1].depth);
            lemma_other_depths_stay(dirs, first, rest[k].depth);
        }
        assert forall|i: int| 0 <= i < left.len() implies has_depth(
            rest,
            (#[trigger] left[i]).depth,
        ) by {
            dirs.lemma_filter_pred(other, i);
            dirs.lemma_filter_contains_rev(other, left[i]);
            let m = choose|m: int| 0 <= m < dirs.len() && dirs[m] == left[i];
            assert(has_depth(batches, dirs[m].depth));
            let k = choose|k: int|
                0 <= k < batches.len() && (#[trigger] batches[k]).depth == dirs[m].depth;
            assert(rest[k - 1] == batches[k]);
        }
        assert(is_schedule(left, rest)) by {
            assert forall|i: int, j: int| 0 <= i < j < rest.len() implies (
            #[trigger] rest[i]).depth > (#[trigger] rest[j]).depth by {
                assert(rest[i] == batches[i + 1] && rest[j] == batches[j + 1]);
            }
        }
        law_each_directory_once(left, rest);
        lemma_split_keeps_paths(dirs, first);
        vstd::seq_lib::lemma_multiset_commutative(batches[0].dirs@, removal_order(rest));
    }
}

} // verus!
