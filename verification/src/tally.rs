//! Counts of what a run removed and of what failed.
use vstd::prelude::*;

verus! {

/// How many files and directories went, and how many errors there were. Counts
/// wrap around at the end of their range.
#[derive(Clone, Copy)]
pub struct Tally {
    pub files: u64,
    pub dirs: u64,
    pub errors: u64,
}

/// `a + b`, wrapped to 64 bits.
pub open spec fn wrapped(a: u64, b: u64) -> u64 {
    if a + b > u64::MAX {
        (a + b - 0x1_0000_0000_0000_0000) as u64
    } else {
        (a + b) as u64
    }
}

/// The two tallies taken together.
pub open spec fn merged(a: Tally, b: Tally) -> Tally {
    Tally {
        files: wrapped(a.files, b.files),
        dirs: wrapped(a.dirs, b.dirs),
        errors: wrapped(a.errors, b.errors),
    }
}

/// Nothing counted.
pub open spec fn nothing() -> Tally {
    Tally { files: 0, dirs: 0, errors: 0 }
}

/// One file removed.
pub open spec fn one_file() -> Tally {
    Tally { files: 1, dirs: 0, errors: 0 }
}

/// One directory removed.
pub open spec fn one_dir() -> Tally {
    Tally { files: 0, dirs: 1, errors: 0 }
}

/// One error.
pub open spec fn one_error() -> Tally {
    Tally { files: 0, dirs: 0, errors: 1 }
}

/// The tallies of `parts`, merged from first to last.
pub open spec fn total(parts: Seq<Tally>) -> Tally
    decreases parts.len(),
{
    if parts.len() == 0 {
        nothing()
    } else {
        merged(total(parts.drop_last()), parts.last())
    }
}

/// Exactly one thing is counted.
pub open spec fn counts_one(t: Tally) -> bool {
    t == one_file() || t == one_dir() || t == one_error()
}

impl Tally {
    /// A tally in which nothing is counted yet.
    pub fn zero() -> (t: Tally)
        ensures
            t == nothing(),
    {
        Tally { files: 0, dirs: 0, errors: 0 }
    }

    /// A tally of one removed file.
    pub fn file() -> (t: Tally)
        ensures
            t == one_file(),
    {
        Tally { files: 1, dirs: 0, errors: 0 }
    }

    /// A tally of one removed directory.
    pub fn dir() -> (t: Tally)
        ensures
            t == one_dir(),
    {
        Tally { files: 0, dirs: 1, errors: 0 }
    }

    /// A tally of one error.
    pub fn error() -> (t: Tally)
        ensures
            t == one_error(),
    {
        Tally { files: 0, dirs: 0, errors: 1 }
    }

    /// Takes this tally and another one together.
    pub fn merge(self, other: Tally) -> (t: Tally)
        ensures
            t == merged(self, other),
    {
        Tally {
            files: self.files.wrapping_add(other.files),
            dirs: self.dirs.wrapping_add(other.dirs),
            errors: self.errors.wrapping_add(other.errors),
        }
    }
}

impl Default for Tally {
    fn default() -> (t: Tally)
        ensures
            t == nothing(),
    {
        Tally::zero()
    }
}

/// Tallies can be merged in any order and any grouping, so it does not matter
/// which worker finishes first.
pub proof fn law_merge_order(a: Tally, b: Tally, c: Tally)
    ensures
        merged(a, b) == merged(b, a),
        merged(merged(a, b), c) == merged(a, merged(b, c)),
        merged(a, nothing()) == a,
        merged(nothing(), a) == a,
{
}

/// Things counted one by one add up: as long as there are no more of them than
/// a count can hold, the three counts of the total sum to their number.
pub proof fn law_each_counted_once(parts: Seq<Tally>)
    requires
        parts.len() <= u64::MAX,
        forall|i: int| 0 <= i < parts.len() ==> counts_one(#[trigger] parts[i]),
    ensures
        total(parts).files + total(parts).dirs + total(parts).errors == parts.len(),
    decreases parts.len(),
{
    if parts.len() > 0 {
        assert(counts_one(parts.last()));
        law_each_counted_once(parts.drop_last());
    }
}

/// The sum of `counts`, not wrapped.
pub open spec fn sum(counts: Seq<u64>) -> nat
    decreases counts.len(),
{
    if counts.len() == 0 {
        0
    } else {
        sum(counts.drop_last()) + counts.last() as nat
    }
}

/// A total is the sum of its parts, count by count, as long as the sums fit.
pub proof fn law_total_is_the_sum(parts: Seq<Tally>)
    requires
        sum(parts.map_values(|t: Tally| t.files)) <= u64::MAX,
        sum(parts.map_values(|t: Tally| t.dirs)) <= u64::MAX,
        sum(parts.map_values(|t: Tally| t.errors)) <= u64::MAX,
    ensures
        total(parts).files == sum(parts.map_values(|t: Tally| t.files)),
        total(parts).dirs == sum(parts.map_values(|t: Tally| t.dirs)),
        total(parts).errors == sum(parts.map_values(|t: Tally| t.errors)),
    decreases parts.len(),
{
    if parts.len() > 0 {
        let init = parts.drop_last();
        assert(parts.map_values(|t: Tally| t.files).drop_last() =~= init.map_values(
            |t: Tally| t.files,
        ));
        assert(parts.map_values(|t: Tally| t.dirs).drop_last() =~= init.map_values(
            |t: Tally| t.dirs,
        ));
        assert(parts.map_values(|t: Tally| t.errors).drop_last() =~= init.map_values(
            |t: Tally| t.errors,
        ));
        law_total_is_the_sum(init);
    }
}

/// Two tallies taken together count what each of them counts. A count past the
/// end of its range starts again at zero.
pub proof fn law_merge_adds(a: Tally, b: Tally)
    ensures
        merged(a, b).files == a.files + b.files || merged(a, b).files + 0x1_0000_0000_0000_0000
            == a.files + b.files,
        merged(a, b).dirs == a.dirs + b.dirs || merged(a, b).dirs + 0x1_0000_0000_0000_0000
            == a.dirs + b.dirs,
        merged(a, b).errors == a.errors + b.errors || merged(a, b).errors
            + 0x1_0000_0000_0000_0000 == a.errors + b.errors,
        nothing().files == 0 && nothing().dirs == 0 && nothing().errors == 0,
        one_file().files == 1 && one_file().dirs == 0 && one_file().errors == 0,
        one_dir().files == 0 && one_dir().dirs == 1 && one_dir().errors == 0,
        one_error().files == 0 && one_error().dirs == 0 && one_error().errors == 1,
{
}

} // verus!
