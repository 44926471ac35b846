//! Tables of records that each cover a half-open range of addresses, kept
//! sorted and free of overlap so that an address is found by binary search.

use vstd::prelude::*;

verus! {

/// A value that covers the addresses from `lo()` up to, not including, `hi()`.
pub trait Span {
    /// The first address the value covers.
    spec fn lo(&self) -> u64;

    /// The first address after those the value covers.
    spec fn hi(&self) -> u64;
}

/// A record whose span can be read.
pub trait Ranged: Span {
    fn start(&self) -> (a: u64)
        ensures
            a == self.lo(),
    ;

    fn end(&self) -> (a: u64)
        ensures
            a == self.hi(),
    ;
}

/// Whether `addr` lies inside the record's range.
pub open spec fn covers<T: Span>(r: &T, addr: u64) -> bool {
    r.lo() <= addr < r.hi()
}

/// Whether the two ranges share an address.
pub open spec fn overlap<T: Span>(a: &T, b: &T) -> bool {
    a.lo() < b.hi() && b.lo() < a.hi()
}

/// The invariant of a table: no record is empty, and each record ends before
/// or where the next one starts. So the records are sorted by start address
/// and no two of them overlap.
pub open spec fn well_formed<T: Span>(s: Seq<T>) -> bool {
    &&& forall|i: int| 0 <= i < s.len() ==> (#[trigger] s[i]).lo() < s[i].hi()
    &&& forall|i: int, j: int|
        0 <= i < j < s.len() ==> (#[trigger] s[i]).hi() <= (#[trigger] s[j]).lo()
}

/// Whether some record of the table covers `addr`.
pub open spec fn covered<T: Span>(s: Seq<T>, addr: u64) -> bool {
    exists|i: int| 0 <= i < s.len() && covers(#[trigger] &s[i], addr)
}

/// The index of the record that covers `addr`, where there is one.
pub open spec fn index_of<T: Span>(s: Seq<T>, addr: u64) -> Option<int> {
    if covered(s, addr) {
        Some(choose|i: int| 0 <= i < s.len() && covers(#[trigger] &s[i], addr))
    } else {
        None
    }
}

/// Whether `r` can join the table: it is not empty and overlaps no record.
pub open spec fn admits<T: Span>(s: Seq<T>, r: &T) -> bool {
    &&& r.lo() < r.hi()
    &&& forall|i: int| 0 <= i < s.len() ==> !overlap(#[trigger] &s[i], r)
}

/// Whether `p` parts the table at `addr`: the records before `p` end at or
/// before `addr`, the records from `p` on end after it.
pub open spec fn parts_at<T: Span>(s: Seq<T>, addr: u64, p: int) -> bool {
    &&& 0 <= p <= s.len()
    &&& forall|k: int| 0 <= k < p ==> (#[trigger] s[k]).hi() <= addr
    &&& forall|k: int| p <= k < s.len() ==> (#[trigger] s[k]).hi() > addr
}

/// The number of records that end at or before `addr`: the index at which a
/// record that starts at `addr` belongs.
pub open spec fn rank<T: Span>(s: Seq<T>, addr: u64) -> int {
    choose|p: int| parts_at(s, addr, p)
}

/// The table after `r` was offered to it: with `r` in its place where the
/// table admits it, unchanged where it does not.
pub open spec fn place<T: Span>(s: Seq<T>, r: T) -> Seq<T> {
    if admits(s, &r) {
        s.insert(rank(s, r.lo()), r)
    } else {
        s
    }
}

/// A table is parted at an address in one place only.
pub proof fn lemma_rank<T: Span>(s: Seq<T>, addr: u64, p: int)
    requires
        parts_at(s, addr, p),
    ensures
        rank(s, addr) == p,
{
    let q = rank(s, addr);
    if q < p {
        assert(s[q].hi() <= addr);
        assert(s[q].hi() > addr);
    } else if p < q {
        assert(s[p].hi() <= addr);
        assert(s[p].hi() > addr);
    }
}

/// In a well-formed table at most one record covers an address.
pub proof fn lemma_cover_unique<T: Span>(s: Seq<T>, addr: u64, i: int, j: int)
    requires
        well_formed(s),
        0 <= i < s.len(),
        0 <= j < s.len(),
        covers(&s[i], addr),
        covers(&s[j], addr),
    ensures
        i == j,
{
    if i < j {
        assert(s[i].hi() <= s[j].lo());
    } else if j < i {
        assert(s[j].hi() <= s[i].lo());
    }
}

/// The record at `i` is the one that `index_of` names for each address it
/// covers.
pub proof fn lemma_index_of<T: Span>(s: Seq<T>, addr: u64, i: int)
    requires
        well_formed(s),
        0 <= i < s.len(),
        covers(&s[i], addr),
    ensures
        index_of(s, addr) == Some(i),
{
    let j = choose|j: int| 0 <= j < s.len() && covers(#[trigger] &s[j], addr);
    lemma_cover_unique(s, addr, i, j);
}

/// The number of records that end at or before `addr`, found by binary
/// search.
pub fn partition_point<T: Ranged>(table: &Vec<T>, addr: u64) -> (p: usize)
    requires
        well_formed(table@),
    ensures
        parts_at(table@, addr, p as int),
        p == rank(table@, addr),
{
    let mut lo: usize = 0;
    let mut hi: usize = table.len();
    while lo < hi
        invariant
            well_formed(table@),
            lo <= hi <= table@.len(),
            forall|k: int| 0 <= k < lo ==> (#[trigger] table@[k]).hi() <= addr,
            forall|k: int| hi <= k < table@.len() ==> (#[trigger] table@[k]).hi() > addr,
        decreases hi - lo,
    {
        let mid = lo + (hi - lo) / 2;
        if table[mid].end() <= addr {
            assert forall|k: int| 0 <= k < mid + 1 implies (#[trigger] table@[k]).hi() <= addr by {
                if k < mid {
                    assert(table@[k].hi() <= table@[mid as int].lo());
                    assert(table@[mid as int].lo() < table@[mid as int].hi());
                }
            }
            lo = mid + 1;
        } else {
            assert forall|k: int| mid <= k < table@.len() implies (#[trigger] table@[k]).hi()
                > addr by {
                if k > mid {
                    assert(table@[mid as int].hi() <= table@[k].lo());
                    assert(table@[k].lo() < table@[k].hi());
                }
            }
            hi = mid;
        }
    }
    proof {
        lemma_rank(table@, addr, lo as int);
    }
    lo
}

/// The index of the record that covers `addr`, found by binary search.
pub fn find<T: Ranged>(table: &Vec<T>, addr: u64) -> (found: Option<usize>)
    requires
        well_formed(table@),
    ensures
        match found {
            Some(i) => index_of(table@, addr) == Some(i as int) && i < table@.len() && covers(
                &table@[i as int],
                addr,
            ),
            None => index_of(table@, addr).is_none() && !covered(table@, addr),
        },
{
    let p = partition_point(table, addr);
    if p < table.len() && table[p].start() <= addr {
        proof {
            lemma_index_of(table@, addr, p as int);
        }
        Some(p)
    } else {
        proof {
            assert forall|k: int| 0 <= k < table@.len() implies !covers(
                #[trigger] &table@[k],
                addr,
            ) by {
                if k > p {
                    assert(table@[p as int].hi() <= table@[k].lo());
                    assert(table@[p as int].lo() < table@[p as int].hi());
                }
            }
        }
        None
    }
}

/// Adds `record` where it belongs, unless it is empty or overlaps a record
/// that is already there; returns whether it was added.
pub fn insert<T: Ranged>(table: &mut Vec<T>, record: T) -> (added: bool)
    requires
        well_formed(old(table)@),
    ensures
        well_formed(final(table)@),
        added == admits(old(table)@, &record),
        final(table)@ == place(old(table)@, record),
{
    let lo = record.start();
    let hi = record.end();
    if lo >= hi {
        return false;
    }
    let p = partition_point(table, lo);
    if p < table.len() && table[p].start() < hi {
        assert(overlap(&table@[p as int], &record));
        return false;
    }
    proof {
        assert forall|k: int| 0 <= k < table@.len() implies !overlap(
            #[trigger] &table@[k],
            &record,
        ) by {
            if k > p {
                assert(table@[p as int].hi() <= table@[k].lo());
                assert(table@[p as int].lo() < table@[p as int].hi());
            }
        }
    }
    let ghost before = table@;
    table.insert(p, record);
    proof {
        let after = before.insert(p as int, record);
        assert(table@ == after);
        assert forall|i: int| 0 <= i < after.len() implies (#[trigger] after[i]).lo()
            < after[i].hi() by {
            if i < p {
                assert(after[i] == before[i]);
            } else if i > p {
                assert(after[i] == before[i - 1]);
            }
        }
        assert forall|i: int, j: int| 0 <= i < j < after.len() implies (#[trigger] after[i]).hi()
            <= (#[trigger] after[j]).lo() by {
            let a = if i < p { i } else { i - 1 };
            let b = if j < p { j } else { j - 1 };
            if i != p {
                assert(after[i] == before[a]);
            }
            if j != p {
                assert(after[j] == before[b]);
            }
            if i != p && j != p {
                assert(before[a].hi() <= before[b].lo());
            } else if i == p {
                assert(!overlap(&before[b], &record));
                assert(before[b].hi() > lo);
            } else {
                assert(before[a].hi() <= lo);
            }
        }
    }
    true
}

/// Whether `f` maps each value to one with the same span.
pub open spec fn keeps_span<T: Span, U: Span>(f: spec_fn(T) -> U) -> bool {
    forall|t: T| (#[trigger] f(t)).lo() == t.lo() && f(t).hi() == t.hi()
}

/// A table seen through a map that keeps each record's span is parted where
/// the table is.
pub proof fn lemma_map_parts<T: Span, U: Span>(s: Seq<T>, f: spec_fn(T) -> U, addr: u64, p: int)
    requires
        keeps_span(f),
    ensures
        parts_at(s.map_values(f), addr, p) == parts_at(s, addr, p),
{
    let m = s.map_values(f);
    if parts_at(s, addr, p) {
        assert forall|k: int| 0 <= k < p implies (#[trigger] m[k]).hi() <= addr by {
            assert(s[k].hi() <= addr);
        }
        assert forall|k: int| p <= k < m.len() implies (#[trigger] m[k]).hi() > addr by {
            assert(s[k].hi() > addr);
        }
    }
    if parts_at(m, addr, p) {
        assert forall|k: int| 0 <= k < p implies (#[trigger] s[k]).hi() <= addr by {
            assert(m[k].hi() <= addr);
        }
        assert forall|k: int| p <= k < s.len() implies (#[trigger] s[k]).hi() > addr by {
            assert(m[k].hi() > addr);
        }
    }
}

/// A map that keeps each record's span keeps the table's invariant.
pub proof fn lemma_map_well_formed<T: Span, U: Span>(s: Seq<T>, f: spec_fn(T) -> U)
    requires
        keeps_span(f),
        well_formed(s),
    ensures
        well_formed(s.map_values(f)),
{
    let m = s.map_values(f);
    assert forall|i: int| 0 <= i < m.len() implies (#[trigger] m[i]).lo() < m[i].hi() by {
        assert(s[i].lo() < s[i].hi());
    }
    assert forall|i: int, j: int| 0 <= i < j < m.len() implies (#[trigger] m[i]).hi() <= (
    #[trigger] m[j]).lo() by {
        assert(s[i].hi() <= s[j].lo());
    }
}

/// A map that keeps each record's span keeps the table's invariant, what the
/// table admits, and where a record is placed.
pub proof fn lemma_map_place<T: Span, U: Span>(s: Seq<T>, r: T, f: spec_fn(T) -> U)
    requires
        keeps_span(f),
        well_formed(s),
    ensures
        well_formed(s.map_values(f)),
        admits(s.map_values(f), &f(r)) == admits(s, &r),
        place(s.map_values(f), f(r)) == place(s, r).map_values(f),
{
    let m = s.map_values(f);
    lemma_map_well_formed(s, f);
    if admits(s, &r) {
        assert forall|i: int| 0 <= i < m.len() implies !overlap(#[trigger] &m[i], &f(r)) by {
            assert(!overlap(&s[i], &r));
        }
    }
    if admits(m, &f(r)) {
        assert forall|i: int| 0 <= i < s.len() implies !overlap(#[trigger] &s[i], &r) by {
            assert(!overlap(&m[i], &f(r)));
        }
    }
    if admits(s, &r) {
        let p = lemma_parted(s, r.lo());
        lemma_rank(s, r.lo(), p);
        lemma_map_parts(s, f, r.lo(), p);
        lemma_rank(m, r.lo(), p);
        assert(m.insert(p, f(r)) =~= s.insert(p, r).map_values(f));
    }
}

/// Every well-formed table is parted at every address.
pub proof fn lemma_parted<T: Span>(s: Seq<T>, addr: u64) -> (p: int)
    requires
        well_formed(s),
    ensures
        parts_at(s, addr, p),
    decreases s.len(),
{
    if s.len() == 0 {
        0
    } else if s.last().hi() <= addr {
        assert forall|k: int| 0 <= k < s.len() implies (#[trigger] s[k]).hi() <= addr by {
            if k < s.len() - 1 {
                assert(s[k].hi() <= s[s.len() - 1].lo());
                assert(s[s.len() - 1].lo() < s[s.len() - 1].hi());
            }
        }
        s.len() as int
    } else {
        let front = s.drop_last();
        assert forall|i: int, j: int| 0 <= i < j < front.len() implies (#[trigger] front[i]).hi()
            <= (#[trigger] front[j]).lo() by {
            assert(s[i].hi() <= s[j].lo());
        }
        assert forall|i: int| 0 <= i < front.len() implies (#[trigger] front[i]).lo()
            < front[i].hi() by {
            assert(s[i].lo() < s[i].hi());
        }
        let p = lemma_parted(front, addr);
        assert forall|k: int| 0 <= k < p implies (#[trigger] s[k]).hi() <= addr by {
            assert(front[k].hi() <= addr);
        }
        assert forall|k: int| p <= k < s.len() implies (#[trigger] s[k]).hi() > addr by {
            if k < front.len() {
                assert(front[k].hi() > addr);
            }
        }
        p
    }
}

/// A map that keeps each record's span keeps which record covers an address.
pub proof fn lemma_map_lookup<T: Span, U: Span>(s: Seq<T>, f: spec_fn(T) -> U, addr: u64)
    requires
        keeps_span(f),
        well_formed(s),
    ensures
        covered(s.map_values(f), addr) == covered(s, addr),
        index_of(s.map_values(f), addr) == index_of(s, addr),
{
    let m = s.map_values(f);
    if covered(s, addr) {
        let i = choose|i: int| 0 <= i < s.len() && covers(#[trigger] &s[i], addr);
        assert(covers(&m[i], addr));
    }
    if covered(m, addr) {
        let i = choose|i: int| 0 <= i < m.len() && covers(#[trigger] &m[i], addr);
        assert(covers(&s[i], addr));
        assert(m[i].lo() == s[i].lo());
        lemma_index_of(s, addr, i);
        lemma_map_well_formed(s, f);
        lemma_index_of(m, addr, i);
    }
}

/// Offering a record to a well-formed table leaves the table well formed.
pub proof fn lemma_place_well_formed<T: Span>(s: Seq<T>, r: T)
    requires
        well_formed(s),
    ensures
        well_formed(place(s, r)),
{
    if admits(s, &r) {
        let p = lemma_parted(s, r.lo());
        lemma_rank(s, r.lo(), p);
        let after = s.insert(p, r);
        assert forall|i: int| 0 <= i < after.len() implies (#[trigger] after[i]).lo()
            < after[i].hi() by {
            if i < p {
                assert(after[i] == s[i]);
            } else if i > p {
                assert(after[i] == s[i - 1]);
            }
        }
        assert forall|i: int, j: int| 0 <= i < j < after.len() implies (#[trigger] after[i]).hi()
            <= (#[trigger] after[j]).lo() by {
            let a = if i < p { i } else { i - 1 };
            let b = if j < p { j } else { j - 1 };
            if i != p {
                assert(after[i] == s[a]);
            }
            if j != p {
                assert(after[j] == s[b]);
            }
            if i != p && j != p {
                assert(s[a].hi() <= s[b].lo());
            } else if i == p {
                assert(!overlap(&s[b], &r));
                assert(s[b].hi() > r.lo());
            } else {
                assert(s[a].hi() <= r.lo());
            }
        }
    }
}

/// Offering a record to a table removes nothing from it, and adds the record
/// where the table admits it.
pub proof fn lemma_place_holds<T: Span>(s: Seq<T>, r: T, x: T)
    requires
        well_formed(s),
        s.contains(x) || (x == r && admits(s, &r)),
    ensures
        place(s, r).contains(x),
{
    if admits(s, &r) {
        let p = lemma_parted(s, r.lo());
        lemma_rank(s, r.lo(), p);
        let after = s.insert(p, r);
        if s.contains(x) {
            let i = choose|i: int| 0 <= i < s.len() && s[i] == x;
            if i < p {
                assert(after[i] == x);
            } else {
                assert(after[i + 1] == x);
            }
        } else {
            assert(after[p] == x);
        }
    }
}

/// A record of a well-formed table is the one that is found for every
/// address it covers.
pub proof fn lemma_record_found<T: Span>(s: Seq<T>, x: T, addr: u64) -> (i: int)
    requires
        well_formed(s),
        s.contains(x),
        covers(&x, addr),
    ensures
        index_of(s, addr) == Some(i),
        0 <= i < s.len(),
        s[i] == x,
{
    let i = choose|i: int| 0 <= i < s.len() && s[i] == x;
    lemma_index_of(s, addr, i);
    i
}

} // verus!
