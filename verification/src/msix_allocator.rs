//! Keeps track of the parts of a memory region that no MSI-X register occupies.
use std::collections::BTreeSet;

use vstd::prelude::*;

use crate::error::PciDeviceError;

verus! {

broadcast use {vstd::std_specs::btree::group_btree_axioms, vstd::laws_cmp::group_laws_cmp};

/// Whether the closed ranges `r` and `start..=end` have a byte in common.
pub open spec fn overlaps(r: (u64, u64), start: int, end: int) -> bool {
    start <= r.1 && end >= r.0
}

/// Whether `piece` is what is left of `r` on one side of `start..=end`.
pub open spec fn is_remnant(piece: (u64, u64), r: (u64, u64), start: int, end: int) -> bool {
    ||| r.0 < start && piece.0 == r.0 && piece.1 == start - 1
    ||| r.1 > end && piece.0 == end + 1 && piece.1 == r.1
}

/// The regions that remain of `regions` once `start..=end` is taken away: those that do not
/// touch it, and what is left of the others on either side of it.
pub open spec fn carved(regions: Set<(u64, u64)>, start: int, end: int) -> Set<(u64, u64)> {
    Set::new(
        |p: (u64, u64)|
            {
                ||| regions.contains(p) && !overlaps(p, start, end)
                ||| exists|r: (u64, u64)|
                    #[trigger] regions.contains(r) && overlaps(r, start, end) && is_remnant(
                        p,
                        r,
                        start,
                        end,
                    )
            },
    )
}

/// Memory regions unoccupied by MSI-X registers.
pub struct VfioMsixAllocator {
    /// `(start, end)` pairs, where `end` is the address of the last byte in the region.
    pub regions: BTreeSet<(u64, u64)>,
}

/// The members of `regions` that meet `start..=end`.
pub open spec fn touching(regions: Set<(u64, u64)>, start: int, end: int) -> Set<(u64, u64)> {
    regions.filter(|r: (u64, u64)| overlaps(r, start, end))
}

/// Replacing one region that meets `start..=end` by its remnants changes nothing about what
/// remains in the end, and leaves one region less to be carved.
proof fn lemma_carve_step(
    before: Set<(u64, u64)>,
    after: Set<(u64, u64)>,
    slot: (u64, u64),
    start: int,
    end: int,
)
    requires
        before.finite(),
        before.contains(slot),
        overlaps(slot, start, end),
        0 <= start <= end <= u64::MAX,
        forall|p: (u64, u64)|
            after.contains(p) <==> (before.contains(p) && p != slot) || is_remnant(
                p,
                slot,
                start,
                end,
            ),
    ensures
        carved(after, start, end) =~= carved(before, start, end),
        touching(after, start, end).len() < touching(before, start, end).len(),
{
    let b = carved(before, start, end);
    let a = carved(after, start, end);
    assert forall|p: (u64, u64)| b.contains(p) implies a.contains(p) by {
        if before.contains(p) && !overlaps(p, start, end) {
            assert(after.contains(p));
        } else {
            let r = choose|r: (u64, u64)| #[trigger]
                before.contains(r) && overlaps(r, start, end) && is_remnant(p, r, start, end);
            if r == slot {
                assert(after.contains(p));
            } else {
                assert(after.contains(r));
            }
        }
    }
    assert forall|p: (u64, u64)| a.contains(p) implies b.contains(p) by {
        if after.contains(p) && !overlaps(p, start, end) {
            if !(before.contains(p) && p != slot) {
                assert(before.contains(slot) && is_remnant(p, slot, start, end));
            }
        } else {
            let r = choose|r: (u64, u64)| #[trigger]
                after.contains(r) && overlaps(r, start, end) && is_remnant(p, r, start, end);
            assert(before.contains(r));
        }
    }
    assert(touching(after, start, end) =~= touching(before, start, end).remove(slot));
}

/// Whether the address `x` lies in one of `regions`.
pub open spec fn covers(regions: Set<(u64, u64)>, x: int) -> bool {
    exists|r: (u64, u64)| #[trigger] regions.contains(r) && r.0 <= x <= r.1
}

/// Whether `regions` are non-empty ranges, with a byte outside of both between any two of them.
pub open spec fn separate(regions: Set<(u64, u64)>) -> bool {
    &&& forall|r: (u64, u64)| #[trigger] regions.contains(r) ==> r.0 <= r.1
    &&& forall|r: (u64, u64), s: (u64, u64)| #[trigger]
        regions.contains(r) && #[trigger] regions.contains(s) && r != s ==> !overlaps(
            r,
            s.0 - 1,
            s.1 + 1,
        )
}

/// Whether `a` comes before `b` in the order of the pairs.
pub open spec fn precedes(a: (u64, u64), b: (u64, u64)) -> bool {
    a.0 < b.0 || (a.0 == b.0 && a.1 < b.1)
}

/// Whether `v` lists the members of `regions`, each once and in ascending order.
pub open spec fn lists_ascending(v: Seq<(u64, u64)>, regions: Set<(u64, u64)>) -> bool {
    &&& v.to_set() == regions
    &&& forall|i: int, j: int| 0 <= i < j < v.len() ==> precedes(#[trigger] v[i], #[trigger] v[j])
}

/// Carving `start..=end` out of `regions` frees no address and takes exactly the addresses
/// `start..=end` away.
pub proof fn law_carving_takes_exactly_the_range(
    regions: Set<(u64, u64)>,
    start: int,
    end: int,
    x: int,
)
    requires
        0 <= start <= end <= u64::MAX,
    ensures
        covers(carved(regions, start, end), x) <==> covers(regions, x) && !(start <= x <= end),
{
    let after = carved(regions, start, end);
    if covers(after, x) {
        let p = choose|p: (u64, u64)| #[trigger] after.contains(p) && p.0 <= x <= p.1;
        if !(regions.contains(p) && !overlaps(p, start, end)) {
            let r = choose|r: (u64, u64)| #[trigger]
                regions.contains(r) && overlaps(r, start, end) && is_remnant(p, r, start, end);
            assert(regions.contains(r) && r.0 <= x <= r.1);
        }
    }
    if covers(regions, x) && !(start <= x <= end) {
        let r = choose|r: (u64, u64)| #[trigger] regions.contains(r) && r.0 <= x <= r.1;
        if overlaps(r, start, end) {
            let p = if x < start {
                (r.0, (start - 1) as u64)
            } else {
                ((end + 1) as u64, r.1)
            };
            assert(is_remnant(p, r, start, end));
            assert(after.contains(p));
        } else {
            assert(after.contains(r));
        }
    }
}

/// Regions that neither share a byte nor lie side by side do neither after carving.
pub proof fn law_carving_keeps_regions_separate(regions: Set<(u64, u64)>, start: int, end: int)
    requires
        separate(regions),
        0 <= start <= end <= u64::MAX,
    ensures
        separate(carved(regions, start, end)),
{
    let after = carved(regions, start, end);
    assert forall|p: (u64, u64)| #[trigger] after.contains(p) implies p.0 <= p.1 && exists|
        r: (u64, u64),
    |
        #![trigger regions.contains(r)]
        regions.contains(r) && r.0 <= p.0 && p.1 <= r.1 && (r == p || is_remnant(
            p,
            r,
            start,
            end,
        )) by {
        if regions.contains(p) && !overlaps(p, start, end) {
        } else {
            let r = choose|r: (u64, u64)| #[trigger]
                regions.contains(r) && overlaps(r, start, end) && is_remnant(p, r, start, end);
            assert(regions.contains(r) && r.0 <= p.0 && p.1 <= r.1);
        }
    }
    assert forall|p: (u64, u64), q: (u64, u64)| #[trigger]
        after.contains(p) && #[trigger] after.contains(q) && p != q implies !overlaps(
        p,
        q.0 - 1,
        q.1 + 1,
    ) by {
        let r = choose|r: (u64, u64)|
            #![trigger regions.contains(r)]
            regions.contains(r) && r.0 <= p.0 && p.1 <= r.1 && (r == p || is_remnant(
                p,
                r,
                start,
                end,
            ));
        let t = choose|r: (u64, u64)|
            #![trigger regions.contains(r)]
            regions.contains(r) && r.0 <= q.0 && q.1 <= r.1 && (r == q || is_remnant(
                q,
                r,
                start,
                end,
            ));
        if r != t {
            assert(regions.contains(r) && regions.contains(t));
        }
    }
}

/// Whether `p` is what is left of `r`, or one of its two remnants, without `start..=end`.
spec fn is_piece(p: (u64, u64), r: (u64, u64), start: int, end: int) -> bool {
    if overlaps(r, start, end) {
        is_remnant(p, r, start, end)
    } else {
        p == r
    }
}

/// The piece `p` that is left of `r` by first one range and then the other is left by the other
/// order too.
proof fn lemma_pieces_commute(
    regions: Set<(u64, u64)>,
    start: int,
    end: int,
    start2: int,
    end2: int,
    p: (u64, u64),
)
    requires
        0 <= start <= end <= u64::MAX,
        0 <= start2 <= end2 <= u64::MAX,
        forall|r: (u64, u64)| #[trigger] regions.contains(r) ==> r.0 <= r.1,
        carved(carved(regions, start, end), start2, end2).contains(p),
    ensures
        carved(carved(regions, start2, end2), start, end).contains(p),
{
    let first = carved(regions, start, end);
    let other = carved(regions, start2, end2);
    let q = if first.contains(p) && !overlaps(p, start2, end2) {
        p
    } else {
        choose|q: (u64, u64)| #[trigger]
            first.contains(q) && overlaps(q, start2, end2) && is_remnant(p, q, start2, end2)
    };
    assert(first.contains(q) && is_piece(p, q, start2, end2));
    let r = if regions.contains(q) && !overlaps(q, start, end) {
        q
    } else {
        choose|r: (u64, u64)| #[trigger]
            regions.contains(r) && overlaps(r, start, end) && is_remnant(q, r, start, end)
    };
    assert(regions.contains(r) && is_piece(q, r, start, end));
    let t = if !overlaps(r, start2, end2) {
        r
    } else if p.1 < start2 {
        (r.0, (start2 - 1) as u64)
    } else {
        ((end2 + 1) as u64, r.1)
    };
    assert(is_piece(t, r, start2, end2));
    assert(other.contains(t));
    assert(is_piece(p, t, start, end));
}

/// The order in which two ranges are carved out of non-empty regions makes no difference.
pub proof fn law_carving_commutes(
    regions: Set<(u64, u64)>,
    start: int,
    end: int,
    start2: int,
    end2: int,
)
    requires
        0 <= start <= end <= u64::MAX,
        0 <= start2 <= end2 <= u64::MAX,
        forall|r: (u64, u64)| #[trigger] regions.contains(r) ==> r.0 <= r.1,
    ensures
        carved(carved(regions, start, end), start2, end2) == carved(
            carved(regions, start2, end2),
            start,
            end,
        ),
{
    let a = carved(carved(regions, start, end), start2, end2);
    let b = carved(carved(regions, start2, end2), start, end);
    assert forall|p: (u64, u64)| a.contains(p) <==> b.contains(p) by {
        if a.contains(p) {
            lemma_pieces_commute(regions, start, end, start2, end2, p);
        }
        if b.contains(p) {
            lemma_pieces_commute(regions, start2, end2, start, end, p);
        }
    }
    assert(a =~= b);
}

/// The ascending list of a set of pairs.
pub open spec fn ascending(regions: Set<(u64, u64)>) -> Seq<(u64, u64)> {
    choose|v: Seq<(u64, u64)>| lists_ascending(v, regions)
}

/// Without its last element, an ascending list lists the set without that element.
proof fn lemma_drop_last_ascending(v: Seq<(u64, u64)>, regions: Set<(u64, u64)>)
    requires
        lists_ascending(v, regions),
        v.len() > 0,
    ensures
        regions.contains(v.last()),
        lists_ascending(v.drop_last(), regions.remove(v.last())),
{
    let a = v.last();
    let rest = regions.remove(a);
    let init = v.drop_last();
    assert(v.to_set().contains(a));
    assert forall|p: (u64, u64)| init.to_set().contains(p) <==> rest.contains(p) by {
        if init.contains(p) {
            let k = choose|k: int| 0 <= k < init.len() && init[k] == p;
            assert(v[k] == p);
            assert(v.to_set().contains(p));
            assert(precedes(v[k], v[v.len() - 1]));
        }
        if rest.contains(p) {
            assert(v.to_set().contains(p));
            let k = choose|k: int| 0 <= k < v.len() && v[k] == p;
            assert(init[k] == p);
        }
    }
    assert(init.to_set() =~= rest);
}

/// A set of pairs has only one ascending list.
pub proof fn law_ascending_list_is_unique(
    v: Seq<(u64, u64)>,
    w: Seq<(u64, u64)>,
    regions: Set<(u64, u64)>,
)
    requires
        lists_ascending(v, regions),
        lists_ascending(w, regions),
    ensures
        v == w,
    decreases v.len(),
{
    if v.len() == 0 {
        if w.len() > 0 {
            assert(w.to_set().contains(w[0]));
            assert(v.contains(w[0]));
        }
    } else {
        let a = v.last();
        assert(v.to_set().contains(a));
        assert(w.contains(a));
        let b = w.last();
        assert(w.to_set().contains(b));
        assert(v.contains(b));
        let i = choose|i: int| 0 <= i < v.len() && v[i] == b;
        let j = choose|j: int| 0 <= j < w.len() && w[j] == a;
        if a != b {
            assert(precedes(v[i], v[v.len() - 1]));
            assert(precedes(w[j], w[w.len() - 1]));
        }
        let rest = regions.remove(a);
        let v1 = v.drop_last();
        let w1 = w.drop_last();
        lemma_drop_last_ascending(v, regions);
        lemma_drop_last_ascending(w, regions);
        law_ascending_list_is_unique(v1, w1, rest);
        assert(v =~= v1.push(a));
        assert(w =~= w1.push(a));
    }
}

/// `v` with `a` put in its place.
spec fn inserted(v: Seq<(u64, u64)>, a: (u64, u64)) -> Seq<(u64, u64)>
    decreases v.len(),
{
    if v.len() == 0 || precedes(v.last(), a) {
        v.push(a)
    } else {
        inserted(v.drop_last(), a).push(v.last())
    }
}

proof fn lemma_inserted(v: Seq<(u64, u64)>, a: (u64, u64), regions: Set<(u64, u64)>)
    requires
        lists_ascending(v, regions),
        !regions.contains(a),
    ensures
        lists_ascending(inserted(v, a), regions.insert(a)),
    decreases v.len(),
{
    let w = inserted(v, a);
    if v.len() == 0 || precedes(v.last(), a) {
        assert forall|p: (u64, u64)| w.to_set().contains(p) <==> regions.insert(a).contains(p) by {
            if regions.contains(p) {
                assert(v.to_set().contains(p));
                let k = choose|k: int| 0 <= k < v.len() && v[k] == p;
                assert(w[k] == p);
            }
            assert(w[v.len() as int] == a);
            if w.contains(p) && p != a {
                let k = choose|k: int| 0 <= k < w.len() && w[k] == p;
                assert(v[k] == p);
                assert(v.to_set().contains(p));
            }
        }
        assert(w.to_set() =~= regions.insert(a));
    } else {
        let b = v.last();
        let v1 = v.drop_last();
        let rest = regions.remove(b);
        lemma_drop_last_ascending(v, regions);
        lemma_inserted(v1, a, rest);
        let w1 = inserted(v1, a);
        assert(a != b);
        assert forall|i: int| 0 <= i < w1.len() implies precedes(#[trigger] w1[i], b) by {
            assert(w1.to_set().contains(w1[i]));
            if w1[i] != a {
                assert(v1.to_set().contains(w1[i]));
                let k = choose|k: int| 0 <= k < v1.len() && v1[k] == w1[i];
                assert(precedes(v[k], v[v.len() - 1]));
            }
        }
        assert forall|p: (u64, u64)| w.to_set().contains(p) <==> regions.insert(a).contains(p) by {
            if w.contains(p) && p != b {
                let k = choose|k: int| 0 <= k < w.len() && w[k] == p;
                assert(w1[k] == p);
                assert(w1.to_set().contains(p));
            }
            assert(w[w1.len() as int] == b);
            if regions.insert(a).contains(p) && p != b {
                assert(w1.to_set().contains(p));
                let k = choose|k: int| 0 <= k < w1.len() && w1[k] == p;
                assert(w[k] == p);
            }
        }
        assert(w.to_set() =~= regions.insert(a));
    }
}

/// Every finite set of pairs has an ascending list.
pub proof fn law_ascending_list_exists(regions: Set<(u64, u64)>)
    requires
        regions.finite(),
    ensures
        lists_ascending(ascending(regions), regions),
    decreases regions.len(),
{
    if regions.len() == 0 {
        assert(Seq::<(u64, u64)>::empty().to_set() =~= regions);
        assert(lists_ascending(seq![], regions));
    } else {
        let a = regions.choose();
        let rest = regions.remove(a);
        law_ascending_list_exists(rest);
        lemma_inserted(ascending(rest), a, rest);
        assert(rest.insert(a) =~= regions);
    }
}

/// Carving a finite set of regions leaves a finite set.
pub proof fn lemma_carved_finite(regions: Set<(u64, u64)>, start: int, end: int)
    requires
        regions.finite(),
    ensures
        carved(regions, start, end).finite(),
{
    let left = |r: (u64, u64)| (r.0, (start - 1) as u64);
    let right = |r: (u64, u64)| ((end + 1) as u64, r.1);
    regions.lemma_map_finite(left);
    regions.lemma_map_finite(right);
    let all = regions.union(regions.map(left)).union(regions.map(right));
    vstd::set_lib::lemma_set_union_finite_iff(regions, regions.map(left));
    vstd::set_lib::lemma_set_union_finite_iff(regions.union(regions.map(left)), regions.map(right));
    assert forall|p: (u64, u64)| carved(regions, start, end).contains(p) implies all.contains(p) by {
        if !regions.contains(p) {
            let r = choose|r: (u64, u64)| #[trigger]
                regions.contains(r) && overlaps(r, start, end) && is_remnant(p, r, start, end);
            assert(p == left(r) || p == right(r));
        }
    }
    vstd::set_lib::lemma_set_subset_finite(all, carved(regions, start, end));
}

/// What an increasing sequence of references to pairs is.
broadcast proof fn lemma_increasing_pairs(s: Seq<&(u64, u64)>)
    requires
        #[trigger] vstd::std_specs::btree::increasing_seq(s),
    ensures
        forall|i: int, j: int|
            0 <= i < j < s.len() ==> precedes(*#[trigger] s[i], *#[trigger] s[j]),
{
    assert(vstd::laws_cmp::obeys_cmp::<&(u64, u64)>()) by {
        reveal(vstd::laws_eq::obeys_eq_spec_properties);
        reveal(vstd::laws_cmp::obeys_partial_cmp_spec_properties);
        reveal(vstd::laws_cmp::obeys_cmp_partial_ord);
        reveal(vstd::laws_cmp::obeys_cmp_ord);
    }
    assert forall|i: int, j: int| 0 <= i < j < s.len() implies precedes(
        *#[trigger] s[i],
        *#[trigger] s[j],
    ) by {
        assert(vstd::std_specs::cmp::OrdSpec::cmp_spec(&s[i], &s[j]) is Less);
    }
}

impl VfioMsixAllocator {
    /// The regions are non-empty, share no byte and do not lie side by side.
    pub open spec fn wf(&self) -> bool {
        separate(self.regions@)
    }

    /// Creates a new `VfioMsixAllocator` for managing a range of MSIX addresses.
    ///
    /// * `base` - The starting address of the range to manage.
    /// * `size` - The size of the address range in bytes.
    pub fn new(base: u64, size: u64) -> (result: Result<Self, PciDeviceError>)
        ensures
            match result {
                Ok(a) => size > 0 && base + size - 1 <= u64::MAX && a.wf() && a.regions@ =~= set![
                    (base, (base + size - 1) as u64),
                ],
                Err(e) => if size == 0 {
                    e == PciDeviceError::MsixAllocatorSizeZero
                } else {
                    base + size - 1 > u64::MAX && e == (PciDeviceError::MsixAllocatorOverflow {
                        base,
                        size,
                    })
                },
            },
    {
        if size == 0 {
            return Err(PciDeviceError::MsixAllocatorSizeZero);
        }
        let end: u64 = match base.checked_add(size - 1) {
            Some(end) => end,
            None => return Err(PciDeviceError::MsixAllocatorOverflow { base, size }),
        };
        let mut regions: BTreeSet<(u64, u64)> = BTreeSet::new();
        regions.insert((base, end));
        Ok(VfioMsixAllocator { regions })
    }

    /// Takes `start..start + size` away from the managed regions, wherever they meet it.
    pub fn allocate_at(&mut self, start: u64, size: u64) -> (result: Result<(), PciDeviceError>)
        ensures
            old(self).wf() ==> final(self).wf(),
            match result {
                Ok(_) => size > 0 && start + size - 1 <= u64::MAX && final(self).regions@ =~= carved(
                    old(self).regions@,
                    start as int,
                    start + size - 1,
                ),
                Err(e) => final(self).regions@ == old(self).regions@ && if size == 0 {
                    e == PciDeviceError::MsixAllocatorSizeZero
                } else {
                    start + size - 1 > u64::MAX && e == PciDeviceError::MsixAllocatorOutOfSpace
                },
            },
    {
        if size == 0 {
            return Err(PciDeviceError::MsixAllocatorSizeZero);
        }
        let end: u64 = match start.checked_add(size - 1) {
            Some(end) => end,
            None => return Err(PciDeviceError::MsixAllocatorOutOfSpace),
        };
        let ghost all = self.regions@;
        loop
            invariant
                end == start + size - 1,
                size > 0,
                all == old(self).regions@,
                carved(self.regions@, start as int, end as int) =~= carved(
                    all,
                    start as int,
                    end as int,
                ),
            decreases touching(self.regions@, start as int, end as int).len(),
        {
            let slot: (u64, u64) = match self.find_overlap(start, end) {
                Some(slot) => slot,
                None => {
                    proof {
                        assert(self.regions@ =~= carved(all, start as int, end as int));
                        if old(self).wf() {
                            law_carving_keeps_regions_separate(all, start as int, end as int);
                        }
                    }
                    return Ok(());
                },
            };
            let ghost before = self.regions@;
            self.regions.remove(&slot);
            if slot.0 < start {
                self.regions.insert((slot.0, start - 1));
            }
            if slot.1 > end {
                self.regions.insert((end + 1, slot.1));
            }
            proof {
                lemma_carve_step(before, self.regions@, slot, start as int, end as int);
            }
        }
    }

    /// The regions in ascending order.
    pub fn list(&self) -> (v: Vec<(u64, u64)>)
        ensures
            lists_ascending(v@, self.regions@),
            v@ == ascending(self.regions@),
    {
        let mut v: Vec<(u64, u64)> = Vec::new();
        broadcast use lemma_increasing_pairs;

        for range in it: self.regions.iter()
            invariant
                v@ =~= it.seq().unref().take(it.index()),
                it.seq().unref().to_set() == self.regions@,
                vstd::std_specs::btree::increasing_seq(it.seq()),
                forall|i: int, j: int|
                    0 <= i < j < it.seq().len() ==> precedes(
                        *#[trigger] it.seq()[i],
                        *#[trigger] it.seq()[j],
                    ),
                it.index() == it.seq().len() ==> v@ =~= it.seq().unref(),
        {
            v.push(*range);
        }
        proof {
            law_ascending_list_is_unique(v@, ascending(self.regions@), self.regions@);
        }
        v
    }

    fn find_overlap(&self, start: u64, end: u64) -> (slot: Option<(u64, u64)>)
        ensures
            self.regions@.finite(),
            match slot {
                Some(r) => self.regions@.contains(r) && overlaps(r, start as int, end as int),
                None => forall|r: (u64, u64)| #[trigger]
                    self.regions@.contains(r) ==> !overlaps(r, start as int, end as int),
            },
    {
        for range in it: self.regions.iter()
            invariant
                forall|k: int|
                    0 <= k < it.index() ==> !overlaps(
                        *#[trigger] it.seq()[k],
                        start as int,
                        end as int,
                    ),
                it.seq().unref().to_set() == self.regions@,
        {
            if start <= range.1 && end >= range.0 {
                return Some(*range);
            }
        }
        None
    }
}

} // verus!
