//! The fixed-capacity entity pool: a vector of optional disks whose
//! length never changes. A spawn writes into the first empty slot,
//! scanning from the left; when no slot is free the entity is dropped
//! silently.
use vstd::prelude::*;
use crate::disk::Disk;

verus! {

/// Number of occupied slots from index `i` on.
pub open spec fn occ_from(pool: Seq<Option<Disk>>, i: int) -> int
    decreases pool.len() - i,
{
    if i < 0 || i >= pool.len() {
        0
    } else {
        (if pool[i] is Some {
            1int
        } else {
            0int
        }) + occ_from(pool, i + 1)
    }
}

/// Number of occupied slots.
pub open spec fn occupied_count(pool: Seq<Option<Disk>>) -> int {
    occ_from(pool, 0)
}

/// Index of the first empty slot at or after `i`, or the length when
/// every slot from `i` on is occupied.
pub open spec fn first_free_from(pool: Seq<Option<Disk>>, i: int) -> int
    decreases pool.len() - i,
{
    if i < 0 || i >= pool.len() {
        pool.len() as int
    } else if pool[i] is None {
        i
    } else {
        first_free_from(pool, i + 1)
    }
}

/// Index of the first empty slot, or the length when the pool is full.
pub open spec fn first_free(pool: Seq<Option<Disk>>) -> int {
    first_free_from(pool, 0)
}

/// The pool after writing `d` into the first empty slot; unchanged when
/// no slot is free.
pub open spec fn assign_one(pool: Seq<Option<Disk>>, d: Disk) -> Seq<Option<Disk>> {
    if first_free(pool) < pool.len() {
        pool.update(first_free(pool), Some(d))
    } else {
        pool
    }
}

/// The pool after writing each entity of `ds` in turn.
pub open spec fn assign_all(pool: Seq<Option<Disk>>, ds: Seq<Disk>) -> Seq<Option<Disk>>
    decreases ds.len(),
{
    if ds.len() == 0 {
        pool
    } else {
        assign_all(assign_one(pool, ds[0]), ds.skip(1))
    }
}

/// Every occupied slot holds a well-formed entity.
pub open spec fn pool_wf(pool: Seq<Option<Disk>>) -> bool {
    forall|k: int|
        0 <= k < pool.len() ==> (#[trigger] pool[k] matches Some(d) ==> d.wf())
}

/// The smaller of two integers.
pub open spec fn min_int(a: int, b: int) -> int {
    if a <= b {
        a
    } else {
        b
    }
}

/// Suffix counts agree on sequences that agree from `i` on.
proof fn lemma_occ_from_agree(p1: Seq<Option<Disk>>, p2: Seq<Option<Disk>>, i: int)
    requires
        p1.len() == p2.len(),
        forall|k: int| i <= k < p1.len() ==> p1[k] == p2[k],
    ensures
        occ_from(p1, i) == occ_from(p2, i),
    decreases p1.len() - i,
{
    if 0 <= i < p1.len() {
        lemma_occ_from_agree(p1, p2, i + 1);
    }
}

/// Writing into an empty slot at or after `i` raises the suffix count by
/// one.
proof fn lemma_occ_from_update(pool: Seq<Option<Disk>>, j: int, d: Disk, i: int)
    requires
        0 <= i <= j < pool.len(),
        pool[j] is None,
    ensures
        occ_from(pool.update(j, Some(d)), i) == occ_from(pool, i) + 1,
    decreases j - i,
{
    let upd = pool.update(j, Some(d));
    if i == j {
        lemma_occ_from_agree(upd, pool, i + 1);
    } else {
        lemma_occ_from_update(pool, j, d, i + 1);
    }
}

/// The occupied count never exceeds the capacity.
pub proof fn lemma_occ_bounds(pool: Seq<Option<Disk>>, i: int)
    requires
        0 <= i <= pool.len(),
    ensures
        0 <= occ_from(pool, i) <= pool.len() - i,
    decreases pool.len() - i,
{
    if i < pool.len() {
        lemma_occ_bounds(pool, i + 1);
    }
}

/// The first free index either is the length or names an empty slot, and
/// every slot before it is occupied.
pub proof fn lemma_first_free_shape(pool: Seq<Option<Disk>>, i: int)
    requires
        0 <= i <= pool.len(),
    ensures
        i <= first_free_from(pool, i) <= pool.len(),
        first_free_from(pool, i) < pool.len() ==> pool[first_free_from(pool, i)] is None,
        forall|k: int| i <= k < first_free_from(pool, i) ==> pool[k] is Some,
    decreases pool.len() - i,
{
    if i < pool.len() && !(pool[i] is None) {
        lemma_first_free_shape(pool, i + 1);
    }
}

/// When every slot before an empty slot `j` is occupied, `j` is the
/// first free index.
pub proof fn lemma_first_free_at(pool: Seq<Option<Disk>>, i: int, j: int)
    requires
        0 <= i <= j <= pool.len(),
        forall|k: int| i <= k < j ==> pool[k] is Some,
        j < pool.len() ==> pool[j] is None,
        j == pool.len() ==> (forall|k: int| i <= k < pool.len() ==> pool[k] is Some),
    ensures
        first_free_from(pool, i) == j,
    decreases j - i,
{
    if i < j {
        lemma_first_free_at(pool, i + 1, j);
    }
}

/// Writing one entity raises the occupied count by one, capped at the
/// capacity.
proof fn lemma_assign_one_count(pool: Seq<Option<Disk>>, d: Disk)
    ensures
        occupied_count(assign_one(pool, d)) == min_int(
            occupied_count(pool) + 1,
            pool.len() as int,
        ),
        assign_one(pool, d).len() == pool.len(),
{
    lemma_first_free_shape(pool, 0);
    let j = first_free(pool);
    if j < pool.len() {
        lemma_occ_from_update(pool, j, d, 0);
        lemma_occ_bounds(pool.update(j, Some(d)), 0);
    } else {
        lemma_occ_bounds(pool, 0);
        assert forall|k: int| 0 <= k < pool.len() implies pool[k] is Some by {
            lemma_first_free_shape(pool, 0);
        }
        lemma_occ_all_some(pool, 0);
    }
}

/// A fully occupied suffix counts its own length.
proof fn lemma_occ_all_some(pool: Seq<Option<Disk>>, i: int)
    requires
        0 <= i <= pool.len(),
        forall|k: int| i <= k < pool.len() ==> pool[k] is Some,
    ensures
        occ_from(pool, i) == pool.len() - i,
    decreases pool.len() - i,
{
    if i < pool.len() {
        lemma_occ_all_some(pool, i + 1);
    }
}

/// Spawning a burst fills exactly as many slots as fit: the occupied
/// count afterwards is the old count plus the burst size, capped at the
/// capacity. Slots that were occupied stay as they were.
pub proof fn lemma_assign_all_count(pool: Seq<Option<Disk>>, ds: Seq<Disk>)
    ensures
        assign_all(pool, ds).len() == pool.len(),
        occupied_count(assign_all(pool, ds)) == min_int(
            occupied_count(pool) + ds.len(),
            pool.len() as int,
        ),
        forall|k: int|
            0 <= k < pool.len() && pool[k] is Some ==> assign_all(pool, ds)[k] == pool[k],
    decreases ds.len(),
{
    if ds.len() == 0 {
        lemma_occ_bounds(pool, 0);
    } else {
        lemma_assign_one_count(pool, ds[0]);
        lemma_first_free_shape(pool, 0);
        lemma_assign_all_count(assign_one(pool, ds[0]), ds.skip(1));
        lemma_occ_bounds(pool, 0);
        assert forall|k: int|
            0 <= k < pool.len() && pool[k] is Some implies assign_all(pool, ds)[k] == pool[k] by {
            assert(assign_one(pool, ds[0])[k] == pool[k]);
        }
    }
}

/// Spawning well-formed entities into a well-formed pool keeps every
/// occupied slot well-formed.
pub proof fn lemma_assign_all_wf(pool: Seq<Option<Disk>>, ds: Seq<Disk>)
    requires
        pool_wf(pool),
        forall|i: int| 0 <= i < ds.len() ==> (#[trigger] ds[i]).wf(),
    ensures
        pool_wf(assign_all(pool, ds)),
    decreases ds.len(),
{
    if ds.len() > 0 {
        lemma_first_free_shape(pool, 0);
        assert(pool_wf(assign_one(pool, ds[0])));
        lemma_assign_all_wf(assign_one(pool, ds[0]), ds.skip(1));
    }
}

/// `assign_all` of a burst extended by one entity is `assign_one` after
/// the shorter burst.
pub proof fn lemma_assign_all_snoc(pool: Seq<Option<Disk>>, ds: Seq<Disk>, d: Disk)
    ensures
        assign_all(pool, ds.push(d)) == assign_one(assign_all(pool, ds), d),
    decreases ds.len(),
{
    let e = ds.push(d);
    assert(assign_all(pool, e) == assign_all(assign_one(pool, e[0]), e.skip(1)));
    if ds.len() == 0 {
        assert(e[0] == d);
        assert(e.skip(1) =~= Seq::<Disk>::empty());
        assert(assign_all(assign_one(pool, d), e.skip(1)) == assign_one(pool, d));
        assert(assign_all(pool, ds) == pool);
    } else {
        assert(e[0] == ds[0]);
        assert(e.skip(1) =~= ds.skip(1).push(d));
        lemma_assign_all_snoc(assign_one(pool, ds[0]), ds.skip(1), d);
        assert(assign_all(pool, ds) == assign_all(assign_one(pool, ds[0]), ds.skip(1)));
    }
}

/// Writes each entity of the burst into the first empty slot of the
/// pool, scanning from the left; entities beyond the free capacity are
/// dropped silently.
pub fn assign_disks(disks: &mut Vec<Option<Disk>>, new_disks: Vec<Disk>)
    ensures
        final(disks)@ == assign_all(old(disks)@, new_disks@),
        final(disks)@.len() == old(disks)@.len(),
{
    let ghost all = new_disks@;
    let burst_len = new_disks.len();
    let mut rest = new_disks;
    let mut b: usize = 0;
    while b < burst_len
        invariant
            burst_len == all.len(),
            0 <= b <= burst_len,
            rest@ == all.skip(b as int),
            disks@ == assign_all(old(disks)@, all.take(b as int)),
            disks@.len() == old(disks)@.len(),
        decreases burst_len - b,
    {
        let d = rest.remove(0);
        proof {
            assert(all.skip(b as int).remove(0) =~= all.skip(b as int + 1));
            assert(d == all[b as int]);
        }
        let n = disks.len();
        let mut j: usize = 0;
        let ghost entry = disks@;
        while j < n && disks[j].is_some()
            invariant
                n == disks@.len(),
                0 <= j <= n,
                disks@ == entry,
                forall|k: int| 0 <= k < j ==> disks@[k] is Some,
            decreases n - j,
        {
            j = j + 1;
        }
        if j < n {
            proof {
                lemma_first_free_at(disks@, 0, j as int);
            }
            disks.set(j, Some(d));
        } else {
            proof {
                lemma_first_free_at(disks@, 0, n as int);
            }
        }
        proof {
            assert(all.take(b as int).push(all[b as int]) =~= all.take(b as int + 1));
            lemma_assign_all_snoc(old(disks)@, all.take(b as int), all[b as int]);
        }
        b = b + 1;
    }
    proof {
        assert(all.take(burst_len as int) =~= all);
    }
}

} // verus!
