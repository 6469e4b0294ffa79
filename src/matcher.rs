//! Greedy allocation of running instances to reserved capacity.
use vstd::prelude::*;
use crate::model::{Instance, Reservation};

verus! {

/// Whether `r` can still cover an instance of type `instance_type`.
pub open spec fn has_capacity_for(r: Reservation, instance_type: Seq<char>) -> bool {
    r.instance_type@ == instance_type && r.instance_count > 0
}

/// The first reservation at or after `j` that can cover `instance_type`.
pub open spec fn first_fit_from(res: Seq<Reservation>, instance_type: Seq<char>, j: int) -> Option<
    int,
>
    decreases res.len() - j,
{
    if j < 0 || j >= res.len() {
        None
    } else if has_capacity_for(res[j], instance_type) {
        Some(j)
    } else {
        first_fit_from(res, instance_type, j + 1)
    }
}

/// `r` with one unit of its capacity used.
pub open spec fn take_one(r: Reservation) -> Reservation {
    Reservation { instance_count: (r.instance_count - 1) as u32, ..r }
}

/// Ids of instances, as text.
pub open spec fn ids_view(v: Seq<String>) -> Seq<Seq<char>> {
    v.map_values(|s: String| s@)
}

/// Strict first fit over `insts` in order: each instance takes one unit of
/// the first reservation of its type with capacity left, or stays
/// uncovered. Gives the reservations afterwards, the ids of the covered
/// instances and the ids of the uncovered ones, each in instance order.
pub open spec fn matching(res: Seq<Reservation>, insts: Seq<Instance>) -> (
    Seq<Reservation>,
    Seq<Seq<char>>,
    Seq<Seq<char>>,
)
    decreases insts.len(),
{
    if insts.len() == 0 {
        (res, Seq::empty(), Seq::empty())
    } else {
        let (after, covered, uncovered) = matching(res, insts.drop_last());
        let inst = insts.last();
        match first_fit_from(after, inst.instance_type@, 0) {
            Some(j) => (
                after.update(j, take_one(after[j])),
                covered.push(inst.instance_id@),
                uncovered,
            ),
            None => (after, covered, uncovered.push(inst.instance_id@)),
        }
    }
}

/// Whether a reservation has capacity left.
pub open spec fn has_capacity() -> spec_fn(Reservation) -> bool {
    |r: Reservation| r.instance_count > 0
}

/// The reservations that still have capacity after matching, in order.
pub open spec fn residual(res: Seq<Reservation>, insts: Seq<Instance>) -> Seq<Reservation> {
    matching(res, insts).0.filter(has_capacity())
}

proof fn lemma_first_fit(res: Seq<Reservation>, instance_type: Seq<char>, k: int, j: int)
    requires
        first_fit_from(res, instance_type, k) == Some(j),
    ensures
        k <= j < res.len(),
        has_capacity_for(res[j], instance_type),
    decreases res.len() - k,
{
    if 0 <= k < res.len() && !has_capacity_for(res[k], instance_type) {
        lemma_first_fit(res, instance_type, k + 1, j);
    }
}

/// Allocates `instances` to the capacity of `reservations` by strict first
/// fit, and leaves in `reservations` only those with capacity left. Returns
/// the ids of the covered instances and of the uncovered ones.
pub fn thin_reservations(instances: &Vec<Instance>, reservations: &mut Vec<Reservation>) -> (r: (
    Vec<String>,
    Vec<String>,
))
    ensures
        final(reservations)@ == residual(old(reservations)@, instances@),
        ids_view(r.0@) == matching(old(reservations)@, instances@).1,
        ids_view(r.1@) == matching(old(reservations)@, instances@).2,
        forall|i: int|
            0 <= i < final(reservations)@.len() ==> #[trigger] final(reservations)@[i].instance_count
                > 0,
{
    let ghost start = reservations@;
    let mut covered: Vec<String> = Vec::new();
    let mut uncovered: Vec<String> = Vec::new();
    let mut i: usize = 0;
    while i < instances.len()
        invariant
            i <= instances@.len(),
            start == old(reservations)@,
            reservations@ == matching(start, instances@.take(i as int)).0,
            ids_view(covered@) == matching(start, instances@.take(i as int)).1,
            ids_view(uncovered@) == matching(start, instances@.take(i as int)).2,
        decreases instances@.len() - i,
    {
        let instance = &instances[i];
        let ghost prefix = instances@.take(i + 1);
        assert(prefix.drop_last() =~= instances@.take(i as int));
        assert(prefix.last() == instances@[i as int]);
        let mut j: usize = 0;
        let mut found = false;
        while j < reservations.len()
            invariant_except_break
                !found,
            invariant
                j <= reservations@.len(),
                reservations@ == matching(start, instances@.take(i as int)).0,
                first_fit_from(reservations@, instance.instance_type@, 0) == first_fit_from(
                    reservations@,
                    instance.instance_type@,
                    j as int,
                ),
            ensures
                found ==> j < reservations@.len() && first_fit_from(
                    reservations@,
                    instance.instance_type@,
                    0,
                ) == Some(j as int),
                !found ==> first_fit_from(reservations@, instance.instance_type@, 0) is None,
            decreases reservations@.len() - j,
        {
            if reservations[j].instance_type == instance.instance_type
                && reservations[j].instance_count > 0 {
                found = true;
                break;
            }
            j = j + 1;
        }
        let ghost before = reservations@;
        let ghost cv = covered@;
        let ghost uv = uncovered@;
        if found {
            proof {
                lemma_first_fit(before, instance.instance_type@, 0, j as int);
            }
            let count = reservations[j].instance_count;
            reservations[j].instance_count = count - 1;
            assert(reservations@ =~= before.update(j as int, take_one(before[j as int])));
            covered.push(instance.instance_id.clone());
            assert(ids_view(covered@) =~= ids_view(cv).push(instance.instance_id@));
        } else {
            uncovered.push(instance.instance_id.clone());
            assert(ids_view(uncovered@) =~= ids_view(uv).push(instance.instance_id@));
        }
        i = i + 1;
    }
    assert(instances@.take(instances@.len() as int) =~= instances@);
    let ghost matched = reservations@;
    let mut all: Vec<Reservation> = Vec::new();
    std::mem::swap(reservations, &mut all);
    for res in it: all
        invariant
            it.seq() == matched,
            reservations@ == matched.take(it.index() as int).filter(has_capacity()),
    {
        let ghost k = it.index();
        assert(matched.take(k + 1).drop_last() =~= matched.take(k as int));
        assert(matched.take(k + 1).last() == matched[k as int]);
        assert(res == matched[k as int]);
        proof {
            reveal(Seq::filter);
        }
        if res.instance_count > 0 {
            reservations.push(res);
        }
    }
    assert(matched.take(matched.len() as int) =~= matched);
    proof {
        let pred = has_capacity();
        assert forall|i: int| 0 <= i < reservations@.len() implies #[trigger] reservations@[i].instance_count > 0 by {
            matched.lemma_filter_pred(pred, i);
        }
    }
    (covered, uncovered)
}

/// A reservation whose capacity matching used up is absent from the
/// reservations reported as unused.
pub proof fn lemma_exhausted_absent(res: Seq<Reservation>, insts: Seq<Instance>, j: int)
    requires
        0 <= j < matching(res, insts).0.len(),
        matching(res, insts).0[j].instance_count == 0,
    ensures
        !residual(res, insts).contains(matching(res, insts).0[j]),
{
    let pred = has_capacity();
    let after = matching(res, insts).0;
    if residual(res, insts).contains(after[j]) {
        let k = choose|k: int| 0 <= k < after.filter(pred).len() && after.filter(pred)[k] == after[j];
        after.lemma_filter_pred(pred, k);
    }
}

/// After matching, no reservation's remaining count is negative, and every
/// reservation reported as unused has capacity left.
pub proof fn lemma_counts_never_negative(res: Seq<Reservation>, insts: Seq<Instance>)
    ensures
        forall|j: int|
            0 <= j < matching(res, insts).0.len() ==> #[trigger] matching(res, insts).0[j].instance_count >= 0,
        forall|j: int|
            0 <= j < residual(res, insts).len() ==> #[trigger] residual(res, insts)[j].instance_count > 0,
{
    let pred = has_capacity();
    assert forall|j: int| 0 <= j < residual(res, insts).len() implies #[trigger] residual(res, insts)[j].instance_count > 0 by {
        matching(res, insts).0.lemma_filter_pred(pred, j);
    }
}

} // verus!
