use vstd::prelude::*;
use crate::region::{RegionHandle, Unmap};

verus! {

/// The number of owners after one change: a join (`true`) adds one, a leave
/// (`false`) takes one away.
pub open spec fn after_change(owners: nat, join: bool) -> nat {
    if join {
        owners + 1
    } else {
        (owners - 1) as nat
    }
}

/// Whether a change releases the region: a leave that takes the count to zero.
pub open spec fn releases_region(owners: nat, join: bool) -> bool {
    !join && after_change(owners, join) == 0
}

/// Whether an owner may join a region that had `owners_before` owners: the
/// region is still held, and the count has room for one more.
pub fn may_join(owners_before: usize) -> (r: bool)
    ensures
        r == (0 < owners_before < usize::MAX),
{
    0 < owners_before && owners_before < usize::MAX
}

/// The unmap call that an owner makes when it leaves `handle`, given how many
/// owners the region had before it left: the last one to leave releases the
/// region; every other makes none.
pub fn release_on_leave(handle: RegionHandle, owners_before: usize) -> (r: Option<Unmap>)
    requires
        owners_before > 0,
    ensures
        r == (if releases_region(owners_before as nat, false) { handle.spec_release() } else { None }),
{
    if owners_before == 1 {
        handle.release()
    } else {
        None
    }
}

/// How many joins (`true`) a sequence of owner changes holds.
pub open spec fn joins(ops: Seq<bool>) -> nat
    decreases ops.len(),
{
    if ops.len() == 0 {
        0
    } else {
        (if ops[0] { 1nat } else { 0nat }) + joins(ops.drop_first())
    }
}

/// How many leaves (`false`) a sequence of owner changes holds.
pub open spec fn leaves(ops: Seq<bool>) -> nat
    decreases ops.len(),
{
    if ops.len() == 0 {
        0
    } else {
        (if ops[0] { 0nat } else { 1nat }) + leaves(ops.drop_first())
    }
}

/// Whether each change of `ops` is allowed in turn, starting from `owners`
/// owners: nobody joins or leaves a region that has been released.
pub open spec fn allowed(owners: nat, ops: Seq<bool>) -> bool
    decreases ops.len(),
{
    ops.len() == 0 || (owners > 0 && allowed(after_change(owners, ops[0]), ops.drop_first()))
}

/// How many times a region with `owners` owners is released over `ops`: once
/// for each leave that takes the count to zero.
pub open spec fn releases(owners: nat, ops: Seq<bool>) -> nat
    decreases ops.len(),
{
    if ops.len() == 0 {
        0
    } else {
        (if releases_region(owners, ops[0]) { 1nat } else { 0nat }) + releases(after_change(owners, ops[0]), ops.drop_first())
    }
}

/// Release happens exactly once, at the last leave. Over any allowed sequence of
/// joins and leaves on a region with one owner, the owners left are one more than
/// the joins less the leaves. While some are left, the region has not been
/// released, so dropping one of several clones leaves it valid for the others;
/// when none are left it has been released exactly once.
pub proof fn lemma_released_once(ops: Seq<bool>)
    requires
        allowed(1, ops),
    ensures
        joins(ops) + 1 >= leaves(ops),
        joins(ops) + 1 > leaves(ops) ==> releases(1, ops) == 0,
        joins(ops) + 1 == leaves(ops) ==> releases(1, ops) == 1,
{
    lemma_release_count(1, ops);
}

proof fn lemma_release_count(owners: nat, ops: Seq<bool>)
    requires
        owners > 0,
        allowed(owners, ops),
    ensures
        joins(ops) + owners >= leaves(ops),
        releases(owners, ops) == (if joins(ops) + owners == leaves(ops) { 1nat } else { 0nat }),
    decreases ops.len(),
{
    if ops.len() > 0 {
        let next = after_change(owners, ops[0]);
        if next > 0 {
            lemma_release_count(next, ops.drop_first());
        } else {
            lemma_released_stays(ops.drop_first());
            assert(releases(0, ops.drop_first()) == 0);
            assert(joins(ops.drop_first()) == 0);
            assert(leaves(ops.drop_first()) == 0);
        }
    }
}

proof fn lemma_released_stays(ops: Seq<bool>)
    requires
        allowed(0, ops),
    ensures
        ops.len() == 0,
{
}

/// A leave from a region with several owners gives no unmap call and leaves it
/// held by the others.
pub proof fn lemma_leave_keeps_others(owners: nat)
    requires
        owners >= 2,
    ensures
        releases(owners, seq![false]) == 0,
        allowed((owners - 1) as nat, seq![true]),
{
    assert(seq![false].drop_first() =~= Seq::<bool>::empty());
    assert(seq![true].drop_first() =~= Seq::<bool>::empty());
    reveal_with_fuel(allowed, 2);
    reveal_with_fuel(releases, 2);
}

} // verus!
