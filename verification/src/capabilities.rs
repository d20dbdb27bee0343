//! Reducing the capability sets of the running process to a whitelist.
//!
//! The kernel holds the sets; this module decides which capabilities to give
//! up and whether what is left afterwards is exactly what was asked for.

use crate::codes::Code;
use caps::errors::CapsError;
use caps::{CapSet, Capability};
use vstd::prelude::*;

verus! {

#[verifier::external_type_specification]
#[verifier::external_body]
pub struct ExCapability(Capability);

#[verifier::external_type_specification]
#[verifier::external_body]
pub struct ExCapsError(CapsError);

/// The capability sets of a process that a reduction reads and shrinks.
#[derive(Clone, Copy, Debug, PartialEq, Eq, Structural)]
pub enum ProcessSet {
    /// The capabilities that the process can use now.
    Effective,
    /// The capabilities that the process may raise into its effective set.
    Permitted,
}

/// The capabilities of `held` that are not on the whitelist, in the order in
/// which `held` lists them.
pub open spec fn surplus(held: Seq<Capability>, needed: Seq<Capability>) -> Seq<Capability> {
    held.filter(|cap: Capability| !needed.contains(cap))
}

/// What is left of `held` once every capability off the whitelist is gone.
pub open spec fn retained(held: Seq<Capability>, needed: Seq<Capability>) -> Seq<Capability> {
    held.filter(|cap: Capability| needed.contains(cap))
}

/// The drops that a reduction asks of the kernel, in order: each capability
/// off the whitelist leaves the effective set, and directly after that the
/// permitted set, so that it cannot be raised again.
pub open spec fn drops_for(held: Seq<Capability>, needed: Seq<Capability>) -> Seq<
    (ProcessSet, Capability),
> {
    let gone = surplus(held, needed);
    Seq::new(
        2 * gone.len(),
        |i: int|
            if i % 2 == 0 {
                (ProcessSet::Effective, gone[i / 2])
            } else {
                (ProcessSet::Permitted, gone[i / 2])
            },
    )
}

/// What a set of the process holds once the kernel has carried out the drops
/// of `plan` that name this set, if it held `start` before.
pub open spec fn left_after(
    start: Seq<Capability>,
    plan: Seq<(ProcessSet, Capability)>,
    set: ProcessSet,
) -> Seq<Capability> {
    start.filter(|cap: Capability| !plan.contains((set, cap)))
}

/// Whether an effective set, read back after the drops, passes: it holds the
/// capabilities that the whitelist names, no more and no less. The whitelist
/// is taken as a set: a name written twice counts once.
pub open spec fn reduction_accepted(effective: Seq<Capability>, needed: Seq<Capability>) -> bool {
    effective.to_set() == needed.to_set()
}

/// `caps::Capability`'s `==`. The enum has no fields and derives `PartialEq`,
/// so two values compare equal exactly when they are the same capability.
#[verifier::external_body]
fn same_capability(a: &Capability, b: &Capability) -> (same: bool)
    ensures
        same == (*a == *b),
{
    a == b
}

/// `caps::read` for the calling thread. The crate collects the set's members
/// into a hash set, which is handed on as a list: whatever the kernel holds,
/// no capability is listed twice.
#[verifier::external_body]
fn read_set(set: ProcessSet) -> (held: Result<Vec<Capability>, CapsError>)
    ensures
        held matches Ok(list) ==> list@.no_duplicates(),
{
    let cset = match set {
        ProcessSet::Effective => CapSet::Effective,
        ProcessSet::Permitted => CapSet::Permitted,
    };
    match caps::read(None, cset) {
        Ok(members) => Ok(members.into_iter().collect()),
        Err(error) => Err(error),
    }
}

/// `caps::drop` for the calling thread: asks the kernel to take `cap` out of
/// the given set. Nothing is claimed of the outcome.
#[verifier::external_body]
fn drop_from_set(set: ProcessSet, cap: Capability) -> Result<(), CapsError> {
    let cset = match set {
        ProcessSet::Effective => CapSet::Effective,
        ProcessSet::Permitted => CapSet::Permitted,
    };
    caps::drop(None, cset, cap)
}

/// Whether `cap` is on the list `needed`.
pub fn is_needed(needed: &[Capability], cap: &Capability) -> (found: bool)
    ensures
        found == needed@.contains(*cap),
{
    let mut i: usize = 0;
    while i < needed.len()
        invariant
            i <= needed.len(),
            forall|j: int| 0 <= j < i ==> needed@[j] != *cap,
        decreases needed.len() - i,
    {
        if same_capability(&needed[i], cap) {
            return true;
        }
        i += 1;
    }
    false
}

/// The capabilities that a reduction has to drop: those of `held` that are not
/// on the whitelist.
pub fn surplus_capabilities(held: &[Capability], needed: &[Capability]) -> (out: Vec<Capability>)
    ensures
        out@ == surplus(held@, needed@),
{
    let mut out: Vec<Capability> = Vec::new();
    let mut i: usize = 0;
    proof {
        reveal(Seq::filter);
        assert(held@.take(0) =~= Seq::empty());
    }
    while i < held.len()
        invariant
            i <= held.len(),
            out@ == surplus(held@.take(i as int), needed@),
        decreases held.len() - i,
    {
        proof {
            reveal(Seq::filter);
            assert(held@.take(i + 1).drop_last() =~= held@.take(i as int));
        }
        if !is_needed(needed, &held[i]) {
            out.push(held[i]);
        }
        i += 1;
    }
    proof {
        assert(held@.take(i as int) =~= held@);
    }
    out
}

/// Lists the drops that a reduction asks of the kernel, given what the
/// process is permitted: see [`drops_for`].
pub fn planned_drops(held: &[Capability], needed: &[Capability]) -> (plan: Vec<
    (ProcessSet, Capability),
>)
    ensures
        plan@ == drops_for(held@, needed@),
{
    let gone = surplus_capabilities(held, needed);
    let mut plan: Vec<(ProcessSet, Capability)> = Vec::new();
    let mut k: usize = 0;
    while k < gone.len()
        invariant
            k <= gone.len(),
            gone@ == surplus(held@, needed@),
            plan@.len() == 2 * k,
            forall|i: int|
                0 <= i < 2 * k ==> #[trigger] plan@[i] == drops_for(held@, needed@)[i],
        decreases gone.len() - k,
    {
        plan.push((ProcessSet::Effective, gone[k]));
        plan.push((ProcessSet::Permitted, gone[k]));
        k += 1;
    }
    proof {
        assert(plan@ =~= drops_for(held@, needed@));
    }
    plan
}

/// Judges the effective set that was read back after the drops: each of its
/// members has to be on the whitelist, and each name of the whitelist has to
/// be among its members.
pub fn check_effective(effective: &[Capability], needed: &[Capability]) -> (res: Result<(), i32>)
    ensures
        res is Ok <==> reduction_accepted(effective@, needed@),
        res is Err ==> res == Err::<(), i32>(Code::CAPS_ERROR),
{
    let mut i: usize = 0;
    while i < effective.len()
        invariant
            i <= effective.len(),
            forall|j: int| 0 <= j < i ==> needed@.contains(#[trigger] effective@[j]),
        decreases effective.len() - i,
    {
        if !is_needed(needed, &effective[i]) {
            proof {
                assert(effective@.to_set().contains(effective@[i as int]));
            }
            return Err(Code::CAPS_ERROR);
        }
        i += 1;
    }
    let mut k: usize = 0;
    while k < needed.len()
        invariant
            k <= needed.len(),
            forall|j: int| 0 <= j < effective.len() ==> needed@.contains(#[trigger] effective@[j]),
            forall|j: int| 0 <= j < k ==> effective@.contains(#[trigger] needed@[j]),
        decreases needed.len() - k,
    {
        if !is_needed(effective, &needed[k]) {
            proof {
                assert(needed@.to_set().contains(needed@[k as int]));
            }
            return Err(Code::CAPS_ERROR);
        }
        k += 1;
    }
    proof {
        lemma_accepted_is_exact(effective@, needed@);
    }
    Ok(())
}

/// Why a reduction did not succeed.
#[derive(Clone, Copy, Debug, PartialEq, Eq, Structural)]
pub enum ReductionFailure {
    /// The kernel would not say what the process holds.
    Query,
    /// The kernel would not drop a capability.
    Drop,
    /// Everything was dropped as asked, and still the effective set is not
    /// the whitelist.
    Mismatch,
}

/// Reads what the calling thread is permitted, asks the kernel for each drop
/// that [`planned_drops`] lists for it, in that order, reads the effective
/// set back and accepts it only if it is exactly the whitelist. On success
/// the effective set that was read back is returned.
///
/// What the kernel answers decides the outcome. Whatever it answers: the set
/// that is returned passed the check, so it holds exactly the capabilities
/// that the whitelist names, and it lists each of them once.
pub fn reduce(needed: &[Capability]) -> (res: Result<Vec<Capability>, ReductionFailure>)
    ensures
        res matches Ok(effective) ==> {
            &&& reduction_accepted(effective@, needed@)
            &&& effective@.no_duplicates()
        },
{
    let permitted = match read_set(ProcessSet::Permitted) {
        Ok(list) => list,
        Err(_) => {
            return Err(ReductionFailure::Query);
        },
    };
    let plan = planned_drops(permitted.as_slice(), needed);
    let mut i: usize = 0;
    while i < plan.len()
        invariant
            i <= plan.len(),
        decreases plan.len() - i,
    {
        let (set, cap) = plan[i];
        if drop_from_set(set, cap).is_err() {
            return Err(ReductionFailure::Drop);
        }
        i += 1;
    }
    let effective = match read_set(ProcessSet::Effective) {
        Ok(list) => list,
        Err(_) => {
            return Err(ReductionFailure::Query);
        },
    };
    match check_effective(effective.as_slice(), needed) {
        Ok(()) => Ok(effective),
        Err(_) => Err(ReductionFailure::Mismatch),
    }
}

/// What a reduction's outcome is to the programs: success, or the one exit
/// code that stands for every failure.
pub fn reduction_code(outcome: Result<Vec<Capability>, ReductionFailure>) -> (res: Result<(), i32>)
    ensures
        res == match outcome {
            Ok(_) => Ok::<(), i32>(()),
            Err(_) => Err::<(), i32>(Code::CAPS_ERROR),
        },
{
    match outcome {
        Ok(_) => Ok(()),
        Err(_) => Err(Code::CAPS_ERROR),
    }
}

/// Reduces the capabilities of the calling thread to `needed_caps`: see
/// [`reduce`]. Every failure is reported as [`Code::CAPS_ERROR`].
pub fn remove_capabilities(needed_caps: &[Capability]) -> (res: Result<(), i32>)
    ensures
        res is Err ==> res == Err::<(), i32>(Code::CAPS_ERROR),
{
    reduction_code(reduce(needed_caps))
}

/// What acceptance comes to. A set is accepted exactly when each of its
/// members is on the whitelist and each name of the whitelist is among its
/// members. For a set that lists nothing twice this is to say that it has as
/// many members as the whitelist has different names, and that each member
/// is on the whitelist.
pub proof fn lemma_accepted_is_exact(effective: Seq<Capability>, needed: Seq<Capability>)
    ensures
        reduction_accepted(effective, needed) <==> {
            &&& forall|i: int| 0 <= i < effective.len() ==> needed.contains(#[trigger] effective[i])
            &&& forall|j: int| 0 <= j < needed.len() ==> effective.contains(#[trigger] needed[j])
        },
        effective.no_duplicates() ==> (reduction_accepted(effective, needed) <==> {
            &&& effective.len() == needed.to_set().len()
            &&& forall|i: int| 0 <= i < effective.len() ==> needed.contains(#[trigger] effective[i])
        }),
{
    broadcast use vstd::seq_lib::seq_to_set_is_finite;

    let both = {
        &&& forall|i: int| 0 <= i < effective.len() ==> needed.contains(#[trigger] effective[i])
        &&& forall|j: int| 0 <= j < needed.len() ==> effective.contains(#[trigger] needed[j])
    };
    if reduction_accepted(effective, needed) {
        assert forall|i: int| 0 <= i < effective.len() implies needed.contains(
            #[trigger] effective[i],
        ) by {
            assert(effective.to_set().contains(effective[i]));
        }
        assert forall|j: int| 0 <= j < needed.len() implies effective.contains(
            #[trigger] needed[j],
        ) by {
            assert(needed.to_set().contains(needed[j]));
        }
    }
    if both {
        assert(effective.to_set() =~= needed.to_set()) by {
            assert forall|cap: Capability| effective.to_set().contains(cap) implies needed.to_set().contains(
                cap,
            ) by {
                let i = choose|i: int| 0 <= i < effective.len() && effective[i] == cap;
                assert(needed.contains(effective[i]));
            }
            assert forall|cap: Capability| needed.to_set().contains(cap) implies effective.to_set().contains(
                cap,
            ) by {
                let j = choose|j: int| 0 <= j < needed.len() && needed[j] == cap;
                assert(effective.contains(needed[j]));
            }
        }
    }
    if effective.no_duplicates() {
        effective.unique_seq_to_set();
        if effective.len() == needed.to_set().len() && (forall|i: int|
            0 <= i < effective.len() ==> needed.contains(#[trigger] effective[i])) {
            assert(effective.to_set().subset_of(needed.to_set())) by {
                assert forall|cap: Capability| effective.to_set().contains(cap) implies needed.to_set().contains(
                    cap,
                ) by {
                    let i = choose|i: int| 0 <= i < effective.len() && effective[i] == cap;
                    assert(needed.contains(effective[i]));
                }
            }
            vstd::set_lib::lemma_subset_equality(effective.to_set(), needed.to_set());
        }
    }
}

/// Filtering drops members and repeats none.
proof fn lemma_filter_keeps_distinct(list: Seq<Capability>, pred: spec_fn(Capability) -> bool)
    requires
        list.no_duplicates(),
    ensures
        list.filter(pred).no_duplicates(),
    decreases list.len(),
{
    reveal(Seq::filter);
    if list.len() > 0 {
        let rest = list.drop_last();
        lemma_filter_keeps_distinct(rest, pred);
        if rest.filter(pred).contains(list.last()) {
            rest.lemma_filter_contains_rev(pred, list.last());
            let i = choose|i: int| 0 <= i < rest.len() && rest[i] == list.last();
            assert(list[i] == list[list.len() - 1]);
        }
    }
}

/// Filtering by something that every member meets changes nothing.
proof fn lemma_filter_of_all(list: Seq<Capability>, pred: spec_fn(Capability) -> bool)
    requires
        forall|i: int| 0 <= i < list.len() ==> pred(#[trigger] list[i]),
    ensures
        list.filter(pred) == list,
    decreases list.len(),
{
    reveal(Seq::filter);
    if list.len() > 0 {
        let rest = list.drop_last();
        assert forall|i: int| 0 <= i < rest.len() implies pred(#[trigger] rest[i]) by {
            assert(rest[i] == list[i]);
        }
        lemma_filter_of_all(rest, pred);
        assert(rest.push(list.last()) =~= list);
    } else {
        assert(list.filter(pred) =~= list);
    }
}

/// Filtering by something that no member meets leaves nothing.
proof fn lemma_filter_of_none(list: Seq<Capability>, pred: spec_fn(Capability) -> bool)
    requires
        forall|i: int| 0 <= i < list.len() ==> !pred(#[trigger] list[i]),
    ensures
        list.filter(pred) == Seq::<Capability>::empty(),
    decreases list.len(),
{
    reveal(Seq::filter);
    if list.len() > 0 {
        let rest = list.drop_last();
        assert forall|i: int| 0 <= i < rest.len() implies !pred(#[trigger] rest[i]) by {
            assert(rest[i] == list[i]);
        }
        lemma_filter_of_none(rest, pred);
    } else {
        assert(list.filter(pred) =~= Seq::<Capability>::empty());
    }
}

/// A reduction splits what the process holds in two: each held capability is
/// either dropped or kept, kept exactly when the whitelist names it, and
/// nothing that was not held appears on either side.
pub proof fn lemma_reduction_splits_held(held: Seq<Capability>, needed: Seq<Capability>)
    ensures
        forall|cap: Capability|
            #[trigger] surplus(held, needed).contains(cap) <==> held.contains(cap)
                && !needed.contains(cap),
        forall|cap: Capability|
            #[trigger] retained(held, needed).contains(cap) <==> held.contains(cap)
                && needed.contains(cap),
        retained(held, needed).to_set() == held.to_set().difference(
            surplus(held, needed).to_set(),
        ),
        held.no_duplicates() ==> surplus(held, needed).no_duplicates() && retained(
            held,
            needed,
        ).no_duplicates(),
{
    broadcast use vstd::seq_lib::group_filter_ensures;

    let off = |cap: Capability| !needed.contains(cap);
    let on = |cap: Capability| needed.contains(cap);
    assert forall|cap: Capability| #[trigger]
        surplus(held, needed).contains(cap) <==> held.contains(cap) && !needed.contains(cap) by {
        if surplus(held, needed).contains(cap) {
            held.lemma_filter_contains_rev(off, cap);
            let i = choose|i: int| 0 <= i < held.filter(off).len() && held.filter(off)[i] == cap;
            assert(off(held.filter(off)[i]));
        }
        if held.contains(cap) && !needed.contains(cap) {
            let i = choose|i: int| 0 <= i < held.len() && held[i] == cap;
            assert(off(held[i]));
        }
    }
    assert forall|cap: Capability| #[trigger]
        retained(held, needed).contains(cap) <==> held.contains(cap) && needed.contains(cap) by {
        if retained(held, needed).contains(cap) {
            held.lemma_filter_contains_rev(on, cap);
            let i = choose|i: int| 0 <= i < held.filter(on).len() && held.filter(on)[i] == cap;
            assert(on(held.filter(on)[i]));
        }
        if held.contains(cap) && needed.contains(cap) {
            let i = choose|i: int| 0 <= i < held.len() && held[i] == cap;
            assert(on(held[i]));
        }
    }
    assert(retained(held, needed).to_set() =~= held.to_set().difference(
        surplus(held, needed).to_set(),
    ));
    if held.no_duplicates() {
        lemma_filter_keeps_distinct(held, off);
        lemma_filter_keeps_distinct(held, on);
    }
}

/// The planned drops take the surplus out of both sets and touch nothing
/// else: a capability is dropped from the effective set exactly when it is
/// dropped from the permitted set, and that is exactly when it is held and
/// off the whitelist. The drop from the effective set comes first.
pub proof fn lemma_drops_cover_both_sets(held: Seq<Capability>, needed: Seq<Capability>)
    ensures
        forall|set: ProcessSet, cap: Capability| #[trigger]
            drops_for(held, needed).contains((set, cap)) <==> held.contains(cap)
                && !needed.contains(cap),
        forall|i: int|
            0 <= i < drops_for(held, needed).len() && i % 2 == 0 ==> {
                &&& (#[trigger] drops_for(held, needed)[i]).0 == ProcessSet::Effective
                &&& drops_for(held, needed)[i + 1] == (
                    ProcessSet::Permitted,
                    drops_for(held, needed)[i].1,
                )
            },
{
    let gone = surplus(held, needed);
    let plan = drops_for(held, needed);
    lemma_reduction_splits_held(held, needed);
    assert forall|set: ProcessSet, cap: Capability| #[trigger]
        plan.contains((set, cap)) <==> held.contains(cap) && !needed.contains(cap) by {
        if plan.contains((set, cap)) {
            let i = choose|i: int| 0 <= i < plan.len() && plan[i] == (set, cap);
            assert(gone[i / 2] == cap);
            assert(gone.contains(cap));
        }
        if held.contains(cap) && !needed.contains(cap) {
            assert(gone.contains(cap));
            let k = choose|k: int| 0 <= k < gone.len() && gone[k] == cap;
            match set {
                ProcessSet::Effective => {
                    assert(plan[2 * k] == (set, cap));
                },
                ProcessSet::Permitted => {
                    assert(plan[2 * k + 1] == (set, cap));
                },
            }
        }
    }
}

/// Reduction reaches the whitelist in both sets. Take either set of the
/// process: if all it holds is permitted and it holds every capability that
/// the whitelist names, then after the planned drops it holds exactly the
/// whitelist's capabilities. So the effective and the permitted set end up
/// equal to the whitelist and to each other.
pub proof fn lemma_drops_reach_whitelist(
    start: Seq<Capability>,
    permitted: Seq<Capability>,
    needed: Seq<Capability>,
    set: ProcessSet,
)
    requires
        forall|i: int| 0 <= i < start.len() ==> permitted.contains(#[trigger] start[i]),
        forall|i: int| 0 <= i < needed.len() ==> start.contains(#[trigger] needed[i]),
    ensures
        reduction_accepted(left_after(start, drops_for(permitted, needed), set), needed),
{
    broadcast use vstd::seq_lib::group_filter_ensures;

    let plan = drops_for(permitted, needed);
    let stays = |cap: Capability| !plan.contains((set, cap));
    let left = left_after(start, plan, set);
    lemma_drops_cover_both_sets(permitted, needed);
    assert(left.to_set() =~= needed.to_set()) by {
        assert forall|cap: Capability| left.contains(cap) implies needed.contains(cap) by {
            start.lemma_filter_contains_rev(stays, cap);
            let i = choose|i: int| 0 <= i < left.len() && left[i] == cap;
            assert(stays(left[i]));
            let j = choose|j: int| 0 <= j < start.len() && start[j] == cap;
            assert(permitted.contains(start[j]));
            assert(!plan.contains((set, cap)));
        }
        assert forall|cap: Capability| needed.contains(cap) implies left.contains(cap) by {
            let i = choose|i: int| 0 <= i < needed.len() && needed[i] == cap;
            assert(start.contains(needed[i]));
            let j = choose|j: int| 0 <= j < start.len() && start[j] == cap;
            assert(!plan.contains((set, cap)));
            assert(stays(start[j]));
        }
    }
}

/// Reduction reaches the whitelist. When the process holds every capability
/// that the whitelist names, what is left after the surplus is dropped is
/// accepted: it holds exactly the whitelist's capabilities, whatever else was
/// held and however often the whitelist writes a name.
pub proof fn lemma_reduction_reaches_whitelist(held: Seq<Capability>, needed: Seq<Capability>)
    requires
        forall|i: int| 0 <= i < needed.len() ==> held.contains(#[trigger] needed[i]),
    ensures
        reduction_accepted(retained(held, needed), needed),
        retained(held, needed).to_set() == needed.to_set(),
{
    lemma_reduction_splits_held(held, needed);
    assert(retained(held, needed).to_set() =~= needed.to_set()) by {
        assert forall|cap: Capability| needed.contains(cap) implies held.contains(cap) by {
            let i = choose|i: int| 0 <= i < needed.len() && needed[i] == cap;
            assert(held.contains(needed[i]));
        }
    }
}

/// Reduction is idempotent. After one reduction a second one to the same
/// whitelist finds nothing to drop and keeps everything, whatever was held at
/// the start.
pub proof fn lemma_reduction_idempotent(held: Seq<Capability>, needed: Seq<Capability>)
    ensures
        surplus(retained(held, needed), needed) == Seq::<Capability>::empty(),
        drops_for(retained(held, needed), needed) == Seq::<(ProcessSet, Capability)>::empty(),
        retained(retained(held, needed), needed) == retained(held, needed),
{
    broadcast use vstd::seq_lib::group_filter_ensures;

    let off = |cap: Capability| !needed.contains(cap);
    let on = |cap: Capability| needed.contains(cap);
    let kept = retained(held, needed);
    assert forall|i: int| 0 <= i < kept.len() implies on(#[trigger] kept[i]) && !off(kept[i]) by {}
    lemma_filter_of_all(kept, on);
    lemma_filter_of_none(kept, off);
    assert(drops_for(kept, needed) =~= Seq::<(ProcessSet, Capability)>::empty());
}

} // verus!
