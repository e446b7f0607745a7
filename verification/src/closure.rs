//! Declaring, with a set of capabilities, every capability that one of
//! them declares along with itself, and so on.

use vstd::prelude::*;
use std::collections::BTreeSet;
use crate::order::{lemma_numbers_are_ordered, numbers_are_ordered};
use crate::spirv::{Capability, Grammar};

verus! {

broadcast use vstd::std_specs::btree::group_btree_axioms;

/// Whether `path` leads from one of `from` along declarations: each of its
/// capabilities declares the next.
pub open spec fn spec_is_path(grammar: &Grammar, from: Set<Capability>, path: Seq<Capability>) -> bool {
    &&& path.len() > 0
    &&& from.contains(path[0])
    &&& forall|i: int|
        0 <= i < path.len() - 1 ==> grammar.spec_implicitly_declares(#[trigger] path[i]).contains(
            path[i + 1],
        )
}

/// Whether `capability` is one of `from` or is declared, over any number
/// of steps, by one of them.
pub open spec fn spec_reaches(grammar: &Grammar, from: Set<Capability>, capability: Capability) -> bool {
    exists|path: Seq<Capability>| #[trigger]
        spec_is_path(grammar, from, path) && path.last() == capability
}

/// The capabilities `from` with all that they declare.
pub open spec fn spec_closure(grammar: &Grammar, from: Set<Capability>) -> Set<Capability> {
    Set::new(|capability: Capability| spec_reaches(grammar, from, capability))
}

/// Whether a set holds what each of its capabilities declares.
pub open spec fn spec_is_closed(grammar: &Grammar, set: Set<Capability>) -> bool {
    forall|c: Capability, d: int|
        set.contains(c) && 0 <= d < grammar.spec_implicitly_declares(c).len() ==> set.contains(
            #[trigger] grammar.spec_implicitly_declares(c)[d],
        )
}

/// Each of `from` is reached.
pub proof fn lemma_reaches_start(grammar: &Grammar, from: Set<Capability>, capability: Capability)
    requires
        from.contains(capability),
    ensures
        spec_reaches(grammar, from, capability),
{
    let path = seq![capability];
    assert(spec_is_path(grammar, from, path));
    assert(path.last() == capability);
}

/// What a reached capability declares is reached.
pub proof fn lemma_reaches_step(
    grammar: &Grammar,
    from: Set<Capability>,
    capability: Capability,
    d: int,
)
    requires
        spec_reaches(grammar, from, capability),
        0 <= d < grammar.spec_implicitly_declares(capability).len(),
    ensures
        spec_reaches(grammar, from, grammar.spec_implicitly_declares(capability)[d]),
{
    let path = choose|path: Seq<Capability>| #[trigger]
        spec_is_path(grammar, from, path) && path.last() == capability;
    let declared = grammar.spec_implicitly_declares(capability)[d];
    let longer = path.push(declared);
    assert forall|i: int| 0 <= i < longer.len() - 1 implies grammar.spec_implicitly_declares(
        #[trigger] longer[i],
    ).contains(longer[i + 1]) by {
        if i < path.len() - 1 {
            assert(longer[i] == path[i]);
            assert(longer[i + 1] == path[i + 1]);
        } else {
            assert(longer[i] == capability);
            assert(longer[i + 1] == declared);
        }
    }
    assert(spec_is_path(grammar, from, longer));
    assert(longer.last() == declared);
}

/// A closed set that holds `from` holds the last capability of every path
/// from `from`.
pub proof fn lemma_closed_holds_path(
    grammar: &Grammar,
    from: Set<Capability>,
    set: Set<Capability>,
    path: Seq<Capability>,
)
    requires
        from.subset_of(set),
        spec_is_closed(grammar, set),
        spec_is_path(grammar, from, path),
    ensures
        set.contains(path.last()),
    decreases path.len(),
{
    if path.len() > 1 {
        let shorter = path.drop_last();
        assert forall|i: int| 0 <= i < shorter.len() - 1 implies grammar.spec_implicitly_declares(
            #[trigger] shorter[i],
        ).contains(shorter[i + 1]) by {
            assert(shorter[i] == path[i]);
            assert(shorter[i + 1] == path[i + 1]);
        }
        assert(spec_is_path(grammar, from, shorter));
        lemma_closed_holds_path(grammar, from, set, shorter);
        let before = path[path.len() - 2];
        assert(shorter.last() == before);
        assert(grammar.spec_implicitly_declares(before).contains(path[path.len() - 2 + 1]));
        let d = choose|d: int|
            0 <= d < grammar.spec_implicitly_declares(before).len()
                && grammar.spec_implicitly_declares(before)[d] == path.last();
        assert(set.contains(grammar.spec_implicitly_declares(before)[d]));
    }
}

/// A closed set between `from` and what `from` reaches is the closure of
/// `from`.
pub proof fn lemma_closed_is_closure(grammar: &Grammar, from: Set<Capability>, set: Set<Capability>)
    requires
        from.subset_of(set),
        spec_is_closed(grammar, set),
        forall|c: Capability| set.contains(c) ==> spec_reaches(grammar, from, c),
    ensures
        set == spec_closure(grammar, from),
{
    assert forall|c: Capability| spec_closure(grammar, from).contains(c) implies set.contains(c) by {
        let path = choose|path: Seq<Capability>| #[trigger]
            spec_is_path(grammar, from, path) && path.last() == c;
        lemma_closed_holds_path(grammar, from, set, path);
    }
    assert(set =~= spec_closure(grammar, from));
}

/// The number of capabilities that a set was not seen to hold.
pub open spec fn spec_unseen(seen: Seq<bool>) -> nat
    decreases seen.len(),
{
    if seen.len() == 0 {
        0
    } else {
        spec_unseen(seen.drop_last()) + if seen.last() {
            0nat
        } else {
            1nat
        }
    }
}

/// Seeing one more capability leaves one less unseen.
pub proof fn lemma_unseen_update(seen: Seq<bool>, i: int)
    requires
        0 <= i < seen.len(),
        !seen[i],
    ensures
        spec_unseen(seen.update(i, true)) + 1 == spec_unseen(seen),
    decreases seen.len(),
{
    if i == seen.len() - 1 {
        assert(seen.update(i, true).drop_last() =~= seen.drop_last());
    } else {
        assert(seen.update(i, true).drop_last() =~= seen.drop_last().update(i, true));
        lemma_unseen_update(seen.drop_last(), i);
    }
}

/// Adds, to a set of capabilities, every capability that one of them
/// declares along with itself, over any number of steps.
pub fn declare_implied(capabilities: &mut BTreeSet<Capability>, grammar: &Grammar)
    requires
        grammar.wf(),
    ensures
        final(capabilities)@ == spec_closure(grammar, old(capabilities)@),
{
    proof {
        lemma_numbers_are_ordered();
    }
    let count: u32 = grammar.capability_count();
    let mut work: Vec<Capability> = Vec::new();
    let mut seen: Vec<bool> = Vec::new();
    let mut i: u32 = 0;
    while i < count
        invariant
            numbers_are_ordered(),
            i <= count,
            count == grammar.spec_capabilities().len(),
            capabilities@ == old(capabilities)@,
            seen@.len() == i,
            forall|c: Capability| c < i ==> seen@[c as int] == capabilities@.contains(c),
            forall|c: Capability|
                c < i && capabilities@.contains(c) && grammar.spec_knows(c) ==> work@.contains(c),
            forall|k: int| 0 <= k < work@.len() ==> capabilities@.contains(#[trigger] work@[k]),
        decreases count - i,
    {
        let has: bool = capabilities.contains(&i);
        seen.push(has);
        if has && grammar.knows(i) {
            let ghost before = work@;
            work.push(i);
            assert(work@[before.len() as int] == i);
            assert forall|c: Capability| before.contains(c) implies work@.contains(c) by {
                let k = choose|k: int| 0 <= k < before.len() && before[k] == c;
                assert(work@[k] == c);
            }
        }
        i = i + 1;
    }
    proof {
        assert forall|c: Capability| capabilities@.contains(c) implies spec_reaches(
            grammar,
            old(capabilities)@,
            c,
        ) by {
            lemma_reaches_start(grammar, old(capabilities)@, c);
        }
    }
    while work.len() > 0
        invariant
            grammar.wf(),
            numbers_are_ordered(),
            count == grammar.spec_capabilities().len(),
            seen@.len() == count,
            forall|c: Capability| c < count ==> seen@[c as int] == capabilities@.contains(c),
            old(capabilities)@.subset_of(capabilities@),
            forall|c: Capability|
                capabilities@.contains(c) ==> spec_reaches(grammar, old(capabilities)@, c),
            forall|k: int| 0 <= k < work@.len() ==> capabilities@.contains(#[trigger] work@[k]),
            forall|c: Capability, d: int|
                capabilities@.contains(c) && !work@.contains(c) && 0 <= d
                    < grammar.spec_implicitly_declares(c).len() ==> capabilities@.contains(
                    #[trigger] grammar.spec_implicitly_declares(c)[d],
                ),
        decreases spec_unseen(seen@), work@.len(),
    {
        let ghost unseen_before = spec_unseen(seen@);
        let ghost work_before = work@;
        let capability: u32 = work.pop().unwrap();
        let declares: &[Capability] = grammar.implicitly_declares(capability);
        proof {
            assert(work_before[work_before.len() - 1] == capability);
            assert forall|c: Capability| !work@.contains(c) && c != capability implies !work_before.contains(
                c,
            ) by {
                if work_before.contains(c) {
                    let k = choose|k: int| 0 <= k < work_before.len() && work_before[k] == c;
                    assert(work@[k] == c);
                }
            }
        }
        let mut d: usize = 0;
        while d < declares.len()
            invariant
                grammar.wf(),
                numbers_are_ordered(),
                count == grammar.spec_capabilities().len(),
                declares@ == grammar.spec_implicitly_declares(capability),
                d <= declares@.len(),
                seen@.len() == count,
                forall|c: Capability| c < count ==> seen@[c as int] == capabilities@.contains(c),
                old(capabilities)@.subset_of(capabilities@),
                capabilities@.contains(capability),
                forall|k: int| 0 <= k < work@.len() ==> capabilities@.contains(#[trigger] work@[k]),
                forall|c: Capability|
                    capabilities@.contains(c) ==> spec_reaches(grammar, old(capabilities)@, c),
                forall|c: Capability, k: int|
                    capabilities@.contains(c) && !work@.contains(c) && c != capability && 0 <= k
                        < grammar.spec_implicitly_declares(c).len() ==> capabilities@.contains(
                        #[trigger] grammar.spec_implicitly_declares(c)[k],
                    ),
                forall|k: int| 0 <= k < d ==> capabilities@.contains(#[trigger] declares@[k]),
                spec_unseen(seen@) + work@.len() + 1 == unseen_before + work_before.len(),
                spec_unseen(seen@) <= unseen_before,
            decreases declares@.len() - d,
        {
            let declared: u32 = declares[d];
            proof {
                lemma_reaches_step(grammar, old(capabilities)@, capability, d as int);
                assert(grammar.spec_knows(declared));
            }
            let ghost held = capabilities@;
            let ghost todo = work@;
            if capabilities.insert(declared) {
                proof {
                    lemma_unseen_update(seen@, declared as int);
                }
                seen.set(declared as usize, true);
                work.push(declared);
                assert(work@[todo.len() as int] == declared);
                assert forall|c: Capability| todo.contains(c) implies work@.contains(c) by {
                    let k = choose|k: int| 0 <= k < todo.len() && todo[k] == c;
                    assert(work@[k] == c);
                }
            } else {
                assert(capabilities@ =~= held);
            }
            d = d + 1;
        }
    }
    proof {
        assert(spec_is_closed(grammar, capabilities@));
        lemma_closed_is_closure(grammar, old(capabilities)@, capabilities@);
    }
}

} // verus!
