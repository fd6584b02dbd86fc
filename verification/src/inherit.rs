//! Flattening an inheritance chain: the depth-first expansion of `inherits`
//! declarations into one ordered sequence of partial definitions, every
//! ancestor before each of its descendants and the requested profile last.
//! A set of names currently being expanded travels down the recursion, so a
//! cyclic declaration is detected instead of recursing without bound.

use vstd::prelude::*;

use crate::io::{
    clone_names, lemma_lookup_some_in_name_set, lookup, name_set, names_seq_view, EntryView,
    PartialDefinition, PartialView, ProfileStore, StoredDefView, StoredDefinition,
};
use crate::profile::ProfileError;

verus! {

/// How many stored names are not yet being expanded: the measure that bounds
/// the depth of the expansion.
pub open spec fn remaining(entries: Seq<EntryView>, visiting: Set<Seq<char>>) -> nat {
    name_set(entries).difference(visiting).len()
}

/// The shape every expansion state keeps: only stored names are ever marked
/// as being expanded.
pub open spec fn expansion_wf(entries: Seq<EntryView>, visiting: Set<Seq<char>>) -> bool {
    visiting.finite() && visiting.subset_of(name_set(entries))
}

/// The flattened ancestry of the profile stored under `name`, with `visiting`
/// the names currently being expanded above it.  A name already being
/// expanded is a cycle; a name the store lacks is fatal; so is a definition
/// that did not parse.  A definition without `inherits` flattens to itself
/// alone; otherwise the ancestors flatten in declared order, concatenated,
/// with the definition itself appended last.
pub open spec fn flatten_name(
    entries: Seq<EntryView>,
    name: Seq<char>,
    visiting: Set<Seq<char>>,
) -> Result<Seq<PartialView>, ProfileError>
    decreases remaining(entries, visiting), 0int, 0int
        when expansion_wf(entries, visiting)
        via flatten_name_decreases
{
    if visiting.contains(name) {
        Err(ProfileError::CyclicInheritance)
    } else {
        match lookup(entries, name) {
            None => Err(ProfileError::ProfileNotFound),
            Some(StoredDefView::Malformed) => Err(ProfileError::InvalidProfileFormat),
            Some(StoredDefView::Parsed(d)) => match d.inherits {
                None => Ok(seq![d]),
                Some(parents) => match flatten_names(entries, parents, visiting.insert(name)) {
                    Err(e) => Err(e),
                    Ok(defs) => Ok(defs.push(d)),
                },
            },
        }
    }
}

/// The concatenated flattened ancestries of `names`, left to right; the first
/// failure, if any, is the result.
pub open spec fn flatten_names(
    entries: Seq<EntryView>,
    names: Seq<Seq<char>>,
    visiting: Set<Seq<char>>,
) -> Result<Seq<PartialView>, ProfileError>
    decreases remaining(entries, visiting), 1int, names.len()
        when expansion_wf(entries, visiting)
{
    if names.len() == 0 {
        Ok(Seq::empty())
    } else {
        match flatten_name(entries, names.first(), visiting) {
            Err(e) => Err(e),
            Ok(first_defs) => match flatten_names(entries, names.drop_first(), visiting) {
                Err(e) => Err(e),
                Ok(rest_defs) => Ok(first_defs + rest_defs),
            },
        }
    }
}

#[via_fn]
proof fn flatten_name_decreases(
    entries: Seq<EntryView>,
    name: Seq<char>,
    visiting: Set<Seq<char>>,
) {
    broadcast use vstd::seq_lib::seq_to_set_is_finite;

    if expansion_wf(entries, visiting) && !visiting.contains(name) && lookup(
        entries,
        name,
    ) is Some {
        lemma_lookup_some_in_name_set(entries, name);
        name_set(entries).lemma_set_insert_diff_decreases(visiting, name);
    }
}

/// Marking one more stored name as being expanded keeps the expansion state
/// well-formed and strictly shrinks the measure.
pub proof fn lemma_expansion_step(
    entries: Seq<EntryView>,
    name: Seq<char>,
    visiting: Set<Seq<char>>,
)
    requires
        expansion_wf(entries, visiting),
        !visiting.contains(name),
        lookup(entries, name) is Some,
    ensures
        expansion_wf(entries, visiting.insert(name)),
        remaining(entries, visiting.insert(name)) < remaining(entries, visiting),
{
    broadcast use vstd::seq_lib::seq_to_set_is_finite;

    lemma_lookup_some_in_name_set(entries, name);
    name_set(entries).lemma_set_insert_diff_decreases(visiting, name);
}

/// A profile that inherits itself flattens to the cycle error, whatever else
/// the store holds.
pub proof fn lemma_self_cycle(entries: Seq<EntryView>, a: Seq<char>, da: PartialView)
    requires
        lookup(entries, a) == Some(StoredDefView::Parsed(da)),
        da.inherits == Some(seq![a]),
    ensures
        flatten_name(entries, a, Set::empty()) == Err::<Seq<PartialView>, ProfileError>(
            ProfileError::CyclicInheritance,
        ),
{
    broadcast use vstd::seq_lib::seq_to_set_is_finite;

    let e0: Set<Seq<char>> = Set::empty();
    lemma_lookup_some_in_name_set(entries, a);
    assert(expansion_wf(entries, e0));
    assert(expansion_wf(entries, e0.insert(a)));
    assert(seq![a].first() == a);
    assert(flatten_name(entries, a, e0.insert(a)) == Err::<Seq<PartialView>, ProfileError>(
        ProfileError::CyclicInheritance,
    ));
    assert(flatten_names(entries, seq![a], e0.insert(a)) == Err::<Seq<PartialView>, ProfileError>(
        ProfileError::CyclicInheritance,
    ));
}

/// A pair of profiles that inherit each other flattens to the cycle error
/// likewise.
pub proof fn lemma_two_cycle(
    entries: Seq<EntryView>,
    a: Seq<char>,
    b: Seq<char>,
    da: PartialView,
    db: PartialView,
)
    requires
        a != b,
        lookup(entries, a) == Some(StoredDefView::Parsed(da)),
        da.inherits == Some(seq![b]),
        lookup(entries, b) == Some(StoredDefView::Parsed(db)),
        db.inherits == Some(seq![a]),
    ensures
        flatten_name(entries, a, Set::empty()) == Err::<Seq<PartialView>, ProfileError>(
            ProfileError::CyclicInheritance,
        ),
{
    broadcast use vstd::seq_lib::seq_to_set_is_finite;

    let e0: Set<Seq<char>> = Set::empty();
    lemma_lookup_some_in_name_set(entries, a);
    lemma_lookup_some_in_name_set(entries, b);
    let va = e0.insert(a);
    let vab = va.insert(b);
    assert(expansion_wf(entries, e0));
    assert(expansion_wf(entries, va));
    assert(expansion_wf(entries, vab));
    assert(seq![b].first() == b);
    assert(seq![a].first() == a);
    assert(!va.contains(b));
    assert(vab.contains(a));
    assert(flatten_name(entries, a, vab) == Err::<Seq<PartialView>, ProfileError>(
        ProfileError::CyclicInheritance,
    ));
    assert(flatten_names(entries, seq![a], vab) == Err::<Seq<PartialView>, ProfileError>(
        ProfileError::CyclicInheritance,
    ));
    assert(flatten_name(entries, b, va) == Err::<Seq<PartialView>, ProfileError>(
        ProfileError::CyclicInheritance,
    ));
    assert(flatten_names(entries, seq![b], va) == Err::<Seq<PartialView>, ProfileError>(
        ProfileError::CyclicInheritance,
    ));
}

/// The set of names a list marks as being expanded.
pub open spec fn visiting_set(v: Seq<String>) -> Set<Seq<char>> {
    names_seq_view(v).to_set()
}

/// Pushing a name onto the list inserts its view into the set.
proof fn lemma_visiting_set_push(v: Seq<String>, name: String)
    ensures
        visiting_set(v.push(name)) =~= visiting_set(v).insert(name@),
{
    assert(names_seq_view(v.push(name)) =~= names_seq_view(v).push(name@));
    assert forall|x: Seq<char>| #[trigger] visiting_set(v.push(name)).contains(x) implies
        visiting_set(v).insert(name@).contains(x) by {
        let s = names_seq_view(v).push(name@);
        let i = choose|i: int| 0 <= i < s.len() && s[i] == x;
        if i < names_seq_view(v).len() {
            assert(names_seq_view(v).contains(x));
        }
    }
    assert forall|x: Seq<char>| #[trigger]
        visiting_set(v).insert(name@).contains(x) implies visiting_set(v.push(name)).contains(
        x,
    ) by {
        let s = names_seq_view(v).push(name@);
        if x == name@ {
            assert(s[s.len() - 1] == x);
        } else {
            let i = choose|i: int|
                0 <= i < names_seq_view(v).len() && names_seq_view(v)[i] == x;
            assert(s[i] == x);
        }
    }
}

/// The view of a flattening result: the definitions' views on success, the
/// same error on failure.
pub open spec fn flatten_result_view(r: Result<Vec<PartialDefinition>, ProfileError>) -> Result<
    Seq<PartialView>,
    ProfileError,
> {
    match r {
        Ok(v) => Ok(defs_view(v@)),
        Err(e) => Err(e),
    }
}

/// The views of a sequence of partial definitions, element by element.
pub open spec fn defs_view(v: Seq<PartialDefinition>) -> Seq<PartialView> {
    v.map_values(|d: PartialDefinition| d@)
}

/// Whether a name is among those currently being expanded.
fn name_in(list: &Vec<String>, name: &String) -> (r: bool)
    ensures
        r == visiting_set(list@).contains(name@),
{
    let n = list.len();
    let mut i: usize = 0;
    while i < n
        invariant
            0 <= i <= n,
            n == list@.len(),
            forall|k: int| 0 <= k < i ==> list@[k]@ != name@,
        decreases n - i,
    {
        if list[i] == *name {
            proof {
                assert(names_seq_view(list@)[i as int] == name@);
            }
            return true;
        }
        i = i + 1;
    }
    proof {
        if visiting_set(list@).contains(name@) {
            let j = choose|j: int|
                0 <= j < names_seq_view(list@).len() && names_seq_view(list@)[j] == name@;
            assert(list@[j]@ == name@);
        }
    }
    false
}

/// Flattens the ancestry of the profile stored under `name`, exactly as
/// [`flatten_name`] describes it.
#[verifier::loop_isolation(false)]
pub(crate) fn flatten(store: &ProfileStore, name: &String, visiting: &Vec<String>) -> (r: Result<
    Vec<PartialDefinition>,
    ProfileError,
>)
    requires
        expansion_wf(store@.entries, visiting_set(visiting@)),
    ensures
        flatten_result_view(r) == flatten_name(store@.entries, name@, visiting_set(visiting@)),
    decreases remaining(store@.entries, visiting_set(visiting@)),
{
    let ghost entries = store@.entries;
    let ghost vset = visiting_set(visiting@);
    if name_in(visiting, name) {
        return Err(ProfileError::CyclicInheritance);
    }
    let stored = match store.read(name) {
        None => {
            return Err(ProfileError::ProfileNotFound);
        },
        Some(s) => s,
    };
    let d = match stored {
        StoredDefinition::Malformed => {
            return Err(ProfileError::InvalidProfileFormat);
        },
        StoredDefinition::Parsed(d) => d,
    };
    let parents = match &d.inherits {
        None => {
            let mut out: Vec<PartialDefinition> = Vec::new();
            out.push(d.clone());
            proof {
                assert(defs_view(out@) =~= seq![d@]);
            }
            return Ok(out);
        },
        Some(parents) => parents,
    };
    let mut visiting2 = clone_names(visiting);
    visiting2.push(name.clone());
    proof {
        lemma_visiting_set_push(visiting@, *name);
        lemma_expansion_step(entries, name@, vset);
        assert(visiting_set(visiting2@) == vset.insert(name@));
    }
    let ghost vset2 = visiting_set(visiting2@);
    let ghost pv = names_seq_view(parents@);
    let mut acc: Vec<PartialDefinition> = Vec::new();
    let n = parents.len();
    let mut i: usize = 0;
    proof {
        assert(pv.skip(0) =~= pv);
        if let Ok(rest) = flatten_names(entries, pv, vset2) {
            assert(Seq::<PartialView>::empty() + rest =~= rest);
        }
        assert(defs_view(acc@) =~= Seq::<PartialView>::empty());
    }
    while i < n
        invariant
            0 <= i <= n,
            n == parents@.len(),
            pv == names_seq_view(parents@),
            entries == store@.entries,
            vset2 == visiting_set(visiting2@),
            expansion_wf(entries, vset2),
            remaining(entries, vset2) < remaining(entries, vset),
            match flatten_names(entries, pv.skip(i as int), vset2) {
                Ok(rest) => flatten_names(entries, pv, vset2) == Ok::<_, ProfileError>(
                    defs_view(acc@) + rest,
                ),
                Err(e) => flatten_names(entries, pv, vset2) == Err::<Seq<PartialView>, _>(e),
            },
        decreases n - i,
    {
        proof {
            assert(pv.skip(i as int).len() > 0);
            assert(pv.skip(i as int).first() == pv[i as int]);
            assert(pv[i as int] == parents@[i as int]@);
            assert(pv.skip(i as int).drop_first() =~= pv.skip(i as int + 1));
        }
        let child = flatten(store, &parents[i], &visiting2);
        let mut defs = match child {
            Err(e) => {
                return Err(e);
            },
            Ok(defs) => defs,
        };
        proof {
            if let Ok(rest2) = flatten_names(entries, pv.skip(i as int + 1), vset2) {
                assert((defs_view(acc@) + (defs_view(defs@) + rest2)) =~= (defs_view(
                    acc@ + defs@,
                ) + rest2));
            }
        }
        acc.append(&mut defs);
        i = i + 1;
    }
    proof {
        assert(pv.skip(n as int).len() == 0);
        assert(flatten_names(entries, pv.skip(n as int), vset2) == Ok::<_, ProfileError>(
            Seq::<PartialView>::empty(),
        ));
        assert(defs_view(acc@) + Seq::<PartialView>::empty() =~= defs_view(acc@));
    }
    let ghost accv = acc@;
    acc.push(d.clone());
    proof {
        assert(defs_view(acc@) =~= defs_view(accv).push(d@));
    }
    Ok(acc)
}

} // verus!
