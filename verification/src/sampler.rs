//! Picking terms at random from the index of all headwords.

use vstd::prelude::*;
use vstd::string::*;
use rand::rngs::ThreadRng;
use rand::seq::SliceRandom;
use crate::error::{ErrorView, MeowdictError};

verus! {

#[verifier::external_type_specification]
#[verifier::external_body]
pub struct ExThreadRng(ThreadRng);

/// `rand::thread_rng`: the random number generator of the current thread.
pub assume_specification[ rand::thread_rng ]() -> ThreadRng;

/// Whether `needle` occurs in `hay` as a run of neighbouring characters.
pub open spec fn occurs_in(needle: Seq<char>, hay: Seq<char>) -> bool {
    exists|i: int|
        0 <= i <= hay.len() - needle.len() && #[trigger] hay.subrange(i, i + needle.len())
            == needle
}

/// `str::contains` with a string as the pattern: whether `needle` is a part
/// of `hay`.
#[verifier::external_body]
pub(crate) fn contains_text(hay: &str, needle: &str) -> (b: bool)
    ensures
        b == occurs_in(needle@, hay@),
{
    hay.contains(needle)
}

/// `SliceRandom::choose`: one of the candidates, picked at random; `None`
/// if and only if there is no candidate. Which one is picked is left open.
#[verifier::external_body]
fn choose_one<'a, T>(candidates: &'a [T], rng: &mut ThreadRng) -> (r: Option<&'a T>)
    ensures
        r is None <==> candidates@.len() == 0,
        r matches Some(picked) ==> exists|i: int|
            0 <= i < candidates@.len() && #[trigger] candidates@[i] == *picked,
{
    candidates.choose(rng)
}

/// The terms of the index that hold `filter`, in the order of the index.
pub open spec fn matching(index: Seq<Seq<char>>, filter: Seq<char>) -> Seq<Seq<char>>
    decreases index.len(),
{
    if index.len() == 0 {
        Seq::empty()
    } else if occurs_in(filter, index.last()) {
        matching(index.drop_last(), filter).push(index.last())
    } else {
        matching(index.drop_last(), filter)
    }
}

/// The terms of the index that hold `filter`, in the order of the index.
pub fn matching_terms<'a>(index: &'a [String], filter: &str) -> (found: Vec<&'a String>)
    ensures
        found.deep_view() == matching(index.deep_view(), filter@),
{
    let mut found: Vec<&'a String> = Vec::new();
    let ghost all = index.deep_view();
    let mut n: usize = 0;
    assert(all.take(0) =~= Seq::<Seq<char>>::empty());
    assert(found.deep_view() =~= Seq::<Seq<char>>::empty());
    while n < index.len()
        invariant
            n <= index.len(),
            all == index.deep_view(),
            found.deep_view() == matching(all.take(n as int), filter@),
        decreases index.len() - n,
    {
        let term = &index[n];
        proof {
            assert(all.take(n + 1).drop_last() =~= all.take(n as int));
            assert(all.take(n + 1).last() == term@);
        }
        if contains_text(term.as_str(), filter) {
            let ghost before = found.deep_view();
            found.push(term);
            assert(found.deep_view() =~= before.push(term@));
        }
        n += 1;
    }
    assert(all.take(n as int) =~= all);
    found
}

/// The terms that match a filter are the terms of the index that hold it.
pub proof fn lemma_matching(index: Seq<Seq<char>>, filter: Seq<char>, term: Seq<char>)
    ensures
        matching(index, filter).contains(term) <==> index.contains(term) && occurs_in(
            filter,
            term,
        ),
    decreases index.len(),
{
    if index.len() > 0 {
        let earlier = index.drop_last();
        lemma_matching(earlier, filter, term);
        let found = matching(index, filter);
        if index.contains(term) {
            let i = choose|i: int| 0 <= i < index.len() && index[i] == term;
            if i < earlier.len() {
                assert(earlier[i] == term);
            }
        }
        if earlier.contains(term) {
            let i = choose|i: int| 0 <= i < earlier.len() && earlier[i] == term;
            assert(index[i] == term);
        }
        if index.last() == term {
            assert(index[index.len() - 1] == term);
        }
        if occurs_in(filter, index.last()) {
            let kept = matching(earlier, filter);
            assert(found == kept.push(index.last()));
            if kept.contains(term) {
                let i = choose|i: int| 0 <= i < kept.len() && kept[i] == term;
                assert(found[i] == term);
            }
            if index.last() == term {
                assert(found[found.len() - 1] == term);
            }
            if found.contains(term) {
                let i = choose|i: int| 0 <= i < found.len() && found[i] == term;
                if i < kept.len() {
                    assert(kept[i] == term);
                }
            }
        }
    }
}

/// The outcome of a pick among all terms of the index: the term that was
/// picked, or the failure that there was nothing to pick from.
pub fn picked_term(picked: Option<&String>) -> (r: Result<String, MeowdictError>)
    ensures
        picked matches Some(term) ==> (r matches Ok(t) && t@ == term@),
        picked is None ==> (r matches Err(e) && e.deep_view() == ErrorView::NoMatch),
{
    match picked {
        Some(term) => Ok(term.clone()),
        None => Err(MeowdictError::NoMatch),
    }
}

/// Picks terms from the index at random. Without filters, one term out of
/// the whole index. With filters, one term for each filter, out of the terms
/// that hold the filter, in the order of the filters. Fails where there is
/// nothing to pick from: the index is empty, or no term holds a filter.
pub fn random_moedict_item(moedict_index: &[String], words: &Option<Vec<String>>) -> (r: Result<
    Vec<String>,
    MeowdictError,
>)
    ensures
        r is Ok <==> match words {
            Some(filters) => forall|k: int|
                0 <= k < filters.len() ==> matching(
                    moedict_index.deep_view(),
                    (#[trigger] filters[k])@,
                ).len() > 0,
            None => moedict_index.len() > 0,
        },
        r matches Ok(terms) ==> match words {
            Some(filters) => terms.len() == filters.len() && forall|k: int|
                0 <= k < terms.len() ==> matching(moedict_index.deep_view(), filters[k]@).contains(
                    (#[trigger] terms[k])@,
                ),
            None => terms.len() == 1 && moedict_index.deep_view().contains(terms[0]@),
        },
        r matches Err(e) ==> e.deep_view() == ErrorView::NoMatch,
{
    let mut rng = rand::thread_rng();
    let ghost all = moedict_index.deep_view();
    match words {
        Some(filters) => {
            let mut terms: Vec<String> = Vec::new();
            let mut k: usize = 0;
            while k < filters.len()
                invariant
                    k <= filters.len(),
                    *words == Some(*filters),
                    all == moedict_index.deep_view(),
                    terms.len() == k,
                    forall|j: int|
                        0 <= j < k ==> matching(all, (#[trigger] filters[j])@).len() > 0,
                    forall|j: int|
                        0 <= j < k ==> matching(all, filters[j]@).contains((#[trigger] terms[j])@),
                decreases filters.len() - k,
            {
                let filter = &filters[k];
                let found = matching_terms(moedict_index, filter.as_str());
                let picked = choose_one(found.as_slice(), &mut rng);
                match picked {
                    Some(term) => {
                        proof {
                            let i = choose|i: int|
                                0 <= i < found@.len() && #[trigger] found@[i] == *term;
                            assert(found.deep_view()[i] == term@);
                        }
                        terms.push((*term).clone());
                    },
                    None => {
                        proof {
                            let given = words->0;
                            assert(matching(all, given[k as int]@).len() == 0);
                        }
                        return Err(MeowdictError::NoMatch);
                    },
                }
                k += 1;
            }
            Ok(terms)
        },
        None => {
            let picked = choose_one(moedict_index, &mut rng);
            match picked_term(picked) {
                Ok(term) => {
                    proof {
                        let i = choose|i: int|
                            0 <= i < moedict_index@.len() && #[trigger] moedict_index@[i]@
                                == term@;
                        assert(all[i] == term@);
                    }
                    let mut terms: Vec<String> = Vec::new();
                    terms.push(term);
                    Ok(terms)
                },
                Err(e) => Err(e),
            }
        },
    }
}

} // verus!
