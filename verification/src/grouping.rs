//! Regrouping the senses of one pronunciation by word type.
//!
//! The senses arrive as one flat list. They leave as a map from word type to
//! groups of texts, one group for each sense, the word types in the order in
//! which they first occur.

use vstd::prelude::*;
use vstd::string::*;
use indexmap::IndexMap;
use crate::entry::{DefinitionView, MoedictDefinition};
use crate::text::push_text;
use crate::ordered::{
    distinct_keys, grouped_entries, groups_mut, has_group_key, has_key, insert_groups, new_groups,
};

verus! {

/// The groups under one key: for each sense its texts.
pub type Groups = Seq<Seq<Seq<char>>>;

/// The key under which senses without a word type are grouped.
pub open spec fn no_type_key() -> Seq<char> {
    seq!['n', 'o', 't', 'y', 'p', 'e']
}

/// The key under which a sense is grouped: its word type, or the key for
/// senses without one.
pub open spec fn type_key(d: DefinitionView) -> Seq<char> {
    match d.word_type {
        Some(t) => t,
        None => no_type_key(),
    }
}

/// The text of an optional field, as a list of none or one.
pub open spec fn one_or_none(text: Option<Seq<char>>) -> Seq<Seq<char>> {
    match text {
        Some(t) => seq![t],
        None => Seq::empty(),
    }
}

/// The texts of an optional list.
pub open spec fn all_or_none(texts: Option<Seq<Seq<char>>>) -> Seq<Seq<char>> {
    match texts {
        Some(t) => t,
        None => Seq::empty(),
    }
}

/// The texts of a sense in the order in which they are shown: the gloss,
/// the quotes, the examples, the links.
pub open spec fn sense_texts(d: DefinitionView) -> Seq<Seq<char>> {
    one_or_none(d.def) + all_or_none(d.quote) + all_or_none(d.example) + all_or_none(d.link)
}

/// The position of the entry for `key`; meaningful where there is one.
pub open spec fn key_position<V>(entries: Seq<(Seq<char>, V)>, key: Seq<char>) -> int {
    choose|i: int| 0 <= i < entries.len() && (#[trigger] entries[i]).0 == key
}

/// The grouping so far: the entries, and the running index of the group that
/// the next sense of a known word type is written to.
pub struct Grouping {
    pub entries: Seq<(Seq<char>, Groups)>,
    pub count: nat,
}

/// Whether the sense `d` can be taken in: where it has texts and its word
/// type is known, the group that the running index points at exists once the
/// key has its new, empty group. A sense without texts touches no group and
/// can always be taken in.
pub open spec fn fits(g: Grouping, d: DefinitionView) -> bool {
    has_key(g.entries, type_key(d)) && sense_texts(d).len() > 0 ==> g.count <= g.entries[key_position(
        g.entries,
        type_key(d),
    )].1.len()
}

/// Takes in one sense. A word type that is new gets an entry with one group,
/// which takes the texts, and the running index starts again. A known word
/// type gets one more, empty group, and the texts, if there are any, go to
/// the group at the running index. Either way the running index then moves
/// on by one.
pub open spec fn take_in(g: Grouping, d: DefinitionView) -> Grouping {
    let key = type_key(d);
    if has_key(g.entries, key) {
        let i = key_position(g.entries, key);
        let groups = g.entries[i].1.push(Seq::empty());
        let filled = if sense_texts(d).len() == 0 {
            groups
        } else {
            groups.update(g.count as int, groups[g.count as int] + sense_texts(d))
        };
        Grouping { entries: g.entries.update(i, (key, filled)), count: g.count + 1 }
    } else {
        Grouping { entries: g.entries.push((key, seq![sense_texts(d)])), count: 1 }
    }
}

/// The grouping of a list of senses, taken in from first to last.
pub open spec fn grouping_of(defs: Seq<DefinitionView>) -> Grouping
    decreases defs.len(),
{
    if defs.len() == 0 {
        Grouping { entries: Seq::empty(), count: 0 }
    } else {
        take_in(grouping_of(defs.drop_last()), defs.last())
    }
}

/// Whether a list of senses can be grouped: each sense fits when its turn
/// comes. Lists in which the senses of one word type stand together can.
pub open spec fn groupable(defs: Seq<DefinitionView>) -> bool
    decreases defs.len(),
{
    defs.len() == 0 || (groupable(defs.drop_last()) && fits(
        grouping_of(defs.drop_last()),
        defs.last(),
    ))
}

/// Appends the texts of an optional list to a group.
fn push_all(group: &mut Vec<String>, items: &Option<Vec<String>>)
    ensures
        final(group).deep_view() == old(group).deep_view() + all_or_none(items.deep_view()),
{
    match items {
        Some(list) => {
            let mut i: usize = 0;
            while i < list.len()
                invariant
                    i <= list.len(),
                    group.deep_view() == old(group).deep_view() + list.deep_view().take(i as int),
                decreases list.len() - i,
            {
                let text = list[i].clone();
                push_text(group, text);
                proof {
                    assert(list.deep_view().take(i + 1) =~= list.deep_view().take(i as int).push(
                        text@,
                    ));
                    assert(group.deep_view() =~= old(group).deep_view() + list.deep_view().take(
                        i + 1,
                    ));
                }
                i += 1;
            }
            assert(list.deep_view().take(i as int) =~= list.deep_view());
        },
        None => {
            assert(group.deep_view() =~= old(group).deep_view() + Seq::<Seq<char>>::empty());
        },
    }
}

/// Appends the texts of a sense to a group: gloss, quotes, examples, links.
fn push_sense(group: &mut Vec<String>, d: &MoedictDefinition)
    ensures
        final(group).deep_view() == old(group).deep_view() + sense_texts(d.deep_view()),
{
    match &d.def {
        Some(gloss) => {
            push_text(group, gloss.clone());
            assert(group.deep_view() =~= old(group).deep_view() + one_or_none(d.def.deep_view()));
        },
        None => {
            assert(group.deep_view() =~= old(group).deep_view() + one_or_none(d.def.deep_view()));
        },
    }
    push_all(group, &d.quote);
    push_all(group, &d.example);
    push_all(group, &d.link);
    assert(group.deep_view() =~= old(group).deep_view() + sense_texts(d.deep_view()));
}

/// Whether a sense has any text.
fn has_texts(d: &MoedictDefinition) -> (b: bool)
    ensures
        b == (sense_texts(d.deep_view()).len() > 0),
{
    let quotes = match &d.quote {
        Some(list) => list.len() > 0,
        None => false,
    };
    let examples = match &d.example {
        Some(list) => list.len() > 0,
        None => false,
    };
    let links = match &d.link {
        Some(list) => list.len() > 0,
        None => false,
    };
    d.def.is_some() || quotes || examples || links
}

/// The key under which a sense is grouped.
fn key_of(d: &MoedictDefinition) -> (key: String)
    ensures
        key@ == type_key(d.deep_view()),
{
    match &d.word_type {
        Some(t) => t.clone(),
        None => {
            proof {
                reveal_strlit("notype");
            }
            let key = String::from_str("notype");
            assert(key@ =~= no_type_key());
            key
        },
    }
}

/// Regroups a list of senses by word type, where the list can be grouped,
/// and returns `None` where it cannot.
///
/// One running index serves all word types. It starts again at each word
/// type that is new, and otherwise counts the senses; so the senses of one
/// word type are expected to stand together. A list is accepted as long as
/// no sense has to write its texts past the groups of its key.
pub fn try_definition_formatter(definitions: &[MoedictDefinition]) -> (result: Option<
    IndexMap<String, Vec<Vec<String>>>,
>)
    ensures
        result is Some <==> groupable(definitions.deep_view()),
        result matches Some(m) ==> grouped_entries(m) == grouping_of(
            definitions.deep_view(),
        ).entries,
{
    let mut result = new_groups();
    let mut count: usize = 0;
    let mut n: usize = 0;
    let ghost defs = definitions.deep_view();
    proof {
        assert(defs.take(0) =~= Seq::<DefinitionView>::empty());
    }
    while n < definitions.len()
        invariant
            n <= definitions.len(),
            defs == definitions.deep_view(),
            groupable(defs.take(n as int)),
            grouped_entries(result) == grouping_of(defs.take(n as int)).entries,
            count == grouping_of(defs.take(n as int)).count,
            distinct_keys(grouped_entries(result)),
            count <= n,
        decreases definitions.len() - n,
    {
        let d = &definitions[n];
        let ghost before = grouping_of(defs.take(n as int));
        proof {
            assert(defs.take(n + 1).drop_last() =~= defs.take(n as int));
            assert(defs.take(n + 1).last() == d.deep_view());
        }
        let key = key_of(d);
        if !has_group_key(&result, key.as_str()) {
            let mut first: Vec<String> = Vec::new();
            push_sense(&mut first, d);
            let mut groups: Vec<Vec<String>> = Vec::new();
            groups.push(first);
            proof {
                assert(first.deep_view() =~= sense_texts(d.deep_view()));
                assert(groups.deep_view() =~= seq![sense_texts(d.deep_view())]);
            }
            insert_groups(&mut result, key, groups);
            count = 0;
        } else {
            let ghost i = key_position(before.entries, key@);
            let groups = groups_mut(&mut result, key.as_str());
            proof {
                assert(groups.deep_view() == before.entries[i].1);
            }
            let texts = has_texts(d);
            if texts && count > groups.len() {
                proof {
                    assert(!fits(before, d.deep_view()));
                    if groupable(defs) {
                        lemma_groupable_prefix(defs, n + 1);
                    }
                }
                return None;
            }
            let ghost found = *groups;
            let fresh: Vec<String> = Vec::new();
            groups.push(fresh);
            proof {
                lemma_push_group(found, *groups, fresh);
                assert(fresh.deep_view() =~= Seq::<Seq<char>>::empty());
            }
            if texts {
                let ghost pushed = *groups;
                push_sense(&mut groups[count], d);
                proof {
                    lemma_update_group(pushed, *groups, count as int);
                }
            }
        }
        count += 1;
        n += 1;
    }
    assert(defs.take(n as int) =~= defs);
    Some(result)
}

/// Regroups a list of senses by word type: the map from each word type, in
/// the order of first occurrence, to the groups of texts of its senses.
pub fn definition_formatter(definitions: &[MoedictDefinition]) -> (result: IndexMap<
    String,
    Vec<Vec<String>>,
>)
    requires
        groupable(definitions.deep_view()),
    ensures
        grouped_entries(result) == grouping_of(definitions.deep_view()).entries,
{
    try_definition_formatter(definitions).unwrap()
}

proof fn lemma_push_group(before: Vec<Vec<String>>, after: Vec<Vec<String>>, group: Vec<String>)
    requires
        after@ == before@.push(group),
    ensures
        after.deep_view() == before.deep_view().push(group.deep_view()),
{
    assert(after.deep_view() =~= before.deep_view().push(group.deep_view()));
}

proof fn lemma_update_group(before: Vec<Vec<String>>, after: Vec<Vec<String>>, at: int)
    requires
        0 <= at < before@.len(),
        after@ == before@.update(at, after@[at]),
    ensures
        after.deep_view() == before.deep_view().update(at, after@[at].deep_view()),
{
    assert(after.deep_view() =~= before.deep_view().update(at, after@[at].deep_view()));
}

/// A list that can be grouped can be grouped up to any point.
pub proof fn lemma_groupable_prefix(defs: Seq<DefinitionView>, n: int)
    requires
        groupable(defs),
        0 <= n <= defs.len(),
    ensures
        groupable(defs.take(n)),
    decreases defs.len(),
{
    if n == defs.len() {
        assert(defs.take(n) =~= defs);
    } else {
        lemma_groupable_prefix(defs.drop_last(), n);
        assert(defs.drop_last().take(n) =~= defs.take(n));
    }
}

/// Whether the senses of each word type stand together in the list.
pub open spec fn contiguous(defs: Seq<DefinitionView>) -> bool {
    forall|i: int, j: int, k: int|
        #![trigger defs[i], defs[j], defs[k]]
        0 <= i < j < k < defs.len() && type_key(defs[i]) == type_key(defs[k]) ==> type_key(
            defs[j],
        ) == type_key(defs[k])
}

/// The groups of all entries in order, each with the key that it stands
/// under.
pub open spec fn tagged_groups(entries: Seq<(Seq<char>, Groups)>) -> Seq<
    (Seq<char>, Seq<Seq<char>>),
>
    decreases entries.len(),
{
    if entries.len() == 0 {
        Seq::empty()
    } else {
        tagged_groups(entries.drop_last()) + Seq::new(
            entries.last().1.len(),
            |j: int| (entries.last().0, entries.last().1[j]),
        )
    }
}

/// The senses in order, each as its key and its texts.
pub open spec fn tagged_senses(defs: Seq<DefinitionView>) -> Seq<(Seq<char>, Seq<Seq<char>>)> {
    Seq::new(defs.len(), |i: int| (type_key(defs[i]), sense_texts(defs[i])))
}

/// What holds of the grouping of a list in which the senses of each word
/// type stand together, as the list grows.
spec fn in_step(defs: Seq<DefinitionView>) -> bool {
    let g = grouping_of(defs);
    &&& groupable(defs)
    &&& distinct_keys(g.entries)
    &&& tagged_groups(g.entries) == tagged_senses(defs)
    &&& forall|i: int|
        0 <= i < g.entries.len() ==> exists|j: int|
            0 <= j < defs.len() && type_key(#[trigger] defs[j]) == (#[trigger] g.entries[i]).0
    &&& defs.len() > 0 ==> g.entries.len() > 0 && g.entries.last().0 == type_key(defs.last())
        && g.count == g.entries.last().1.len()
}

proof fn lemma_in_step(defs: Seq<DefinitionView>)
    requires
        contiguous(defs),
    ensures
        in_step(defs),
    decreases defs.len(),
{
    if defs.len() == 0 {
        assert(tagged_groups(grouping_of(defs).entries) =~= tagged_senses(defs));
    } else {
        let earlier = defs.drop_last();
        let d = defs.last();
        let key = type_key(d);
        assert(contiguous(earlier)) by {
            assert forall|i: int, j: int, k: int|
                #![trigger earlier[i], earlier[j], earlier[k]]
                0 <= i < j < k < earlier.len() && type_key(earlier[i]) == type_key(
                    earlier[k],
                ) implies type_key(earlier[j]) == type_key(earlier[k]) by {
                assert(earlier[i] == defs[i] && earlier[j] == defs[j] && earlier[k] == defs[k]);
            }
        }
        lemma_in_step(earlier);
        let g = grouping_of(earlier);
        let h = grouping_of(defs);
        assert(h == take_in(g, d));
        if has_key(g.entries, key) {
            let i = key_position(g.entries, key);
            let j = choose|j: int|
                0 <= j < earlier.len() && type_key(#[trigger] earlier[j]) == g.entries[i].0;
            let last = earlier.len() - 1;
            assert(type_key(earlier[last]) == key) by {
                if j < last {
                    assert(defs[j] == earlier[j] && defs[last] == earlier[last]);
                    assert(type_key(defs[j]) == type_key(defs[last + 1]));
                }
            }
            assert(i == g.entries.len() - 1);
            let groups = g.entries[i].1.push(Seq::empty());
            let filled = if sense_texts(d).len() == 0 {
                groups
            } else {
                groups.update(g.count as int, groups[g.count as int] + sense_texts(d))
            };
            assert(filled =~= g.entries[i].1.push(sense_texts(d)));
            assert(h.entries.drop_last() =~= g.entries.drop_last());
            assert(h.entries.last() == (key, filled));
            assert(tagged_groups(h.entries) =~= tagged_groups(g.entries).push(
                (key, sense_texts(d)),
            ));
            assert(tagged_senses(defs) =~= tagged_senses(earlier).push((key, sense_texts(d))));
            assert forall|a: int| 0 <= a < h.entries.len() implies exists|b: int|
                0 <= b < defs.len() && type_key(#[trigger] defs[b]) == (
                #[trigger] h.entries[a]).0 by {
                let b = choose|b: int|
                    0 <= b < earlier.len() && type_key(#[trigger] earlier[b]) == g.entries[a].0;
                assert(defs[b] == earlier[b]);
            }
        } else {
            assert(h.entries.drop_last() =~= g.entries);
            assert(tagged_groups(h.entries) =~= tagged_groups(g.entries).push(
                (key, sense_texts(d)),
            ));
            assert(tagged_senses(defs) =~= tagged_senses(earlier).push((key, sense_texts(d))));
            assert forall|a: int| 0 <= a < h.entries.len() implies exists|b: int|
                0 <= b < defs.len() && type_key(#[trigger] defs[b]) == (
                #[trigger] h.entries[a]).0 by {
                if a < g.entries.len() {
                    let b = choose|b: int|
                        0 <= b < earlier.len() && type_key(#[trigger] earlier[b])
                            == g.entries[a].0;
                    assert(defs[b] == earlier[b]);
                } else {
                    assert(type_key(defs[defs.len() - 1]) == h.entries[a].0);
                }
            }
        }
    }
}

/// Where the senses of each word type stand together, the list can be
/// grouped, no key occurs twice, and the groups, read in the order of the
/// map, are the senses in the order of the list, each under its own key: as
/// many groups as senses, with the same texts.
pub proof fn lemma_contiguous_grouping(defs: Seq<DefinitionView>)
    requires
        contiguous(defs),
    ensures
        groupable(defs),
        distinct_keys(grouping_of(defs).entries),
        tagged_groups(grouping_of(defs).entries) == tagged_senses(defs),
{
    lemma_in_step(defs);
}

/// A sense with the word type `key` whose texts are those of `group`.
pub open spec fn sense_of(key: Seq<char>, group: Seq<Seq<char>>) -> DefinitionView {
    DefinitionView { word_type: Some(key), quote: Some(group), example: None, def: None, link: None }
}

/// The groups of one entry, as senses again.
pub open spec fn senses_of_entry(entry: (Seq<char>, Groups)) -> Seq<DefinitionView> {
    Seq::new(entry.1.len(), |j: int| sense_of(entry.0, entry.1[j]))
}

/// A grouping, as a flat list of senses again: entry by entry, group by
/// group.
pub open spec fn ungrouped(entries: Seq<(Seq<char>, Groups)>) -> Seq<DefinitionView>
    decreases entries.len(),
{
    if entries.len() == 0 {
        Seq::empty()
    } else {
        ungrouped(entries.drop_last()) + senses_of_entry(entries.last())
    }
}

/// Whether `entries` has the shape of a grouping: no key twice, and at
/// least one group under each key.
pub open spec fn grouped_shape(entries: Seq<(Seq<char>, Groups)>) -> bool {
    &&& distinct_keys(entries)
    &&& forall|i: int| 0 <= i < entries.len() ==> (#[trigger] entries[i]).1.len() > 0
}

/// The grouping that comes of `g` when the senses of `defs` are taken in.
spec fn grouping_from(g: Grouping, defs: Seq<DefinitionView>) -> Grouping
    decreases defs.len(),
{
    if defs.len() == 0 {
        g
    } else {
        take_in(grouping_from(g, defs.drop_last()), defs.last())
    }
}

/// Whether each sense of `defs` fits when its turn comes, from `g` on.
spec fn fits_from(g: Grouping, defs: Seq<DefinitionView>) -> bool
    decreases defs.len(),
{
    defs.len() == 0 || (fits_from(g, defs.drop_last()) && fits(
        grouping_from(g, defs.drop_last()),
        defs.last(),
    ))
}

proof fn lemma_grouping_of_joined(a: Seq<DefinitionView>, b: Seq<DefinitionView>)
    ensures
        grouping_of(a + b) == grouping_from(grouping_of(a), b),
        groupable(a + b) == (groupable(a) && fits_from(grouping_of(a), b)),
    decreases b.len(),
{
    if b.len() == 0 {
        assert(a + b =~= a);
    } else {
        lemma_grouping_of_joined(a, b.drop_last());
        assert((a + b).drop_last() =~= a + b.drop_last());
        assert((a + b).last() == b.last());
    }
}

proof fn lemma_grouping_from_entry(g: Grouping, key: Seq<char>, groups: Groups, m: int)
    requires
        !has_key(g.entries, key),
        1 <= m <= groups.len(),
    ensures
        grouping_from(g, senses_of_entry((key, groups)).take(m)) == (Grouping {
            entries: g.entries.push((key, groups.take(m))),
            count: m as nat,
        }),
        fits_from(g, senses_of_entry((key, groups)).take(m)),
    decreases m,
{
    let senses = senses_of_entry((key, groups));
    let d = senses[m - 1];
    assert(senses.take(m).drop_last() =~= senses.take(m - 1));
    assert(senses.take(m).last() == d);
    assert(sense_texts(d) =~= groups[m - 1]);
    assert(type_key(d) == key);
    if m == 1 {
        assert(senses.take(0) =~= Seq::<DefinitionView>::empty());
        assert(grouping_from(g, senses.take(0)) == g);
        assert(fits_from(g, senses.take(0)));
        assert(fits(g, d));
        assert(seq![sense_texts(d)] =~= groups.take(1));
    } else {
        lemma_grouping_from_entry(g, key, groups, m - 1);
        let before = grouping_from(g, senses.take(m - 1));
        let last = g.entries.len() as int;
        assert(before.entries[last].0 == key);
        assert(has_key(before.entries, key));
        let i = key_position(before.entries, key);
        assert(i == last) by {
            if i < last {
                assert(g.entries[i].0 == key);
            }
        }
        let with_new = before.entries[i].1.push(Seq::empty());
        let filled = if sense_texts(d).len() == 0 {
            with_new
        } else {
            with_new.update(before.count as int, with_new[before.count as int] + sense_texts(d))
        };
        assert(filled =~= groups.take(m));
        assert(before.entries.update(i, (key, filled)) =~= g.entries.push((key, groups.take(m))));
        assert(fits(before, d));
    }
}

/// Grouping is the identity on its own output: a grouping, written out as a
/// flat list of senses and grouped again, is the same grouping, and every
/// such list can be grouped.
pub proof fn lemma_regrouping_is_identity(entries: Seq<(Seq<char>, Groups)>)
    requires
        grouped_shape(entries),
    ensures
        groupable(ungrouped(entries)),
        grouping_of(ungrouped(entries)).entries == entries,
    decreases entries.len(),
{
    if entries.len() > 0 {
        let earlier = entries.drop_last();
        let entry = entries.last();
        assert(grouped_shape(earlier)) by {
            assert forall|i: int, j: int| 0 <= i < j < earlier.len() implies (
            #[trigger] earlier[i]).0 != (#[trigger] earlier[j]).0 by {
                assert(earlier[i] == entries[i] && earlier[j] == entries[j]);
            }
            assert forall|i: int| 0 <= i < earlier.len() implies (#[trigger] earlier[i]).1.len()
                > 0 by {
                assert(earlier[i] == entries[i]);
            }
        }
        lemma_regrouping_is_identity(earlier);
        let g = grouping_of(ungrouped(earlier));
        assert(!has_key(g.entries, entry.0)) by {
            if has_key(earlier, entry.0) {
                let i = choose|i: int| 0 <= i < earlier.len() && (#[trigger] earlier[i]).0 == entry.0;
                assert(entries[i] == earlier[i]);
                assert(entries[entries.len() - 1] == entry);
            }
        }
        let senses = senses_of_entry(entry);
        lemma_grouping_of_joined(ungrouped(earlier), senses);
        lemma_grouping_from_entry(g, entry.0, entry.1, entry.1.len() as int);
        assert(senses.take(entry.1.len() as int) =~= senses);
        assert(entry.1.take(entry.1.len() as int) =~= entry.1);
        assert(earlier.push((entry.0, entry.1)) =~= entries);
    }
}

/// The grouping of a list that can be grouped has the shape of a grouping:
/// no key occurs twice, and every key has at least one group.
pub proof fn lemma_grouping_has_shape(defs: Seq<DefinitionView>)
    requires
        groupable(defs),
    ensures
        grouped_shape(grouping_of(defs).entries),
    decreases defs.len(),
{
    if defs.len() > 0 {
        lemma_grouping_has_shape(defs.drop_last());
        let g = grouping_of(defs.drop_last());
        let h = grouping_of(defs);
        let key = type_key(defs.last());
        assert(fits(g, defs.last()));
        if has_key(g.entries, key) {
            let i = key_position(g.entries, key);
            assert forall|a: int, b: int| 0 <= a < b < h.entries.len() implies (
            #[trigger] h.entries[a]).0 != (#[trigger] h.entries[b]).0 by {
                assert(h.entries[a].0 == g.entries[a].0);
                assert(h.entries[b].0 == g.entries[b].0);
            }
            assert forall|a: int| 0 <= a < h.entries.len() implies (#[trigger] h.entries[a]).1.len()
                > 0 by {
                if a != i {
                    assert(h.entries[a] == g.entries[a]);
                } else {
                    let groups = g.entries[i].1.push(Seq::empty());
                    let filled = if sense_texts(defs.last()).len() == 0 {
                        groups
                    } else {
                        groups.update(
                            g.count as int,
                            groups[g.count as int] + sense_texts(defs.last()),
                        )
                    };
                    assert(h.entries[i] == (key, filled));
                    assert(filled.len() == groups.len());
                }
            }
        } else {
            assert forall|a: int, b: int| 0 <= a < b < h.entries.len() implies (
            #[trigger] h.entries[a]).0 != (#[trigger] h.entries[b]).0 by {
                assert(h.entries[a] == g.entries[a]);
                if b < g.entries.len() {
                    assert(h.entries[b] == g.entries[b]);
                }
            }
            assert forall|a: int| 0 <= a < h.entries.len() implies (#[trigger] h.entries[a]).1.len()
                > 0 by {
                if a < g.entries.len() {
                    assert(h.entries[a] == g.entries[a]);
                }
            }
        }
    }
}

/// Grouping is idempotent: what comes of grouping a list of senses, written
/// out as a flat list and grouped again, is what came of it the first time.
pub proof fn lemma_grouping_is_idempotent(defs: Seq<DefinitionView>)
    requires
        groupable(defs),
    ensures
        groupable(ungrouped(grouping_of(defs).entries)),
        grouping_of(ungrouped(grouping_of(defs).entries)).entries == grouping_of(defs).entries,
{
    lemma_grouping_has_shape(defs);
    lemma_regrouping_is_identity(grouping_of(defs).entries);
}

} // verus!
