//! The table of Cantonese readings: from a character or a word to the ways
//! it is read.

use vstd::prelude::*;
use vstd::string::*;
use crate::text::{push_text, same_text};

verus! {

/// The readings that a list of entries gives to each text. Where a text
/// occurs more than once, the last entry counts.
pub open spec fn table_of(entries: Seq<(Seq<char>, Seq<Seq<char>>)>) -> Map<
    Seq<char>,
    Seq<Seq<char>>,
>
    decreases entries.len(),
{
    if entries.len() == 0 {
        Map::empty()
    } else {
        table_of(entries.drop_last()).insert(entries.last().0, entries.last().1)
    }
}

/// Reading one list of entries after another gives the readings of the
/// first, replaced and extended by those of the second.
pub proof fn lemma_table_of_joined(
    first: Seq<(Seq<char>, Seq<Seq<char>>)>,
    second: Seq<(Seq<char>, Seq<Seq<char>>)>,
)
    ensures
        table_of(first + second) == table_of(first).union_prefer_right(table_of(second)),
    decreases second.len(),
{
    if second.len() == 0 {
        assert(first + second =~= first);
        assert(table_of(first).union_prefer_right(table_of(second)) =~= table_of(first));
    } else {
        lemma_table_of_joined(first, second.drop_last());
        assert((first + second).drop_last() =~= first + second.drop_last());
        assert((first + second).last() == second.last());
        assert(table_of(first + second) =~= table_of(first).union_prefer_right(table_of(second)));
    }
}

/// What the per-character source says of one character, reduced to the
/// readings: the source also counts how often each reading occurs.
pub open spec fn readings_only(counted: Seq<(Seq<char>, usize)>) -> Seq<Seq<char>> {
    Seq::new(counted.len(), |i: int| counted[i].0)
}

/// The per-character source, reduced to the readings.
pub open spec fn readings_of(charlist: Seq<(Seq<char>, Seq<(Seq<char>, usize)>)>) -> Seq<
    (Seq<char>, Seq<Seq<char>>),
> {
    Seq::new(charlist.len(), |i: int| (charlist[i].0, readings_only(charlist[i].1)))
}

/// The table of readings, as the list of its entries. A later entry for a
/// text replaces an earlier one.
#[derive(Clone, Debug, PartialEq, Eq)]
pub struct JyutpingTable {
    pub entries: Vec<(String, Vec<String>)>,
}

impl View for JyutpingTable {
    type V = Map<Seq<char>, Seq<Seq<char>>>;

    open spec fn view(&self) -> Map<Seq<char>, Seq<Seq<char>>> {
        table_of(self.entries.deep_view())
    }
}

impl JyutpingTable {
    /// The readings of `word`, if the table has it.
    pub fn get(&self, word: &str) -> (r: Option<&Vec<String>>)
        ensures
            r is Some <==> self@.dom().contains(word@),
            r matches Some(readings) ==> readings.deep_view() == self@[word@],
    {
        let ghost all = self.entries.deep_view();
        let mut i: usize = self.entries.len();
        assert(all.take(i as int) =~= all);
        while i > 0
            invariant
                i <= self.entries.len(),
                all == self.entries.deep_view(),
                table_of(all).dom().contains(word@) == table_of(all.take(i as int)).dom().contains(
                    word@,
                ),
                table_of(all).dom().contains(word@) ==> table_of(all)[word@] == table_of(
                    all.take(i as int),
                )[word@],
            decreases i,
        {
            i -= 1;
            let entry = &self.entries[i];
            proof {
                assert(all.take(i + 1).drop_last() =~= all.take(i as int));
                assert(all.take(i + 1).last() == (entry.0@, entry.1.deep_view()));
            }
            if same_text(entry.0.as_str(), word) {
                return Some(&entry.1);
            }
        }
        None
    }
}

/// Appends one entry to a list of entries.
fn push_entry(entries: &mut Vec<(String, Vec<String>)>, word: String, readings: Vec<String>)
    ensures
        final(entries).deep_view() == old(entries).deep_view().push((word@, readings.deep_view())),
{
    entries.push((word, readings));
    assert(entries.deep_view() =~= old(entries).deep_view().push((word@, readings.deep_view())));
}

/// Merges the two sources of readings into one table: the per-character
/// source, reduced to its readings, then the per-word source, whose entries
/// replace those of the first for the same text.
pub fn create_jyutping_cache(
    response_charlist: Vec<(String, Vec<(String, usize)>)>,
    response_wordlist: Vec<(String, Vec<String>)>,
) -> (table: JyutpingTable)
    ensures
        table.entries.deep_view() == readings_of(response_charlist.deep_view())
            + response_wordlist.deep_view(),
        table@ == table_of(readings_of(response_charlist.deep_view())).union_prefer_right(
            table_of(response_wordlist.deep_view()),
        ),
{
    let mut entries: Vec<(String, Vec<String>)> = Vec::new();
    let ghost chars = response_charlist.deep_view();
    let ghost words = response_wordlist.deep_view();
    assert(entries.deep_view() =~= readings_of(chars).take(0));
    for item in it: response_charlist
        invariant
            it.seq() == response_charlist@,
            chars == response_charlist.deep_view(),
            entries.deep_view() == readings_of(chars).take(it.index() as int),
    {
        let ghost at = it.index() as int;
        let (word, counted) = item;
        let ghost counts = counted.deep_view();
        let mut readings: Vec<String> = Vec::new();
        assert(readings.deep_view() =~= readings_only(counts).take(0));
        for pair in inner: counted
            invariant
                inner.seq() == counted@,
                counts == counted.deep_view(),
                readings.deep_view() == readings_only(counts).take(inner.index() as int),
        {
            let ghost k = inner.index() as int;
            let (reading, _count) = pair;
            push_text(&mut readings, reading);
            assert(readings.deep_view() =~= readings_only(counts).take(k + 1));
        }
        assert(readings_only(counts).take(counts.len() as int) =~= readings_only(counts));
        proof {
            assert(chars[at] == response_charlist@[at].deep_view());
            assert(readings_of(chars).take(at + 1) =~= readings_of(chars).take(at).push(
                (word@, readings.deep_view()),
            ));
        }
        push_entry(&mut entries, word, readings);
    }
    assert(readings_of(chars).take(chars.len() as int) =~= readings_of(chars));
    assert(entries.deep_view() =~= readings_of(chars) + words.take(0));
    for item in it: response_wordlist
        invariant
            it.seq() == response_wordlist@,
            words == response_wordlist.deep_view(),
            entries.deep_view() == readings_of(chars) + words.take(it.index() as int),
    {
        let ghost at = it.index() as int;
        proof {
            assert(words[at] == response_wordlist@[at].deep_view());
            assert(readings_of(chars) + words.take(at + 1) =~= (readings_of(chars) + words.take(
                at,
            )).push((item.0@, item.1.deep_view())));
        }
        push_entry(&mut entries, item.0, item.1);
    }
    assert(words.take(words.len() as int) =~= words);
    proof {
        lemma_table_of_joined(readings_of(chars), words);
    }
    JyutpingTable { entries }
}

} // verus!
