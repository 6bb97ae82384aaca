//! Resolving a list of terms: what is asked of the services, how their
//! answers are read, and how the answers for the terms are put together.
//!
//! The requests themselves are made elsewhere. Each term is looked up on its
//! own; the lookups may finish in any order, and the answers are always
//! handed on in the order of the terms.

use vstd::prelude::*;
use vstd::string::*;
use crate::entry::{
    EntryView, JsonResultView, JyutPingView, MeowdictJsonResult, MeowdictJyutPingResult, MoedictRawResult,
    WantWordsResult,
};
use crate::error::{Dataset, ErrorView, MeowdictError};
use crate::table::JyutpingTable;
use crate::text::{copy_texts, prefixed, push_char};

verus! {

/// Whether the dictionary service uses `c` as inline markup.
pub open spec fn is_marker(c: char) -> bool {
    c == '`' || c == '~'
}

/// `s` without the characters that are markup.
pub open spec fn unmarked(s: Seq<char>) -> Seq<char>
    decreases s.len(),
{
    if s.len() == 0 {
        s
    } else if is_marker(s.last()) {
        unmarked(s.drop_last())
    } else {
        unmarked(s.drop_last()).push(s.last())
    }
}

/// Removes every backtick and every tilde from the body of an answer.
pub fn strip_markers(body: &str) -> (r: String)
    ensures
        r@ == unmarked(body@),
{
    let mut out = String::new();
    assert(body@.take(0) =~= Seq::<char>::empty());
    for c in it: body.chars()
        invariant
            it.seq() == body@,
            out@ == unmarked(body@.take(it.index() as int)),
    {
        proof {
            let i = it.index() as int;
            assert(body@.take(i + 1).drop_last() =~= body@.take(i));
            assert(body@.take(i + 1).last() == c);
        }
        if !(c == '`' || c == '~') {
            push_char(&mut out, c);
        }
    }
    assert(body@.take(body@.len() as int) =~= body@);
    out
}

/// The address of the dictionary record of `keyword`.
pub fn moedict_url(keyword: &str) -> (r: String)
    ensures
        r@ == "https://www.moedict.tw/a/"@ + keyword@ + ".json"@,
{
    let mut r = prefixed("https://www.moedict.tw/a/", keyword);
    r.append(".json");
    r
}

/// The address that asks the reverse lookup for words that fit the
/// description `keyword`.
pub fn wantwords_url(keyword: &str) -> (r: String)
    ensures
        r@ == "https://wantwords.thunlp.org/ChineseRD/?description="@ + keyword@ + "&mode=CC"@,
{
    let mut r = prefixed("https://wantwords.thunlp.org/ChineseRD/?description=", keyword);
    r.append("&mode=CC");
    r
}

/// Reads the answer of the dictionary service to the lookup of `keyword`.
/// Status 200 gives the body, freed of markup, to be parsed as a record;
/// status 404 means that the service does not know the term; any other
/// status is a failure of the service.
pub fn moedict_payload(status: u16, keyword: &str, body: &str) -> (r: Result<
    String,
    MeowdictError,
>)
    ensures
        status == 200 ==> (r matches Ok(payload) && payload@ == unmarked(body@)),
        status == 404 ==> (r matches Err(e) && e.deep_view() == ErrorView::NotFound(
            Dataset::Dictionary,
            keyword@,
        )),
        status != 200 && status != 404 ==> (r matches Err(e) && e.deep_view()
            == ErrorView::ServiceError(status)),
{
    if status == 200 {
        Ok(strip_markers(body))
    } else if status == 404 {
        Err(MeowdictError::NotFound(Dataset::Dictionary, String::from_str(keyword)))
    } else {
        Err(MeowdictError::ServiceError(status))
    }
}

/// The outcome of parsing a payload: the record, or the failure that an
/// unreadable payload is.
pub fn moedict_entry(parsed: Option<MoedictRawResult>) -> (r: Result<
    MoedictRawResult,
    MeowdictError,
>)
    ensures
        parsed matches Some(entry) ==> r == Ok::<MoedictRawResult, MeowdictError>(entry),
        parsed is None ==> (r matches Err(e) && e.deep_view() == ErrorView::MalformedResponse),
{
    match parsed {
        Some(entry) => Ok(entry),
        None => Err(MeowdictError::MalformedResponse),
    }
}

/// Whether `i` is the position of the first failure among `outcomes`.
pub open spec fn first_failure<T>(outcomes: Seq<Result<T, MeowdictError>>, i: int) -> bool {
    &&& 0 <= i < outcomes.len()
    &&& outcomes[i] is Err
    &&& forall|j: int| 0 <= j < i ==> (#[trigger] outcomes[j]) is Ok
}

/// All answers, in their order, if every lookup succeeded; else the failure
/// of the first term that failed.
pub fn all_or_first_error<T>(outcomes: Vec<Result<T, MeowdictError>>) -> (r: Result<
    Vec<T>,
    MeowdictError,
>)
    ensures
        r is Ok <==> forall|i: int| 0 <= i < outcomes.len() ==> (#[trigger] outcomes[i]) is Ok,
        r matches Ok(answers) ==> answers.len() == outcomes.len() && forall|i: int|
            0 <= i < answers.len() ==> outcomes[i] == Ok::<T, MeowdictError>(#[trigger] answers[i]),
        r matches Err(e) ==> exists|i: int|
            first_failure(outcomes@, i) && #[trigger] outcomes[i] == Err::<T, MeowdictError>(e),
{
    let mut answers: Vec<T> = Vec::new();
    for outcome in it: outcomes
        invariant
            it.seq() == outcomes@,
            answers.len() == it.index(),
            forall|i: int|
                0 <= i < answers.len() ==> outcomes[i] == Ok::<T, MeowdictError>(
                    #[trigger] answers[i],
                ),
    {
        let ghost at = it.index() as int;
        match outcome {
            Ok(answer) => {
                answers.push(answer);
            },
            Err(e) => {
                proof {
                    assert forall|j: int| 0 <= j < at implies (#[trigger] outcomes[j]) is Ok by {
                        assert(outcomes[j] == Ok::<T, MeowdictError>(answers[j]));
                    }
                    assert(first_failure(outcomes@, at));
                    assert(outcomes[at] == Err::<T, MeowdictError>(e));
                }
                return Err(e);
            },
        }
    }
    proof {
        assert forall|i: int| 0 <= i < outcomes.len() implies (#[trigger] outcomes[i]) is Ok by {
            assert(outcomes[i] == Ok::<T, MeowdictError>(answers[i]));
        }
    }
    Ok(answers)
}

/// The dictionary records of a list of terms, given what the lookup of each
/// term came to, in the order of the terms: all records, or the failure of
/// the first term that failed.
pub fn get_dict_result(lookups: Vec<Result<MoedictRawResult, MeowdictError>>) -> (r: Result<
    Vec<MoedictRawResult>,
    MeowdictError,
>)
    ensures
        r is Ok <==> forall|i: int| 0 <= i < lookups.len() ==> (#[trigger] lookups[i]) is Ok,
        r matches Ok(answers) ==> answers.len() == lookups.len() && forall|i: int|
            0 <= i < answers.len() ==> lookups[i] == Ok::<MoedictRawResult, MeowdictError>(
                #[trigger] answers[i],
            ),
        r matches Err(e) ==> exists|i: int|
            first_failure(lookups@, i) && #[trigger] lookups[i] == Err::<
                MoedictRawResult,
                MeowdictError,
            >(e),
{
    all_or_first_error(lookups)
}

/// The answers of the reverse lookup for a list of descriptions, given what
/// the lookup of each came to, in the order of the descriptions: all
/// answers, or the failure of the first description that failed.
pub fn get_wantwords(lookups: Vec<Result<Vec<WantWordsResult>, MeowdictError>>) -> (r: Result<
    Vec<Vec<WantWordsResult>>,
    MeowdictError,
>)
    ensures
        r is Ok <==> forall|i: int| 0 <= i < lookups.len() ==> (#[trigger] lookups[i]) is Ok,
        r matches Ok(answers) ==> answers.len() == lookups.len() && forall|i: int|
            0 <= i < answers.len() ==> lookups[i] == Ok::<Vec<WantWordsResult>, MeowdictError>(
                #[trigger] answers[i],
            ),
        r matches Err(e) ==> exists|i: int|
            first_failure(lookups@, i) && #[trigger] lookups[i] == Err::<
                Vec<WantWordsResult>,
                MeowdictError,
            >(e),
{
    all_or_first_error(lookups)
}

/// The answers of the lookups of a list of terms while the lookups are under
/// way: one slot for each term, in the order of the terms, empty until the
/// lookup of that term has settled.
#[derive(Debug)]
pub struct ResolvedBatch<T> {
    pub slots: Vec<Option<T>>,
}

impl<T> View for ResolvedBatch<T> {
    type V = Seq<Option<T>>;

    open spec fn view(&self) -> Seq<Option<T>> {
        self.slots@
    }
}

/// The slots of a batch of `terms` terms before any lookup has settled.
pub open spec fn unsettled<T>(terms: nat) -> Seq<Option<T>> {
    Seq::new(terms, |i: int| None::<T>)
}

/// Whether every slot holds an answer.
pub open spec fn all_settled<T>(slots: Seq<Option<T>>) -> bool {
    forall|i: int| 0 <= i < slots.len() ==> (#[trigger] slots[i]) is Some
}

/// The slots after the lookups named in `order` have settled one after the
/// other, the lookup of term `i` with the answer `outcomes[i]`.
pub open spec fn settled_in<T>(slots: Seq<Option<T>>, order: Seq<int>, outcomes: Seq<T>) -> Seq<
    Option<T>,
>
    decreases order.len(),
{
    if order.len() == 0 {
        slots
    } else {
        settled_in(slots, order.drop_last(), outcomes).update(
            order.last(),
            Some(outcomes[order.last()]),
        )
    }
}

impl<T> ResolvedBatch<T> {
    /// A batch for `terms` terms, none of them settled.
    pub fn new(terms: usize) -> (r: Self)
        ensures
            r@ == unsettled::<T>(terms as nat),
    {
        let mut slots: Vec<Option<T>> = Vec::new();
        let mut i: usize = 0;
        while i < terms
            invariant
                i <= terms,
                slots@ == Seq::new(i as nat, |k: int| None::<T>),
            decreases terms - i,
        {
            slots.push(None);
            i += 1;
            assert(slots@ =~= Seq::new(i as nat, |k: int| None::<T>));
        }
        ResolvedBatch { slots }
    }

    /// Records the answer for the term at `index`. Returns `false`, and
    /// changes nothing, where the batch has no such term.
    pub fn settle(&mut self, index: usize, outcome: T) -> (ok: bool)
        ensures
            ok == (index < old(self)@.len()),
            ok ==> final(self)@ == old(self)@.update(index as int, Some(outcome)),
            !ok ==> final(self)@ == old(self)@,
    {
        if index < self.slots.len() {
            self.slots[index] = Some(outcome);
            true
        } else {
            false
        }
    }

    /// Whether every term has its answer.
    pub fn is_settled(&self) -> (b: bool)
        ensures
            b == all_settled(self@),
    {
        let mut i: usize = 0;
        while i < self.slots.len()
            invariant
                i <= self.slots.len(),
                forall|k: int| 0 <= k < i ==> (#[trigger] self.slots@[k]) is Some,
            decreases self.slots.len() - i,
        {
            if self.slots[i].is_none() {
                return false;
            }
            i += 1;
        }
        true
    }

    /// The answers in the order of the terms, once every term has its
    /// answer; `None` before that.
    pub fn into_results(self) -> (r: Option<Vec<T>>)
        ensures
            r is Some <==> all_settled(self@),
            r matches Some(answers) ==> answers.len() == self@.len() && forall|i: int|
                0 <= i < answers.len() ==> self@[i] == Some(#[trigger] answers[i]),
    {
        let mut answers: Vec<T> = Vec::new();
        let ghost slots = self.slots@;
        for slot in it: self.slots
            invariant
                it.seq() == slots,
                answers.len() == it.index(),
                forall|i: int| 0 <= i < answers.len() ==> slots[i] == Some(#[trigger] answers[i]),
        {
            match slot {
                Some(answer) => {
                    answers.push(answer);
                },
                None => {
                    assert(slots[it.index() as int] is None);
                    return None;
                },
            }
        }
        proof {
            assert forall|i: int| 0 <= i < slots.len() implies (#[trigger] slots[i]) is Some by {
                assert(slots[i] == Some(answers[i]));
            }
        }
        Some(answers)
    }
}

proof fn lemma_settled_in<T>(terms: nat, order: Seq<int>, outcomes: Seq<T>)
    requires
        outcomes.len() == terms,
        forall|k: int| 0 <= k < order.len() ==> 0 <= #[trigger] order[k] < terms,
    ensures
        settled_in(unsettled::<T>(terms), order, outcomes).len() == terms,
        forall|i: int|
            0 <= i < terms ==> #[trigger] settled_in(unsettled::<T>(terms), order, outcomes)[i]
                == if order.contains(i) {
                Some(outcomes[i])
            } else {
                None::<T>
            },
    decreases order.len(),
{
    let start = unsettled::<T>(terms);
    if order.len() == 0 {
    } else {
        let earlier = order.drop_last();
        lemma_settled_in(terms, earlier, outcomes);
        let before = settled_in(start, earlier, outcomes);
        let after = settled_in(start, order, outcomes);
        assert(after == before.update(order.last(), Some(outcomes[order.last()])));
        assert forall|i: int| 0 <= i < terms implies #[trigger] after[i] == if order.contains(i) {
            Some(outcomes[i])
        } else {
            None::<T>
        } by {
            if i == order.last() {
                assert(order[order.len() - 1] == i);
            } else if earlier.contains(i) {
                let k = choose|k: int| 0 <= k < earlier.len() && earlier[k] == i;
                assert(order[k] == i);
            } else {
                if order.contains(i) {
                    let k = choose|k: int| 0 <= k < order.len() && order[k] == i;
                    assert(earlier[k] == i);
                }
            }
        }
    }
}

/// The order in which the lookups settle does not show in the batch: once
/// the lookup of every term has settled, the slots hold the answers in the
/// order of the terms, whatever the order of settling was, and whether or
/// not a lookup settled more than once.
pub proof fn lemma_batch_keeps_term_order<T>(outcomes: Seq<T>, order: Seq<int>)
    requires
        forall|k: int| 0 <= k < order.len() ==> 0 <= #[trigger] order[k] < outcomes.len(),
        forall|i: int| 0 <= i < outcomes.len() ==> order.contains(i),
    ensures
        settled_in(unsettled::<T>(outcomes.len()), order, outcomes) == Seq::new(
            outcomes.len(),
            |i: int| Some(outcomes[i]),
        ),
{
    lemma_settled_in(outcomes.len(), order, outcomes);
    assert(settled_in(unsettled::<T>(outcomes.len()), order, outcomes) =~= Seq::new(
        outcomes.len(),
        |i: int| Some(outcomes[i]),
    ));
}

/// What the table of readings has for a term: its readings, or the failure
/// that the term is not in the table.
pub open spec fn reading_of(table: Map<Seq<char>, Seq<Seq<char>>>, word: Seq<char>) -> Result<
    JyutPingView,
    ErrorView,
> {
    if table.dom().contains(word) {
        Ok(JyutPingView { word, jyutping: table[word] })
    } else {
        Err(ErrorView::NotFound(Dataset::Romanization, word))
    }
}

/// What came of a lookup of readings, as plain text.
pub open spec fn outcome_view(outcome: Result<MeowdictJyutPingResult, MeowdictError>) -> Result<
    JyutPingView,
    ErrorView,
> {
    match outcome {
        Ok(found) => Ok(found.deep_view()),
        Err(e) => Err(e.deep_view()),
    }
}

/// The readings of a list of terms. Every term gets its own outcome, in the
/// order of the terms: a term that the table lacks fails alone, and the
/// other terms keep their readings.
pub fn get_jyutping_result(table: &JyutpingTable, words: &[String]) -> (r: Vec<
    Result<MeowdictJyutPingResult, MeowdictError>,
>)
    ensures
        r.len() == words.len(),
        forall|i: int|
            0 <= i < r.len() ==> outcome_view(#[trigger] r[i]) == reading_of(table@, words[i]@),
{
    let mut result: Vec<Result<MeowdictJyutPingResult, MeowdictError>> = Vec::new();
    let mut i: usize = 0;
    while i < words.len()
        invariant
            i <= words.len(),
            result.len() == i,
            forall|k: int|
                0 <= k < i ==> outcome_view(#[trigger] result[k]) == reading_of(
                    table@,
                    words[k]@,
                ),
        decreases words.len() - i,
    {
        let word = &words[i];
        match table.get(word.as_str()) {
            Some(readings) => {
                result.push(
                    Ok(MeowdictJyutPingResult { word: word.clone(), jyutping: copy_texts(readings) }),
                );
            },
            None => {
                result.push(Err(MeowdictError::NotFound(Dataset::Romanization, word.clone())));
            },
        }
        i += 1;
    }
    result
}

/// The readings of a list of terms as an export takes them: all of them, in
/// the order of the terms, where the table has every term, and none where it
/// lacks one.
pub fn jyutping_for_export(table: &JyutpingTable, words: &[String]) -> (r: Option<
    Vec<MeowdictJyutPingResult>,
>)
    ensures
        r is Some <==> forall|i: int|
            0 <= i < words.len() ==> table@.dom().contains(#[trigger] words[i]@),
        r matches Some(found) ==> found.len() == words.len() && forall|i: int|
            0 <= i < found.len() ==> (#[trigger] found[i]).deep_view() == (JyutPingView {
                word: words[i]@,
                jyutping: table@[words[i]@],
            }),
{
    let outcomes = get_jyutping_result(table, words);
    let ghost each = outcomes@;
    let r = all_or_first_error(outcomes);
    proof {
        assert forall|i: int| 0 <= i < words.len() implies (table@.dom().contains(
            #[trigger] words[i]@,
        ) <==> each[i] is Ok) by {
            assert(outcome_view(each[i]) == reading_of(table@, words[i]@));
        }
        match &r {
            Ok(found) => {
                assert forall|i: int| 0 <= i < found.len() implies (#[trigger] found[i]).deep_view()
                    == (JyutPingView { word: words[i]@, jyutping: table@[words[i]@] }) by {
                    assert(each[i] == Ok::<MeowdictJyutPingResult, MeowdictError>(found[i]));
                    assert(outcome_view(each[i]) == reading_of(table@, words[i]@));
                }
            },
            Err(e) => {
                let i = choose|i: int|
                    first_failure(each, i) && #[trigger] each[i] == Err::<
                        MeowdictJyutPingResult,
                        MeowdictError,
                    >(*e);
                assert(outcome_view(each[i]) == reading_of(table@, words[i]@));
                assert(!table@.dom().contains(words[i]@));
            },
        }
    }
    match r {
        Ok(found) => Some(found),
        Err(_) => None,
    }
}

/// How many records an export has: one for each term for which both the
/// dictionary and the readings are at hand; where one of the two is missing
/// as a whole, one for each answer of the other; where both are missing, one
/// for each term.
pub open spec fn json_count(
    words: Seq<Seq<char>>,
    raws: Option<Seq<EntryView>>,
    readings: Option<Seq<JyutPingView>>,
) -> nat {
    match (raws, readings) {
        (Some(m), Some(j)) => if m.len() <= j.len() {
            m.len()
        } else {
            j.len()
        },
        (Some(m), None) => m.len(),
        (None, Some(j)) => j.len(),
        (None, None) => words.len(),
    }
}

/// The record of the term at position `i` of an export.
pub open spec fn json_record(
    words: Seq<Seq<char>>,
    raws: Option<Seq<EntryView>>,
    readings: Option<Seq<JyutPingView>>,
    i: int,
) -> JsonResultView {
    JsonResultView {
        name: words[i],
        moedict_raw_result: match raws {
            Some(m) => Some(m[i]),
            None => None,
        },
        jyutping: match readings {
            Some(j) => Some(j[i].jyutping),
            None => None,
        },
    }
}

/// The records of an export of a list of terms.
pub open spec fn json_records(
    words: Seq<Seq<char>>,
    raws: Option<Seq<EntryView>>,
    readings: Option<Seq<JyutPingView>>,
) -> Seq<JsonResultView> {
    Seq::new(json_count(words, raws, readings), |i: int| json_record(words, raws, readings, i))
}

/// Tells whether `set_json_result` can put the export together: whether
/// there is a term for every record.
pub fn can_set_json_result(
    words: &[String],
    moedict_raw_results: &Option<Vec<MoedictRawResult>>,
    jyutping: &Option<Vec<MeowdictJyutPingResult>>,
) -> (b: bool)
    ensures
        b == (json_count(words.deep_view(), moedict_raw_results.deep_view(), jyutping.deep_view())
            <= words.len()),
{
    let count: usize = match (moedict_raw_results, jyutping) {
        (Some(m), Some(j)) => if m.len() <= j.len() {
            m.len()
        } else {
            j.len()
        },
        (Some(m), None) => m.len(),
        (None, Some(j)) => j.len(),
        (None, None) => words.len(),
    };
    count <= words.len()
}

/// Appends one record to an export.
fn push_record(
    result: &mut Vec<MeowdictJsonResult>,
    name: String,
    raw: Option<MoedictRawResult>,
    jyutping: Option<Vec<String>>,
)
    ensures
        final(result).deep_view() == old(result).deep_view().push(
            JsonResultView {
                name: name@,
                moedict_raw_result: raw.deep_view(),
                jyutping: jyutping.deep_view(),
            },
        ),
{
    let record = MeowdictJsonResult { name, moedict_raw_result: raw, jyutping };
    result.push(record);
    assert(result.deep_view() =~= old(result).deep_view().push(record.deep_view()));
}

/// Puts together the export of a list of terms from what could be had of
/// them: the dictionary records, if all lookups succeeded, and the readings,
/// if the table has all terms (see `jyutping_for_export`). Either may be missing as a whole; the record
/// of a term then lacks that part and keeps the other.
pub fn set_json_result(
    words: &[String],
    moedict_raw_results: Option<Vec<MoedictRawResult>>,
    jyutping: Option<Vec<MeowdictJyutPingResult>>,
) -> (result: Vec<MeowdictJsonResult>)
    requires
        json_count(words.deep_view(), moedict_raw_results.deep_view(), jyutping.deep_view())
            <= words.len(),
    ensures
        result.deep_view() == json_records(
            words.deep_view(),
            moedict_raw_results.deep_view(),
            jyutping.deep_view(),
        ),
{
    let mut result: Vec<MeowdictJsonResult> = Vec::new();
    let ghost names = words.deep_view();
    let ghost raws = moedict_raw_results.deep_view();
    let ghost readings = jyutping.deep_view();
    let ghost count = json_count(names, raws, readings);
    match moedict_raw_results {
        Some(found) => {
            let mut index: usize = 0;
            assert(result.deep_view() =~= json_records(names, raws, readings).take(0));
            for raw in it: found
                invariant
                    it.seq() == found@,
                    names == words.deep_view(),
                    raws == Some(found.deep_view()),
                    readings == jyutping.deep_view(),
                    count == json_count(names, raws, readings),
                    count <= words.len(),
                    index == it.index(),
                    result.deep_view() == json_records(names, raws, readings).take(
                        if index <= count {
                            index as int
                        } else {
                            count as int
                        },
                    ),
            {
                let ghost at = it.index() as int;
                assert(at < found.len());
                assert(found.deep_view()[at] == raw.deep_view());
                match &jyutping {
                    Some(table) => {
                        if index < table.len() {
                            let texts = copy_texts(&table[index].jyutping);
                            proof {
                                assert(readings->0[at] == table[at].deep_view());
                                assert(json_records(names, raws, readings).take(at + 1)
                                    =~= json_records(names, raws, readings).take(at).push(
                                    json_record(names, raws, readings, at),
                                ));
                            }
                            push_record(&mut result, words[index].clone(), Some(raw), Some(texts));
                        }
                    },
                    None => {
                        proof {
                            assert(json_records(names, raws, readings).take(at + 1)
                                =~= json_records(names, raws, readings).take(at).push(
                                json_record(names, raws, readings, at),
                            ));
                        }
                        push_record(&mut result, words[index].clone(), Some(raw), None);
                    },
                }
                index += 1;
            }
            assert(json_records(names, raws, readings).take(count as int) =~= json_records(
                names,
                raws,
                readings,
            ));
        },
        None => match jyutping {
            Some(table) => {
                let mut index: usize = 0;
                assert(result.deep_view() =~= json_records(names, raws, readings).take(0));
                for item in it: table
                    invariant
                        it.seq() == table@,
                        names == words.deep_view(),
                        raws is None,
                        readings == Some(table.deep_view()),
                        count == table.len(),
                        count <= words.len(),
                        index == it.index(),
                        result.deep_view() == json_records(names, raws, readings).take(
                            index as int,
                        ),
                {
                    let ghost at = it.index() as int;
                    proof {
                        assert(table.deep_view()[at] == item.deep_view());
                        assert(json_records(names, raws, readings).take(at + 1) =~= json_records(
                            names,
                            raws,
                            readings,
                        ).take(at).push(json_record(names, raws, readings, at)));
                    }
                    push_record(&mut result, words[index].clone(), None, Some(item.jyutping));
                    index += 1;
                }
                assert(json_records(names, raws, readings).take(count as int) =~= json_records(
                    names,
                    raws,
                    readings,
                ));
            },
            None => {
                let mut index: usize = 0;
                assert(result.deep_view() =~= json_records(names, raws, readings).take(0));
                while index < words.len()
                    invariant
                        index <= words.len(),
                        names == words.deep_view(),
                        raws is None,
                        readings is None,
                        result.deep_view() == json_records(names, raws, readings).take(
                            index as int,
                        ),
                    decreases words.len() - index,
                {
                    proof {
                        assert(json_records(names, raws, readings).take(index + 1)
                            =~= json_records(names, raws, readings).take(index as int).push(
                            json_record(names, raws, readings, index as int),
                        ));
                    }
                    push_record(&mut result, words[index].clone(), None, None);
                    index += 1;
                }
                assert(json_records(names, raws, readings).take(index as int) =~= json_records(
                    names,
                    raws,
                    readings,
                ));
            },
        },
    }
    result
}

} // verus!
