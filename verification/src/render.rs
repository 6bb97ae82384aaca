//! Turning dictionary records into the text that is shown in a terminal.

use vstd::prelude::*;
use vstd::string::*;
use owo_colors::OwoColorize;
use indexmap::IndexMap;
use crate::entry::{EntryView, JyutPingView, MeowdictJyutPingResult, MoedictRawResult};
use crate::error::{message_of, ErrorView, MeowdictError};
use crate::lookup::outcome_view;
use crate::ordered::{translation_at, translation_count, translation_entries};
use crate::text::{digit_char, join, joined, push_text};

verus! {

/// A colour component as the three digits that the escape sequence holds.
pub open spec fn three_digits(n: u8) -> Seq<char> {
    seq![digit_char((n / 100) as nat), digit_char((n / 10 % 10) as nat), digit_char((n % 10) as nat)]
}

/// `text` between the escape sequence that sets the foreground colour to the
/// given red, green and blue and the one that sets it back to the default.
pub open spec fn painted(text: Seq<char>, r: u8, g: u8, b: u8) -> Seq<char> {
    seq!['\u{1b}', '[', '3', '8', ';', '2', ';'] + three_digits(r) + seq![';'] + three_digits(g)
        + seq![';'] + three_digits(b) + seq!['m'] + text + seq!['\u{1b}', '[', '3', '9', 'm']
}

/// Formats `text` through `OwoColorize::fg_rgb`, which writes the escape
/// sequence for the colour, with each component as three digits, then the
/// text, then the sequence that restores the default foreground.
#[verifier::external_body]
pub(crate) fn paint<const R: u8, const G: u8, const B: u8>(text: &str) -> (r: String)
    ensures
        r@ == painted(text@, R, G, B),
{
    text.fg_rgb::<R, G, B>().to_string()
}

/// `s` without its terminal escape sequences, as `console::strip_ansi_codes`
/// removes them.
pub uninterp spec fn without_escapes(s: Seq<char>) -> Seq<char>;

/// Calls `console::strip_ansi_codes`. Nothing is claimed of the result but
/// that it depends on the text alone.
#[verifier::external_body]
pub(crate) fn strip_escapes(s: &str) -> (r: String)
    ensures
        r@ == without_escapes(s@),
{
    console::strip_ansi_codes(s).into_owned()
}

/// The line feed that stands between two lines of output.
pub open spec fn line_feed() -> Seq<char> {
    seq!['\n']
}

/// The heading of a term: the term and a full-width colon, in the colour of
/// headings.
pub open spec fn heading(term: Seq<char>) -> Seq<char> {
    painted(term + seq!['：'], 178, 143, 206)
}

/// A label or a list of readings, in the colour of labels.
pub open spec fn labelled(text: Seq<char>) -> Seq<char> {
    painted(text, 168, 216, 165)
}

/// The two pieces of output for the readings of one term: the heading, and
/// the readings, one on each line.
pub open spec fn jyutping_block(r: JyutPingView) -> Seq<Seq<char>> {
    seq![heading(r.word), labelled(joined(r.jyutping, line_feed()))]
}

/// The pieces of output for the readings of a list of terms.
pub open spec fn jyutping_blocks(results: Seq<JyutPingView>) -> Seq<Seq<char>>
    decreases results.len(),
{
    if results.len() == 0 {
        Seq::empty()
    } else {
        jyutping_blocks(results.drop_last()) + jyutping_block(results.last())
    }
}

/// The heading of a term.
fn heading_of(term: &str) -> (r: String)
    ensures
        r@ == heading(term@),
{
    proof {
        reveal_strlit("：");
    }
    let text = String::from_str(term).concat("：");
    paint::<178, 143, 206>(text.as_str())
}

/// The readings of the terms, each term under its heading, one reading on
/// each line.
pub fn gen_jyutping_str(jyutping_result: Vec<MeowdictJyutPingResult>) -> (r: String)
    ensures
        r@ == joined(jyutping_blocks(jyutping_result.deep_view()), line_feed()),
{
    proof {
        reveal_strlit("\n");
    }
    let mut result: Vec<String> = Vec::new();
    let ghost all = jyutping_result.deep_view();
    let mut i: usize = 0;
    while i < jyutping_result.len()
        invariant
            i <= jyutping_result.len(),
            all == jyutping_result.deep_view(),
            result.deep_view() == jyutping_blocks(all.take(i as int)),
            "\n"@ == line_feed(),
        decreases jyutping_result.len() - i,
    {
        let item = &jyutping_result[i];
        let ghost before = result.deep_view();
        push_text(&mut result, heading_of(item.word.as_str()));
        let readings = join(&item.jyutping, "\n");
        push_text(&mut result, paint::<168, 216, 165>(readings.as_str()));
        proof {
            assert(all.take(i + 1).drop_last() =~= all.take(i as int));
            assert(all.take(i + 1).last() == item.deep_view());
            assert(result.deep_view() =~= before + jyutping_block(item.deep_view()));
        }
        i += 1;
    }
    assert(all.take(i as int) =~= all);
    join(&result, "\n")
}

/// The pieces of output for what came of looking up the readings of one
/// term: the heading and the readings, or the line that tells of the
/// failure.
pub open spec fn outcome_block(outcome: Result<JyutPingView, ErrorView>) -> Seq<Seq<char>> {
    match outcome {
        Ok(found) => jyutping_block(found),
        Err(e) => seq![message_of(e)],
    }
}

/// The pieces of output for the first `n` outcomes.
pub open spec fn outcome_blocks(
    outcomes: Seq<Result<MeowdictJyutPingResult, MeowdictError>>,
    n: nat,
) -> Seq<Seq<char>>
    decreases n,
{
    if n == 0 {
        Seq::empty()
    } else {
        outcome_blocks(outcomes, (n - 1) as nat) + outcome_block(outcome_view(outcomes[n - 1]))
    }
}

/// What came of looking up the readings of the terms, term by term in the
/// order of the terms: the readings under their heading where the term has
/// them, and the line that tells of the failure where it has not.
pub fn gen_jyutping_outcomes_str(
    outcomes: Vec<Result<MeowdictJyutPingResult, MeowdictError>>,
) -> (r: String)
    ensures
        r@ == joined(outcome_blocks(outcomes@, outcomes@.len()), line_feed()),
{
    proof {
        reveal_strlit("\n");
    }
    let mut result: Vec<String> = Vec::new();
    let mut i: usize = 0;
    assert(result.deep_view() =~= outcome_blocks(outcomes@, 0));
    while i < outcomes.len()
        invariant
            i <= outcomes.len(),
            result.deep_view() == outcome_blocks(outcomes@, i as nat),
            "\n"@ == line_feed(),
        decreases outcomes.len() - i,
    {
        let ghost before = result.deep_view();
        match &outcomes[i] {
            Ok(item) => {
                push_text(&mut result, heading_of(item.word.as_str()));
                let readings = join(&item.jyutping, "\n");
                push_text(&mut result, paint::<168, 216, 165>(readings.as_str()));
                assert(result.deep_view() =~= before + jyutping_block(item.deep_view()));
            },
            Err(e) => {
                push_text(&mut result, e.message());
                assert(result.deep_view() =~= before + seq![message_of(e.deep_view())]);
            },
        }
        i += 1;
    }
    join(&result, "\n")
}

/// A translation, a quote, an example or a link, in the colour of such lines.
pub open spec fn auxiliary(text: Seq<char>) -> Seq<char> {
    painted(text, 220, 159, 180)
}

/// The pieces of output for one language: its name with a colon, then each
/// translation.
pub open spec fn language_block(entry: (Seq<char>, Seq<Seq<char>>)) -> Seq<Seq<char>> {
    seq![labelled(entry.0 + seq![':'])] + Seq::new(
        entry.1.len(),
        |i: int| auxiliary(entry.1[i]),
    )
}

/// The pieces of output for the languages of one term, in their order.
pub open spec fn language_blocks(entries: Seq<(Seq<char>, Seq<Seq<char>>)>) -> Seq<Seq<char>>
    decreases entries.len(),
{
    if entries.len() == 0 {
        Seq::empty()
    } else {
        language_blocks(entries.drop_last()) + language_block(entries.last())
    }
}

/// The pieces of output for the translations of one term: the heading, then
/// the languages, if the record has any.
pub open spec fn translation_block(e: EntryView) -> Seq<Seq<char>> {
    seq![heading(e.title)] + match e.translation {
        Some(entries) => language_blocks(entries),
        None => Seq::empty(),
    }
}

/// The pieces of output for the translations of a list of terms.
pub open spec fn translation_lines(results: Seq<EntryView>) -> Seq<Seq<char>>
    decreases results.len(),
{
    if results.len() == 0 {
        Seq::empty()
    } else {
        translation_lines(results.drop_last()) + translation_block(results.last())
    }
}

/// Appends the pieces of output for one language.
fn push_language(result: &mut Vec<String>, language: &str, translations: &Vec<String>)
    ensures
        final(result).deep_view() == old(result).deep_view() + language_block(
            (language@, translations.deep_view()),
        ),
{
    proof {
        reveal_strlit(":");
    }
    let label = String::from_str(language).concat(":");
    assert(label@ =~= language@ + seq![':']);
    push_text(result, paint::<168, 216, 165>(label.as_str()));
    let ghost start = result.deep_view();
    let ghost texts = translations.deep_view();
    assert(start =~= old(result).deep_view() + seq![labelled(language@ + seq![':'])]);
    let mut i: usize = 0;
    while i < translations.len()
        invariant
            i <= translations.len(),
            texts == translations.deep_view(),
            result.deep_view() == start + Seq::new(i as nat, |j: int| auxiliary(texts[j])),
        decreases translations.len() - i,
    {
        push_text(result, paint::<220, 159, 180>(translations[i].as_str()));
        i += 1;
        assert(result.deep_view() =~= start + Seq::new(i as nat, |j: int| auxiliary(texts[j])));
    }
    assert(result.deep_view() =~= old(result).deep_view() + language_block((language@, texts)));
}

/// Appends the pieces of output for the languages of one term.
fn push_languages(result: &mut Vec<String>, translation: &IndexMap<String, Vec<String>>)
    ensures
        final(result).deep_view() == old(result).deep_view() + language_blocks(
            translation_entries(*translation),
        ),
{
    let count: usize = translation_count(translation);
    let ghost entries = translation_entries(*translation);
    let mut i: usize = 0;
    assert(result.deep_view() =~= old(result).deep_view() + language_blocks(entries.take(0)));
    while i < count
        invariant
            i <= count,
            count == entries.len(),
            entries == translation_entries(*translation),
            result.deep_view() == old(result).deep_view() + language_blocks(
                entries.take(i as int),
            ),
        decreases count - i,
    {
        match translation_at(translation, i) {
            Some(entry) => {
                push_language(result, entry.0.as_str(), entry.1);
                proof {
                    assert(entries.take(i + 1).drop_last() =~= entries.take(i as int));
                    assert(entries.take(i + 1).last() == (entry.0@, entry.1.deep_view()));
                    assert(result.deep_view() =~= old(result).deep_view() + language_blocks(
                        entries.take(i + 1),
                    ));
                }
            },
            None => {},
        }
        i += 1;
    }
    assert(entries.take(i as int) =~= entries);
}

/// The translations of the terms, each term under its heading: for every
/// language its name and, line by line, the translations into it.
pub fn gen_translation_str(meowdict_results: Vec<MoedictRawResult>) -> (r: String)
    ensures
        r@ == joined(translation_lines(meowdict_results.deep_view()), line_feed()),
{
    proof {
        reveal_strlit("\n");
    }
    let mut result: Vec<String> = Vec::new();
    let ghost all = meowdict_results.deep_view();
    let mut i: usize = 0;
    while i < meowdict_results.len()
        invariant
            i <= meowdict_results.len(),
            all == meowdict_results.deep_view(),
            result.deep_view() == translation_lines(all.take(i as int)),
            "\n"@ == line_feed(),
        decreases meowdict_results.len() - i,
    {
        let item = &meowdict_results[i];
        let ghost before = result.deep_view();
        push_text(&mut result, heading_of(item.title.as_str()));
        let ghost headed = result.deep_view();
        assert(headed =~= before + seq![heading(item.title@)]);
        match &item.translation {
            Some(translation) => {
                push_languages(&mut result, translation);
            },
            None => {
                assert(result.deep_view() =~= headed + Seq::<Seq<char>>::empty());
            },
        }
        proof {
            assert(all.take(i + 1).drop_last() =~= all.take(i as int));
            assert(all.take(i + 1).last() == item.deep_view());
            assert(result.deep_view() =~= before + translation_block(item.deep_view()));
        }
        i += 1;
    }
    assert(all.take(i as int) =~= all);
    join(&result, "\n")
}

} // verus!
