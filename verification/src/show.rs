//! The dictionary view of a list of terms: which lines are shown, in which
//! style, and how they are wrapped and coloured.

use vstd::prelude::*;
use vstd::string::*;
use crate::entry::{
    DefinitionView, EntryView, HeteronymView, MoedictDefinition, MoedictHeteronym,
    MoedictRawResult,
};
use crate::grouping::{
    groupable, grouping_of, no_type_key, try_definition_formatter, Groups,
};
use crate::ordered::{group_at, group_count, grouped_entries};
use crate::reflow::{
    can_split_new_line, can_wrap, line_break, line_limit, reflow, string_split_new_line,
};
use crate::render::{line_feed, paint, painted};
use crate::text::{
    decimal, decimal_digits, join, joined, pad_left, prefixed, push_text, right_aligned,
    same_text,
};

verus! {

/// What a line of the dictionary view is: it decides colour and wrapping.
#[derive(Clone, Copy, Debug, PartialEq, Eq)]
pub enum LineStyle {
    /// The term itself.
    Heading,
    /// The English gloss of the term.
    English,
    Pinyin,
    Bopomofo,
    /// A word type, above the senses that have it.
    Label,
    /// A numbered sense.
    Sense,
    /// A quote, an example or a link under a sense.
    Auxiliary,
}

/// One line of the dictionary view before it is wrapped and coloured.
#[derive(Clone, Debug, PartialEq, Eq)]
pub struct OutputLine {
    pub text: String,
    pub style: LineStyle,
}

/// A line of the dictionary view, as plain text.
pub struct LineView {
    pub text: Seq<char>,
    pub style: LineStyle,
}

impl DeepView for OutputLine {
    type V = LineView;

    open spec fn deep_view(&self) -> LineView {
        LineView { text: self.text@, style: self.style }
    }
}

impl View for OutputLine {
    type V = LineView;

    open spec fn view(&self) -> LineView {
        self.deep_view()
    }
}

/// The indent with which lines of a style are wrapped; `None` for the styles
/// that are never wrapped.
pub open spec fn indent_of(style: LineStyle) -> Option<usize> {
    match style {
        LineStyle::English => Some(2usize),
        LineStyle::Sense => Some(2usize),
        LineStyle::Auxiliary => Some(4usize),
        _ => None,
    }
}

/// `text` in the colour of its style.
pub open spec fn coloured(text: Seq<char>, style: LineStyle) -> Seq<char> {
    match style {
        LineStyle::Heading => painted(text, 178, 143, 206),
        LineStyle::English => painted(text, 125, 187, 222),
        LineStyle::Pinyin => painted(text, 236, 184, 138),
        LineStyle::Bopomofo => painted(text, 208, 90, 110),
        LineStyle::Label => painted(text, 168, 216, 165),
        LineStyle::Sense => painted(text, 129, 199, 212),
        LineStyle::Auxiliary => painted(text, 220, 159, 180),
    }
}

/// A line as it is shown in a terminal of `terminal_size` columns: wrapped,
/// where its style asks for it, and then coloured as a whole.
pub open spec fn shown(line: LineView, terminal_size: usize) -> Seq<char> {
    match indent_of(line.style) {
        Some(tab) => coloured(
            reflow(line.text, line_limit(terminal_size) as nat, line_break(tab as nat)),
            line.style,
        ),
        None => coloured(line.text, line.style),
    }
}

/// Whether a line can be shown in a terminal of `terminal_size` columns: a
/// line that is wrapped has to be one that can be wrapped.
pub open spec fn line_wraps(line: LineView, terminal_size: usize) -> bool {
    indent_of(line.style) matches Some(tab) ==> can_wrap(line.text, tab, terminal_size)
}

/// The lines of one group of texts: the first text as a numbered sense, the
/// others as auxiliary lines under it.
pub open spec fn group_lines(group: Seq<Seq<char>>, number: nat) -> Seq<LineView> {
    seq![
        LineView {
            text: right_aligned(decimal_digits(number), 3) + seq!['.'] + group[0],
            style: LineStyle::Sense,
        },
    ] + Seq::new(
        (group.len() - 1) as nat,
        |i: int| LineView { text: seq![' ', ' ', ' ', ' '] + group[i + 1], style: LineStyle::Auxiliary },
    )
}

/// The lines of the first `n` groups of a key, numbered from one.
pub open spec fn numbered_lines(groups: Groups, n: nat) -> Seq<LineView>
    decreases n,
{
    if n == 0 {
        Seq::empty()
    } else {
        numbered_lines(groups, (n - 1) as nat) + group_lines(groups[n - 1], n)
    }
}

/// The line that names a word type; senses without a word type get none.
pub open spec fn label_lines(key: Seq<char>) -> Seq<LineView> {
    if key == no_type_key() {
        Seq::empty()
    } else {
        seq![LineView { text: right_aligned(key, 3) + seq!['：'], style: LineStyle::Label }]
    }
}

/// The lines of one word type: its label, then its senses.
pub open spec fn key_lines(entry: (Seq<char>, Groups)) -> Seq<LineView> {
    label_lines(entry.0) + numbered_lines(entry.1, entry.1.len())
}

/// The lines of the first `n` word types of a grouping.
pub open spec fn grouped_lines(entries: Seq<(Seq<char>, Groups)>, n: nat) -> Seq<LineView>
    decreases n,
{
    if n == 0 {
        Seq::empty()
    } else {
        grouped_lines(entries, (n - 1) as nat) + key_lines(entries[n - 1])
    }
}

/// The lines of the senses of one pronunciation, grouped by word type.
pub open spec fn senses_lines(defs: Seq<DefinitionView>) -> Seq<LineView> {
    grouped_lines(grouping_of(defs).entries, grouping_of(defs).entries.len())
}

/// The line of an optional field: its label and its text, or nothing.
pub open spec fn optional_line(label: Seq<char>, text: Option<Seq<char>>, style: LineStyle) -> Seq<
    LineView,
> {
    match text {
        Some(t) => seq![LineView { text: label + t, style }],
        None => Seq::empty(),
    }
}

/// The label in front of the English gloss.
pub open spec fn english_label() -> Seq<char> {
    seq![' ', ' ', '英', '語', '：']
}

/// The label in front of the pinyin.
pub open spec fn pinyin_label() -> Seq<char> {
    seq![' ', ' ', '拼', '音', '：']
}

/// The label in front of the bopomofo.
pub open spec fn bopomofo_label() -> Seq<char> {
    seq![' ', ' ', '注', '音', '：']
}

/// The lines of one pronunciation: pinyin, bopomofo, senses.
pub open spec fn heteronym_lines(h: HeteronymView) -> Seq<LineView> {
    optional_line(pinyin_label(), h.pinyin, LineStyle::Pinyin) + optional_line(
        bopomofo_label(),
        h.bopomofo,
        LineStyle::Bopomofo,
    ) + match h.definitions {
        Some(defs) => senses_lines(defs),
        None => Seq::empty(),
    }
}

/// The lines of the first `n` pronunciations.
pub open spec fn heteronyms_lines(hs: Seq<HeteronymView>, n: nat) -> Seq<LineView>
    decreases n,
{
    if n == 0 {
        Seq::empty()
    } else {
        heteronyms_lines(hs, (n - 1) as nat) + heteronym_lines(hs[n - 1])
    }
}

/// The lines of one term: heading, English gloss, pronunciations.
pub open spec fn entry_lines(e: EntryView) -> Seq<LineView> {
    seq![LineView { text: e.title + seq!['：'], style: LineStyle::Heading }] + optional_line(
        english_label(),
        e.english,
        LineStyle::English,
    ) + match e.heteronyms {
        Some(hs) => heteronyms_lines(hs, hs.len()),
        None => Seq::empty(),
    }
}

/// The lines of the first `n` terms.
pub open spec fn dict_lines(results: Seq<EntryView>, n: nat) -> Seq<LineView>
    decreases n,
{
    if n == 0 {
        Seq::empty()
    } else {
        dict_lines(results, (n - 1) as nat) + entry_lines(results[n - 1])
    }
}

/// Whether every group holds a text, so that every sense has a first line.
pub open spec fn full_groups(entries: Seq<(Seq<char>, Groups)>) -> bool {
    forall|i: int, j: int|
        0 <= i < entries.len() && 0 <= j < entries[i].1.len() ==> (#[trigger] entries[i].1[j]).len()
            > 0
}

/// Whether the senses of a pronunciation can be shown: they can be grouped,
/// and no group comes out empty.
pub open spec fn showable_senses(defs: Seq<DefinitionView>) -> bool {
    groupable(defs) && full_groups(grouping_of(defs).entries)
}

/// Whether a pronunciation can be shown.
pub open spec fn showable_heteronym(h: HeteronymView) -> bool {
    h.definitions matches Some(defs) ==> showable_senses(defs)
}

/// Whether a term can be shown: each of its pronunciations can.
pub open spec fn showable_entry(e: EntryView) -> bool {
    e.heteronyms matches Some(hs) ==> forall|j: int|
        0 <= j < hs.len() ==> showable_heteronym(#[trigger] hs[j])
}

/// Whether all terms of a list can be shown.
pub open spec fn presentable(results: Seq<EntryView>) -> bool {
    forall|i: int| 0 <= i < results.len() ==> showable_entry(#[trigger] results[i])
}

/// Whether all of the given lines can be shown in a terminal of
/// `terminal_size` columns.
pub open spec fn lines_wrap(lines: Seq<LineView>, terminal_size: usize) -> bool {
    forall|i: int| 0 <= i < lines.len() ==> line_wraps(#[trigger] lines[i], terminal_size)
}

/// Whether the dictionary view of a list of terms can be produced for a
/// terminal of `terminal_size` columns.
pub open spec fn can_show(results: Seq<EntryView>, terminal_size: usize) -> bool {
    presentable(results) && lines_wrap(dict_lines(results, results.len()), terminal_size)
}

/// The given lines as they are shown, one under the other.
pub open spec fn shown_lines(lines: Seq<LineView>, terminal_size: usize) -> Seq<char> {
    joined(Seq::new(lines.len(), |i: int| shown(lines[i], terminal_size)), line_feed())
}

/// Appends one line.
fn push_line(lines: &mut Vec<OutputLine>, text: String, style: LineStyle)
    ensures
        final(lines).deep_view() == old(lines).deep_view().push(LineView { text: text@, style }),
{
    lines.push(OutputLine { text, style });
    assert(lines.deep_view() =~= old(lines).deep_view().push(LineView { text: text@, style }));
}

/// Appends the line of an optional field.
fn push_optional_line(
    lines: &mut Vec<OutputLine>,
    label: &str,
    text: &Option<String>,
    style: LineStyle,
)
    ensures
        final(lines).deep_view() == old(lines).deep_view() + optional_line(
            label@,
            text.deep_view(),
            style,
        ),
{
    match text {
        Some(t) => {
            push_line(lines, prefixed(label, t.as_str()), style);
            assert(lines.deep_view() =~= old(lines).deep_view() + optional_line(
                label@,
                text.deep_view(),
                style,
            ));
        },
        None => {
            assert(lines.deep_view() =~= old(lines).deep_view() + optional_line(
                label@,
                text.deep_view(),
                style,
            ));
        },
    }
}

/// Appends the lines of one group of texts, numbered `number`.
fn push_group_lines(lines: &mut Vec<OutputLine>, group: &Vec<String>, number: usize)
    requires
        group.len() > 0,
    ensures
        final(lines).deep_view() == old(lines).deep_view() + group_lines(
            group.deep_view(),
            number as nat,
        ),
{
    proof {
        reveal_strlit(".");
        reveal_strlit("    ");
    }
    let digits = decimal(number);
    let mut first = pad_left(digits.as_str(), 3);
    first.append(".");
    first.append(group[0].as_str());
    assert(first@ =~= right_aligned(decimal_digits(number as nat), 3) + seq!['.']
        + group.deep_view()[0]);
    push_line(lines, first, LineStyle::Sense);
    let ghost start = lines.deep_view();
    let ghost texts = group.deep_view();
    let mut i: usize = 1;
    while i < group.len()
        invariant
            1 <= i <= group.len(),
            texts == group.deep_view(),
            "    "@ == seq![' ', ' ', ' ', ' '],
            lines.deep_view() == start + Seq::new(
                (i - 1) as nat,
                |j: int|
                    LineView {
                        text: seq![' ', ' ', ' ', ' '] + texts[j + 1],
                        style: LineStyle::Auxiliary,
                    },
            ),
        decreases group.len() - i,
    {
        push_line(lines, prefixed("    ", group[i].as_str()), LineStyle::Auxiliary);
        i += 1;
        assert(lines.deep_view() =~= start + Seq::new(
            (i - 1) as nat,
            |j: int|
                LineView {
                    text: seq![' ', ' ', ' ', ' '] + texts[j + 1],
                    style: LineStyle::Auxiliary,
                },
        ));
    }
    assert(lines.deep_view() =~= old(lines).deep_view() + group_lines(texts, number as nat));
}

/// Appends the lines of one word type. Returns `false`, with nothing said of
/// the lines, where one of the groups is empty.
fn push_key_lines(lines: &mut Vec<OutputLine>, key: &str, groups: &Vec<Vec<String>>) -> (ok: bool)
    ensures
        ok == (forall|j: int|
            0 <= j < groups.deep_view().len() ==> (#[trigger] groups.deep_view()[j]).len() > 0),
        ok ==> final(lines).deep_view() == old(lines).deep_view() + key_lines(
            (key@, groups.deep_view()),
        ),
{
    proof {
        reveal_strlit("notype");
        reveal_strlit("：");
    }
    assert("notype"@ =~= no_type_key());
    if !same_text(key, "notype") {
        let mut label = pad_left(key, 3);
        label.append("：");
        assert(label@ =~= right_aligned(key@, 3) + seq!['：']);
        push_line(lines, label, LineStyle::Label);
    }
    let ghost start = lines.deep_view();
    let ghost all = groups.deep_view();
    assert(start =~= old(lines).deep_view() + label_lines(key@));
    let mut i: usize = 0;
    while i < groups.len()
        invariant
            i <= groups.len(),
            all == groups.deep_view(),
            forall|j: int| 0 <= j < i ==> (#[trigger] all[j]).len() > 0,
            lines.deep_view() == start + numbered_lines(all, i as nat),
        decreases groups.len() - i,
    {
        let group = &groups[i];
        if group.len() == 0 {
            assert(all[i as int].len() == 0);
            return false;
        }
        push_group_lines(lines, group, i + 1);
        proof {
            assert(all[i as int] == group.deep_view());
            assert(lines.deep_view() =~= start + numbered_lines(all, (i + 1) as nat));
        }
        i += 1;
    }
    assert(lines.deep_view() =~= old(lines).deep_view() + key_lines((key@, all)));
    true
}

/// Appends the lines of the senses of one pronunciation. Returns `false`,
/// with nothing said of the lines, where the senses cannot be shown.
fn push_senses_lines(lines: &mut Vec<OutputLine>, definitions: &Vec<MoedictDefinition>) -> (ok:
    bool)
    ensures
        ok == showable_senses(definitions.deep_view()),
        ok ==> final(lines).deep_view() == old(lines).deep_view() + senses_lines(
            definitions.deep_view(),
        ),
{
    let slice = definitions.as_slice();
    assert(slice.deep_view() =~= definitions.deep_view());
    let grouped = match try_definition_formatter(slice) {
        Some(m) => m,
        None => {
            return false;
        },
    };
    let ghost entries = grouped_entries(grouped);
    let count: usize = group_count(&grouped);
    let mut i: usize = 0;
    assert(lines.deep_view() =~= old(lines).deep_view() + grouped_lines(entries, 0));
    while i < count
        invariant
            i <= count,
            count == entries.len(),
            entries == grouped_entries(grouped),
            entries == grouping_of(definitions.deep_view()).entries,
            groupable(definitions.deep_view()),
            forall|a: int, b: int|
                0 <= a < i && 0 <= b < entries[a].1.len() ==> (#[trigger] entries[a].1[b]).len()
                    > 0,
            lines.deep_view() == old(lines).deep_view() + grouped_lines(entries, i as nat),
        decreases count - i,
    {
        match group_at(&grouped, i) {
            Some(entry) => {
                let ok = push_key_lines(lines, entry.0.as_str(), entry.1);
                if !ok {
                    proof {
                        let j = choose|j: int|
                            0 <= j < entry.1.deep_view().len() && !((
                            #[trigger] entry.1.deep_view()[j]).len() > 0);
                        assert(entries[i as int].1[j].len() == 0);
                    }
                    return false;
                }
                proof {
                    assert(entries[i as int] == (entry.0@, entry.1.deep_view()));
                    assert(lines.deep_view() =~= old(lines).deep_view() + grouped_lines(
                        entries,
                        (i + 1) as nat,
                    ));
                }
            },
            None => {},
        }
        i += 1;
    }
    true
}

/// Appends the lines of one pronunciation. Returns `false`, with nothing
/// said of the lines, where it cannot be shown.
fn push_heteronym_lines(lines: &mut Vec<OutputLine>, h: &MoedictHeteronym) -> (ok: bool)
    ensures
        ok == showable_heteronym(h.deep_view()),
        ok ==> final(lines).deep_view() == old(lines).deep_view() + heteronym_lines(h.deep_view()),
{
    proof {
        reveal_strlit("  拼音：");
        reveal_strlit("  注音：");
    }
    assert("  拼音："@ =~= pinyin_label());
    assert("  注音："@ =~= bopomofo_label());
    push_optional_line(lines, "  拼音：", &h.pinyin, LineStyle::Pinyin);
    push_optional_line(lines, "  注音：", &h.bopomofo, LineStyle::Bopomofo);
    match &h.definitions {
        Some(definitions) => {
            let ok = push_senses_lines(lines, definitions);
            if !ok {
                return false;
            }
            assert(lines.deep_view() =~= old(lines).deep_view() + heteronym_lines(h.deep_view()));
        },
        None => {
            assert(lines.deep_view() =~= old(lines).deep_view() + heteronym_lines(h.deep_view()));
        },
    }
    true
}

/// Appends the lines of one term. Returns `false`, with nothing said of the
/// lines, where it cannot be shown.
fn push_entry_lines(lines: &mut Vec<OutputLine>, e: &MoedictRawResult) -> (ok: bool)
    ensures
        ok == showable_entry(e.deep_view()),
        ok ==> final(lines).deep_view() == old(lines).deep_view() + entry_lines(e.deep_view()),
{
    proof {
        reveal_strlit("：");
        reveal_strlit("  英語：");
    }
    assert("  英語："@ =~= english_label());
    let mut title = e.title.clone();
    title.append("：");
    assert(title@ =~= e.title@ + seq!['：']);
    push_line(lines, title, LineStyle::Heading);
    push_optional_line(lines, "  英語：", &e.english, LineStyle::English);
    let ghost start = lines.deep_view();
    match &e.heteronyms {
        Some(heteronyms) => {
            let ghost hs = heteronyms.deep_view();
            let mut i: usize = 0;
            assert(lines.deep_view() =~= start + heteronyms_lines(hs, 0));
            while i < heteronyms.len()
                invariant
                    i <= heteronyms.len(),
                    hs == heteronyms.deep_view(),
                    e.deep_view().heteronyms == Some(hs),
                    forall|j: int| 0 <= j < i ==> showable_heteronym(#[trigger] hs[j]),
                    lines.deep_view() == start + heteronyms_lines(hs, i as nat),
                decreases heteronyms.len() - i,
            {
                let ok = push_heteronym_lines(lines, &heteronyms[i]);
                if !ok {
                    proof {
                        assert(hs[i as int] == heteronyms[i as int].deep_view());
                        assert(e.deep_view().heteronyms == Some(hs));
                        assert(!showable_heteronym(hs[i as int]));
                        assert(e.deep_view().heteronyms->0 == hs);
                        assert(!showable_entry(e.deep_view()));
                    }
                    return false;
                }
                proof {
                    assert(hs[i as int] == heteronyms[i as int].deep_view());
                    assert(lines.deep_view() =~= start + heteronyms_lines(hs, (i + 1) as nat));
                }
                i += 1;
            }
            assert(lines.deep_view() =~= old(lines).deep_view() + entry_lines(e.deep_view()));
        },
        None => {
            assert(lines.deep_view() =~= old(lines).deep_view() + entry_lines(e.deep_view()));
        },
    }
    true
}

/// The lines of the dictionary view of a list of terms, or `None` where one
/// of the terms cannot be shown.
pub fn layout(results: &Vec<MoedictRawResult>) -> (r: Option<Vec<OutputLine>>)
    ensures
        r is Some <==> presentable(results.deep_view()),
        r matches Some(lines) ==> lines.deep_view() == dict_lines(
            results.deep_view(),
            results.deep_view().len(),
        ),
{
    let mut lines: Vec<OutputLine> = Vec::new();
    let ghost all = results.deep_view();
    let mut i: usize = 0;
    assert(lines.deep_view() =~= dict_lines(all, 0));
    while i < results.len()
        invariant
            i <= results.len(),
            all == results.deep_view(),
            forall|j: int| 0 <= j < i ==> showable_entry(#[trigger] all[j]),
            lines.deep_view() == dict_lines(all, i as nat),
        decreases results.len() - i,
    {
        let ok = push_entry_lines(&mut lines, &results[i]);
        if !ok {
            assert(!showable_entry(all[i as int]));
            return None;
        }
        assert(all[i as int] == results[i as int].deep_view());
        i += 1;
    }
    Some(lines)
}

/// Puts `text` in the colour of `style`.
fn colour(text: &str, style: LineStyle) -> (r: String)
    ensures
        r@ == coloured(text@, style),
{
    match style {
        LineStyle::Heading => paint::<178, 143, 206>(text),
        LineStyle::English => paint::<125, 187, 222>(text),
        LineStyle::Pinyin => paint::<236, 184, 138>(text),
        LineStyle::Bopomofo => paint::<208, 90, 110>(text),
        LineStyle::Label => paint::<168, 216, 165>(text),
        LineStyle::Sense => paint::<129, 199, 212>(text),
        LineStyle::Auxiliary => paint::<220, 159, 180>(text),
    }
}

/// The indent with which lines of a style are wrapped.
fn indent_for(style: LineStyle) -> (r: Option<usize>)
    ensures
        r == indent_of(style),
{
    match style {
        LineStyle::English => Some(2),
        LineStyle::Sense => Some(2),
        LineStyle::Auxiliary => Some(4),
        _ => None,
    }
}

/// Tells whether a line can be shown in a terminal of `terminal_size`
/// columns.
pub fn can_show_line(line: &OutputLine, terminal_size: usize) -> (b: bool)
    ensures
        b == line_wraps(line.deep_view(), terminal_size),
{
    match indent_for(line.style) {
        Some(tab) => can_split_new_line(line.text.as_str(), tab, terminal_size),
        None => true,
    }
}

/// A line as it is shown: wrapped, where its style asks for it, and
/// coloured.
fn show_line(line: &OutputLine, terminal_size: usize) -> (r: String)
    requires
        line_wraps(line.deep_view(), terminal_size),
    ensures
        r@ == shown(line.deep_view(), terminal_size),
{
    match indent_for(line.style) {
        Some(tab) => {
            let wrapped = string_split_new_line(line.text.clone(), tab, terminal_size);
            colour(wrapped.as_str(), line.style)
        },
        None => colour(line.text.as_str(), line.style),
    }
}

/// Tells whether `gen_dict_result_str` can produce the dictionary view of
/// the terms for a terminal of `terminal_size` columns.
pub fn can_gen_dict_result_str(moedict_result: &Vec<MoedictRawResult>, terminal_size: usize) -> (b:
    bool)
    ensures
        b == can_show(moedict_result.deep_view(), terminal_size),
{
    let lines = match layout(moedict_result) {
        Some(lines) => lines,
        None => {
            return false;
        },
    };
    let ghost all = lines.deep_view();
    let mut i: usize = 0;
    while i < lines.len()
        invariant
            i <= lines.len(),
            all == lines.deep_view(),
            presentable(moedict_result.deep_view()),
            all == dict_lines(moedict_result.deep_view(), moedict_result.deep_view().len()),
            forall|j: int| 0 <= j < i ==> line_wraps(#[trigger] all[j], terminal_size),
        decreases lines.len() - i,
    {
        if !can_show_line(&lines[i], terminal_size) {
            assert(!line_wraps(all[i as int], terminal_size));
            return false;
        }
        i += 1;
    }
    true
}

/// The dictionary view of a list of terms for a terminal of `terminal_size`
/// columns. For each term: its heading, its English gloss, and for each
/// pronunciation the pinyin, the bopomofo and the senses, grouped by word
/// type and numbered within each type, each sense followed by its quotes,
/// examples and links. Long lines are wrapped, and every line has the colour
/// of its kind.
pub fn gen_dict_result_str(moedict_result: Vec<MoedictRawResult>, terminal_size: usize) -> (r:
    String)
    requires
        can_show(moedict_result.deep_view(), terminal_size),
    ensures
        r@ == shown_lines(
            dict_lines(moedict_result.deep_view(), moedict_result.deep_view().len()),
            terminal_size,
        ),
{
    proof {
        reveal_strlit("\n");
    }
    let lines = layout(&moedict_result).unwrap();
    let ghost all = lines.deep_view();
    let mut result: Vec<String> = Vec::new();
    let mut i: usize = 0;
    while i < lines.len()
        invariant
            i <= lines.len(),
            all == lines.deep_view(),
            lines_wrap(all, terminal_size),
            result.deep_view() == Seq::new(i as nat, |j: int| shown(all[j], terminal_size)),
        decreases lines.len() - i,
    {
        assert(line_wraps(all[i as int], terminal_size));
        push_text(&mut result, show_line(&lines[i], terminal_size));
        i += 1;
        assert(result.deep_view() =~= Seq::new(i as nat, |j: int| shown(all[j], terminal_size)));
    }
    assert(result.deep_view() =~= Seq::new(all.len(), |j: int| shown(all[j], terminal_size)));
    assert("\n"@ =~= line_feed());
    join(&result, "\n")
}

/// The dictionary view of a list of terms as `gen_dict_result_str` produces
/// it, where that is possible, and `None` where it is not.
pub fn try_gen_dict_result_str(moedict_result: Vec<MoedictRawResult>, terminal_size: usize) -> (r:
    Option<String>)
    ensures
        r is Some <==> can_show(moedict_result.deep_view(), terminal_size),
        r matches Some(text) ==> text@ == shown_lines(
            dict_lines(moedict_result.deep_view(), moedict_result.deep_view().len()),
            terminal_size,
        ),
{
    if can_gen_dict_result_str(&moedict_result, terminal_size) {
        Some(gen_dict_result_str(moedict_result, terminal_size))
    } else {
        None
    }
}

} // verus!
