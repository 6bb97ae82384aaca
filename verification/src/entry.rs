//! What the dictionary service returns for a term, and what the other
//! services add to it.

use vstd::prelude::*;
use indexmap::IndexMap;
use crate::ordered::translation_entries;

verus! {

/// One sense of a term.
#[derive(Clone, Debug, PartialEq, Eq)]
pub struct MoedictDefinition {
    /// The grammatical category, where the sense has one.
    pub word_type: Option<String>,
    pub quote: Option<Vec<String>>,
    pub example: Option<Vec<String>>,
    /// The gloss.
    pub def: Option<String>,
    pub link: Option<Vec<String>>,
}

/// One pronunciation of a term, with the senses that go with it.
#[derive(Clone, Debug, PartialEq, Eq)]
pub struct MoedictHeteronym {
    pub pinyin: Option<String>,
    pub bopomofo: Option<String>,
    pub definitions: Option<Vec<MoedictDefinition>>,
}

/// The record that the dictionary service holds for one term.
#[derive(Clone, Debug, PartialEq, Eq)]
pub struct MoedictRawResult {
    pub title: String,
    /// From the name of a language to the translations into it, in the
    /// order in which the service lists the languages.
    pub translation: Option<IndexMap<String, Vec<String>>>,
    pub heteronyms: Option<Vec<MoedictHeteronym>>,
    pub english: Option<String>,
}

/// The Cantonese readings of one term.
#[derive(Clone, Debug, PartialEq, Eq)]
pub struct MeowdictJyutPingResult {
    pub word: String,
    pub jyutping: Vec<String>,
}

/// One term of a machine-readable export: what the dictionary has for it and
/// its readings, each as far as it could be had.
#[derive(Clone, Debug, PartialEq, Eq)]
pub struct MeowdictJsonResult {
    pub name: String,
    pub moedict_raw_result: Option<MoedictRawResult>,
    pub jyutping: Option<Vec<String>>,
}

/// The records of several terms together with one list of readings.
#[derive(Clone, Debug, PartialEq, Eq)]
pub struct MeowdictResult {
    pub meowdict_raw_result: Vec<MoedictRawResult>,
    pub jyutping: Option<Vec<String>>,
}

/// One answer of the reverse lookup: a word and how well it matches.
#[derive(Clone, Debug, PartialEq, Eq)]
pub struct WantWordsResult {
    pub correlation: String,
    pub word: String,
}

/// A sense, as plain text.
pub struct DefinitionView {
    pub word_type: Option<Seq<char>>,
    pub quote: Option<Seq<Seq<char>>>,
    pub example: Option<Seq<Seq<char>>>,
    pub def: Option<Seq<char>>,
    pub link: Option<Seq<Seq<char>>>,
}

/// A pronunciation, as plain text.
pub struct HeteronymView {
    pub pinyin: Option<Seq<char>>,
    pub bopomofo: Option<Seq<char>>,
    pub definitions: Option<Seq<DefinitionView>>,
}

/// A dictionary record, as plain text.
pub struct EntryView {
    pub title: Seq<char>,
    pub translation: Option<Seq<(Seq<char>, Seq<Seq<char>>)>>,
    pub heteronyms: Option<Seq<HeteronymView>>,
    pub english: Option<Seq<char>>,
}

/// The readings of a term, as plain text.
pub struct JyutPingView {
    pub word: Seq<char>,
    pub jyutping: Seq<Seq<char>>,
}

/// One term of an export, as plain text.
pub struct JsonResultView {
    pub name: Seq<char>,
    pub moedict_raw_result: Option<EntryView>,
    pub jyutping: Option<Seq<Seq<char>>>,
}

impl DeepView for MoedictDefinition {
    type V = DefinitionView;

    open spec fn deep_view(&self) -> DefinitionView {
        DefinitionView {
            word_type: self.word_type.deep_view(),
            quote: self.quote.deep_view(),
            example: self.example.deep_view(),
            def: self.def.deep_view(),
            link: self.link.deep_view(),
        }
    }
}

impl View for MoedictDefinition {
    type V = DefinitionView;

    open spec fn view(&self) -> DefinitionView {
        self.deep_view()
    }
}

impl DeepView for MoedictHeteronym {
    type V = HeteronymView;

    open spec fn deep_view(&self) -> HeteronymView {
        HeteronymView {
            pinyin: self.pinyin.deep_view(),
            bopomofo: self.bopomofo.deep_view(),
            definitions: self.definitions.deep_view(),
        }
    }
}

impl View for MoedictHeteronym {
    type V = HeteronymView;

    open spec fn view(&self) -> HeteronymView {
        self.deep_view()
    }
}

impl DeepView for MoedictRawResult {
    type V = EntryView;

    open spec fn deep_view(&self) -> EntryView {
        EntryView {
            title: self.title@,
            translation: match self.translation {
                Some(m) => Some(translation_entries(m)),
                None => None,
            },
            heteronyms: self.heteronyms.deep_view(),
            english: self.english.deep_view(),
        }
    }
}

impl View for MoedictRawResult {
    type V = EntryView;

    open spec fn view(&self) -> EntryView {
        self.deep_view()
    }
}

impl DeepView for MeowdictJyutPingResult {
    type V = JyutPingView;

    open spec fn deep_view(&self) -> JyutPingView {
        JyutPingView { word: self.word@, jyutping: self.jyutping.deep_view() }
    }
}

impl View for MeowdictJyutPingResult {
    type V = JyutPingView;

    open spec fn view(&self) -> JyutPingView {
        self.deep_view()
    }
}

impl DeepView for MeowdictJsonResult {
    type V = JsonResultView;

    open spec fn deep_view(&self) -> JsonResultView {
        JsonResultView {
            name: self.name@,
            moedict_raw_result: self.moedict_raw_result.deep_view(),
            jyutping: self.jyutping.deep_view(),
        }
    }
}

impl View for MeowdictJsonResult {
    type V = JsonResultView;

    open spec fn view(&self) -> JsonResultView {
        self.deep_view()
    }
}

} // verus!
