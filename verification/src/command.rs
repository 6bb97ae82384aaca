//! What a run of the program is asked to do.

use vstd::prelude::*;
use vstd::string::*;
use crate::render::{strip_escapes, without_escapes};
use crate::text::same_text;

verus! {

/// The kind of answer that is asked for.
#[derive(Clone, Copy, Debug, PartialEq, Eq)]
pub enum MeowdictRunCommand {
    Show,
    Translate,
    JyutPing,
    Json,
    Random,
}

/// A direction of script conversion: Simplified to Traditional, or back.
#[derive(Clone, Copy, Debug, PartialEq, Eq)]
pub enum OpenccConvertMode {
    S2T,
    T2S,
}

/// The settings that are kept between runs.
#[derive(Clone, Copy, Debug, PartialEq, Eq)]
pub struct MeowdictConfig {
    pub input_s2t: bool,
    pub result_t2s: bool,
    pub no_color: bool,
}

impl Default for MeowdictConfig {
    /// Nothing is converted and the output is coloured.
    fn default() -> (r: MeowdictConfig)
        ensures
            !r.input_s2t,
            !r.result_t2s,
            !r.no_color,
    {
        MeowdictConfig { input_s2t: false, result_t2s: false, no_color: false }
    }
}

/// One request: the command, the settings in force and the words given.
#[derive(Clone, Debug, PartialEq, Eq)]
pub struct MeowdictRunStatus {
    pub run_command: MeowdictRunCommand,
    pub input_s2t: bool,
    pub result_t2s: bool,
    pub no_color: bool,
    pub words: Option<Vec<String>>,
}

/// One request that is being answered.
#[derive(Clone, Debug, PartialEq, Eq)]
pub struct MeowdictResponse {
    pub command: MeowdictRunCommand,
    /// Whether the words are converted to Traditional Chinese before they
    /// are looked up.
    pub input_s2t: bool,
    /// Whether the answer is converted to Simplified Chinese before it is
    /// shown.
    pub result_t2s: bool,
    /// Whether the answer is shown without colours.
    pub no_color: bool,
    pub words: Option<Vec<String>>,
}

/// A request, as plain text.
pub struct ResponseView {
    pub command: MeowdictRunCommand,
    pub input_s2t: bool,
    pub result_t2s: bool,
    pub no_color: bool,
    pub words: Option<Seq<Seq<char>>>,
}

impl DeepView for MeowdictResponse {
    type V = ResponseView;

    open spec fn deep_view(&self) -> ResponseView {
        ResponseView {
            command: self.command,
            input_s2t: self.input_s2t,
            result_t2s: self.result_t2s,
            no_color: self.no_color,
            words: self.words.deep_view(),
        }
    }
}

impl View for MeowdictResponse {
    type V = ResponseView;

    open spec fn view(&self) -> ResponseView {
        self.deep_view()
    }
}

/// Where the text of an answer comes from.
#[derive(Clone, Copy, Debug, PartialEq, Eq)]
pub enum Answer {
    /// The dictionary view of the records of the words.
    Dictionary,
    /// The translations in the records of the words.
    Translation,
    /// The readings of the words.
    Readings,
    /// The export of records and readings.
    Export,
    /// The dictionary view of the records of terms picked at random.
    RandomDictionary,
}

/// The steps that answer a request, in the order in which they are taken.
#[derive(Clone, Copy, Debug, PartialEq, Eq)]
pub struct RunPlan {
    /// Convert the words to Traditional Chinese first.
    pub convert_words: bool,
    pub answer: Answer,
    /// Take the colours out of the answer.
    pub strip_colours: bool,
    /// Convert the answer to Simplified Chinese last.
    pub convert_answer: bool,
}

/// The steps that answer the request `r`.
pub open spec fn plan_of(r: ResponseView) -> RunPlan {
    RunPlan {
        convert_words: r.input_s2t && r.words is Some,
        answer: match r.command {
            MeowdictRunCommand::Show => Answer::Dictionary,
            MeowdictRunCommand::Translate => Answer::Translation,
            MeowdictRunCommand::JyutPing => Answer::Readings,
            MeowdictRunCommand::Json => Answer::Export,
            MeowdictRunCommand::Random => Answer::RandomDictionary,
        },
        strip_colours: r.no_color,
        convert_answer: r.result_t2s,
    }
}

impl MeowdictResponse {
    /// Lays out how the request is answered: whether the words are converted
    /// first, what is fetched and shown, and what is done to the text.
    pub fn match_command_to_run(&self) -> (plan: RunPlan)
        ensures
            plan == plan_of(self.deep_view()),
    {
        RunPlan {
            convert_words: self.input_s2t && self.words.is_some(),
            answer: match self.command {
                MeowdictRunCommand::Show => Answer::Dictionary,
                MeowdictRunCommand::Translate => Answer::Translation,
                MeowdictRunCommand::JyutPing => Answer::Readings,
                MeowdictRunCommand::Json => Answer::Export,
                MeowdictRunCommand::Random => Answer::RandomDictionary,
            },
            strip_colours: self.no_color,
            convert_answer: self.result_t2s,
        }
    }

    /// The answer as it is handed on for display: without its colours where
    /// the request asks for that, else as it is.
    pub fn setup_result(&self, result: &str) -> (r: String)
        ensures
            r@ == if self.no_color {
                without_escapes(result@)
            } else {
                result@
            },
    {
        if self.no_color {
            strip_escapes(result)
        } else {
            String::from_str(result)
        }
    }
}

/// Whether the program is to open its console: it was given neither words
/// nor a subcommand, or the subcommand `terminal`.
pub fn is_meowdict_terminal(has_input: bool, subcommand: Option<&str>) -> (r: bool)
    ensures
        r == match subcommand {
            None => !has_input,
            Some(name) => name@ == "terminal"@,
        },
{
    match subcommand {
        None => !has_input,
        Some(name) => same_text(name, "terminal"),
    }
}

/// The settings for a run: what the stored settings ask for, and what the
/// command line asks for on top of them.
pub fn effective_config(stored: MeowdictConfig, asked: MeowdictConfig) -> (r: MeowdictConfig)
    ensures
        r.input_s2t == (stored.input_s2t || asked.input_s2t),
        r.result_t2s == (stored.result_t2s || asked.result_t2s),
        r.no_color == (stored.no_color || asked.no_color),
{
    MeowdictConfig {
        input_s2t: stored.input_s2t || asked.input_s2t,
        result_t2s: stored.result_t2s || asked.result_t2s,
        no_color: stored.no_color || asked.no_color,
    }
}

/// The command that a subcommand of the command line stands for, if it
/// stands for one.
pub fn subcommand_of(name: &str) -> (r: Option<MeowdictRunCommand>)
    ensures
        r == if name@ == "show"@ {
            Some(MeowdictRunCommand::Show)
        } else if name@ == "translate"@ {
            Some(MeowdictRunCommand::Translate)
        } else if name@ == "jyutping"@ {
            Some(MeowdictRunCommand::JyutPing)
        } else if name@ == "random"@ {
            Some(MeowdictRunCommand::Random)
        } else {
            None
        },
{
    if same_text(name, "show") {
        Some(MeowdictRunCommand::Show)
    } else if same_text(name, "translate") {
        Some(MeowdictRunCommand::Translate)
    } else if same_text(name, "jyutping") {
        Some(MeowdictRunCommand::JyutPing)
    } else if same_text(name, "random") {
        Some(MeowdictRunCommand::Random)
    } else {
        None
    }
}

} // verus!
