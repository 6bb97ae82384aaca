//! The interactive console: what a line of input asks for.
//!
//! A line is a list of arguments. Those that begin with a dot are commands;
//! the others are the words to look up, or the value of a mode command.

use vstd::prelude::*;
use vstd::string::*;
use crate::command::{MeowdictResponse, MeowdictRunCommand, OpenccConvertMode, ResponseView};
use crate::error::{ErrorView, MeowdictError};
use crate::text::{prefixed, push_text, same_text};

verus! {

/// The console and the modes that stay in force from line to line.
#[derive(Clone, Copy, Debug, PartialEq, Eq)]
pub struct MeowdictConsole {
    pub input_s2t: bool,
    pub result_t2s: bool,
    pub no_color: bool,
}

/// Whether an argument is a command: it begins with a dot.
pub open spec fn is_command(arg: Seq<char>) -> bool {
    arg.len() > 0 && arg[0] == '.'
}

/// The commands among the arguments, in their order.
pub open spec fn commands_in(argument: Seq<Seq<char>>) -> Seq<Seq<char>>
    decreases argument.len(),
{
    if argument.len() == 0 {
        Seq::empty()
    } else if is_command(argument.last()) {
        commands_in(argument.drop_last()).push(argument.last())
    } else {
        commands_in(argument.drop_last())
    }
}

/// The arguments that are no commands, in their order.
pub open spec fn values_in(argument: Seq<Seq<char>>) -> Seq<Seq<char>>
    decreases argument.len(),
{
    if argument.len() == 0 {
        Seq::empty()
    } else if is_command(argument.last()) {
        values_in(argument.drop_last())
    } else {
        values_in(argument.drop_last()).push(argument.last())
    }
}

/// Whether an argument begins with a dot.
fn starts_with_dot(arg: &str) -> (r: bool)
    ensures
        r == is_command(arg@),
{
    arg.unicode_len() > 0 && arg.get_char(0) == '.'
}

/// Splits the arguments of a line into the commands and the values, each in
/// the order of the line.
pub fn argument_spliter<'a>(argument: Vec<&'a str>) -> (r: (Vec<&'a str>, Vec<&'a str>))
    ensures
        r.0.deep_view() == commands_in(argument.deep_view()),
        r.1.deep_view() == values_in(argument.deep_view()),
{
    let mut values: Vec<&'a str> = Vec::new();
    let mut command: Vec<&'a str> = Vec::new();
    let ghost all = argument.deep_view();
    let mut n: usize = 0;
    assert(all.take(0) =~= Seq::<Seq<char>>::empty());
    assert(command.deep_view() =~= Seq::<Seq<char>>::empty());
    assert(values.deep_view() =~= Seq::<Seq<char>>::empty());
    while n < argument.len()
        invariant
            n <= argument.len(),
            all == argument.deep_view(),
            command.deep_view() == commands_in(all.take(n as int)),
            values.deep_view() == values_in(all.take(n as int)),
        decreases argument.len() - n,
    {
        let arg = argument[n];
        let ghost commands_before = command.deep_view();
        let ghost values_before = values.deep_view();
        proof {
            assert(all.take(n + 1).drop_last() =~= all.take(n as int));
            assert(all.take(n + 1).last() == arg@);
        }
        if starts_with_dot(arg) {
            command.push(arg);
            assert(command.deep_view() =~= commands_before.push(arg@));
        } else {
            values.push(arg);
            assert(values.deep_view() =~= values_before.push(arg@));
        }
        n += 1;
    }
    assert(all.take(n as int) =~= all);
    (command, values)
}

/// Whether `c` is white space: whether it has the Unicode property
/// White_Space. These are the tab, the line feed, the vertical tab, the form
/// feed, the carriage return, the space, the next-line control, the no-break
/// space, the Ogham space mark, the spaces from the en quad to the hair
/// space, the line and paragraph separators, the narrow no-break space, the
/// medium mathematical space and the ideographic space.
pub open spec fn white_space(c: char) -> bool {
    ||| '\u{9}' <= c <= '\u{d}'
    ||| c == ' '
    ||| c == '\u{85}'
    ||| c == '\u{a0}'
    ||| c == '\u{1680}'
    ||| '\u{2000}' <= c <= '\u{200a}'
    ||| c == '\u{2028}'
    ||| c == '\u{2029}'
    ||| c == '\u{202f}'
    ||| c == '\u{205f}'
    ||| c == '\u{3000}'
}

/// `s` without the white space at its start.
pub open spec fn trim_start_of(s: Seq<char>) -> Seq<char>
    decreases s.len(),
{
    if s.len() > 0 && white_space(s[0]) {
        trim_start_of(s.drop_first())
    } else {
        s
    }
}

/// `s` without the white space at its end.
pub open spec fn trim_end_of(s: Seq<char>) -> Seq<char>
    decreases s.len(),
{
    if s.len() > 0 && white_space(s.last()) {
        trim_end_of(s.drop_last())
    } else {
        s
    }
}

/// `s` without the white space at its start and at its end.
pub open spec fn trim_of(s: Seq<char>) -> Seq<char> {
    trim_end_of(trim_start_of(s))
}

/// `char::is_whitespace`: whether the character has the Unicode property
/// White_Space, as its documentation says. The characters that have it are
/// those that `white_space` lists.
#[verifier::external_body]
fn is_whitespace(c: char) -> (b: bool)
    ensures
        b == white_space(c),
{
    c.is_whitespace()
}

/// The text without the white space at its start and at its end.
pub fn trim(s: &str) -> (r: &str)
    ensures
        r@ == trim_of(s@),
{
    let len: usize = s.unicode_len();
    let mut from: usize = 0;
    assert(s@.subrange(0, len as int) =~= s@);
    while from < len && is_whitespace(s.get_char(from))
        invariant
            from <= len,
            len == s@.len(),
            trim_start_of(s@) == trim_start_of(s@.subrange(from as int, len as int)),
        decreases len - from,
    {
        assert(s@.subrange(from as int, len as int).drop_first() =~= s@.subrange(
            from + 1,
            len as int,
        ));
        from += 1;
    }
    let mut to: usize = len;
    while to > from && is_whitespace(s.get_char(to - 1))
        invariant
            from <= to <= len,
            len == s@.len(),
            trim_start_of(s@) == s@.subrange(from as int, len as int),
            trim_of(s@) == trim_end_of(s@.subrange(from as int, to as int)),
        decreases to - from,
    {
        assert(s@.subrange(from as int, to as int).drop_last() =~= s@.subrange(
            from as int,
            to - 1,
        ));
        to -= 1;
    }
    s.substring_char(from, to)
}

/// The arguments found so far in a line, and the argument that is being
/// read.
pub struct Scan {
    pub done: Seq<Seq<char>>,
    pub open: Seq<char>,
}

/// Reads one more character of a line: a space ends the argument that is
/// being read, if there is one, and any other character goes on with it.
pub open spec fn scan_char(scan: Scan, c: char) -> Scan {
    if c == ' ' {
        if scan.open.len() > 0 {
            Scan { done: scan.done.push(scan.open), open: Seq::empty() }
        } else {
            scan
        }
    } else {
        Scan { done: scan.done, open: scan.open.push(c) }
    }
}

/// What has been read after the first `n` characters of `s`.
pub open spec fn scan_of(s: Seq<char>, n: nat) -> Scan
    decreases n,
{
    if n == 0 {
        Scan { done: Seq::empty(), open: Seq::empty() }
    } else {
        scan_char(scan_of(s, (n - 1) as nat), s[n - 1])
    }
}

/// The arguments of a line: the runs of characters between spaces, empty
/// runs left out.
pub open spec fn arguments_of(s: Seq<char>) -> Seq<Seq<char>> {
    let scan = scan_of(s, s.len());
    if scan.open.len() > 0 {
        scan.done.push(scan.open)
    } else {
        scan.done
    }
}

/// Splits a line of input into its arguments: the line is trimmed and then
/// cut at its spaces.
pub fn split_line(line: &str) -> (r: Vec<&str>)
    ensures
        r.deep_view() == arguments_of(trim_of(line@)),
{
    let text = trim(line);
    let len: usize = text.unicode_len();
    let mut found: Vec<&str> = Vec::new();
    let mut start: usize = 0;
    let mut n: usize = 0;
    assert(found.deep_view() =~= scan_of(text@, 0).done);
    assert(text@.subrange(0, 0) =~= scan_of(text@, 0).open);
    while n < len
        invariant
            start <= n <= len,
            len == text@.len(),
            found.deep_view() == scan_of(text@, n as nat).done,
            text@.subrange(start as int, n as int) == scan_of(text@, n as nat).open,
        decreases len - n,
    {
        let c = text.get_char(n);
        let ghost before = found.deep_view();
        if c == ' ' {
            if n > start {
                let part = text.substring_char(start, n);
                found.push(part);
                assert(found.deep_view() =~= before.push(part@));
            }
            start = n + 1;
            assert(text@.subrange(start as int, n + 1) =~= Seq::<char>::empty());
        } else {
            assert(text@.subrange(start as int, n + 1) =~= text@.subrange(
                start as int,
                n as int,
            ).push(c));
        }
        n += 1;
    }
    if n > start {
        let ghost before = found.deep_view();
        let part = text.substring_char(start, n);
        found.push(part);
        assert(found.deep_view() =~= before.push(part@));
    }
    found
}

/// The line that tells of a change of mode.
pub open spec fn mode_line(mode: OpenccConvertMode, enable: bool) -> Seq<char> {
    match mode {
        OpenccConvertMode::S2T => if enable {
            "Setting input mode ..."@
        } else {
            "Unsetting input mode ..."@
        },
        OpenccConvertMode::T2S => if enable {
            "Setting result mode..."@
        } else {
            "Unsetting result mode..."@
        },
    }
}

/// The greeting of the console of the given version of the program.
pub fn welcome(version: &str) -> (r: String)
    ensures
        r@ == "Welcome to meowdict "@ + version@ + "!\nPlease enter .help for more information"@,
{
    let mut r = prefixed("Welcome to meowdict ", version);
    r.append("!\nPlease enter .help for more information");
    r
}

/// The text that `.help` shows.
pub open spec fn usage_text() -> Seq<char> {
    "Usage:\n[WORDS]\n.show [WORDS]\n.rand(random)\n.rand(random) [WORDS]\n.jyut(jyutping) [WORDS]\n.trans(translate) [WORDS]\n.show .input_s2t [WORDS]\n.show .result_t2s [WORDS]\n.set_input_s2t_mode [on|off]\n.set_result_t2s_mode [on|off]\n"@
}

/// The text that `.help` shows.
pub fn usage() -> (r: String)
    ensures
        r@ == usage_text(),
{
    String::from_str(
        "Usage:\n[WORDS]\n.show [WORDS]\n.rand(random)\n.rand(random) [WORDS]\n.jyut(jyutping) [WORDS]\n.trans(translate) [WORDS]\n.show .input_s2t [WORDS]\n.show .result_t2s [WORDS]\n.set_input_s2t_mode [on|off]\n.set_result_t2s_mode [on|off]\n",
    )
}

/// Why the reading of a line stopped before its end.
pub enum Halt {
    /// A mode command came without a value.
    Stuck,
    /// The line makes no sense; the text says why.
    Failed(Seq<char>),
}

/// What is known of a line while its commands are read.
pub struct TurnView {
    /// The modes of the console, as the line has left them so far.
    pub input_s2t: bool,
    pub result_t2s: bool,
    /// What the line asks for this once.
    pub command_input_s2t: bool,
    pub command_result_t2s: bool,
    /// The kind of answer that the line asks for, if it says so.
    pub run: Option<MeowdictRunCommand>,
    /// What is to be shown to the user at once.
    pub output: Seq<Seq<char>>,
    pub halt: Option<Halt>,
}

/// The kind of answer that a command asks for, if it asks for one.
pub open spec fn query_of(arg: Seq<char>) -> Option<MeowdictRunCommand> {
    if arg == ".show"@ {
        Some(MeowdictRunCommand::Show)
    } else if arg == ".translate"@ || arg == ".trans"@ {
        Some(MeowdictRunCommand::Translate)
    } else if arg == ".jyutping"@ || arg == ".jyut"@ {
        Some(MeowdictRunCommand::JyutPing)
    } else if arg == ".random"@ || arg == ".rand"@ {
        Some(MeowdictRunCommand::Random)
    } else {
        None
    }
}

/// The mode that a command switches, if it switches one.
pub open spec fn mode_of(arg: Seq<char>) -> Option<OpenccConvertMode> {
    if arg == ".set_input_s2t_mode"@ {
        Some(OpenccConvertMode::S2T)
    } else if arg == ".set_result_t2s_mode"@ {
        Some(OpenccConvertMode::T2S)
    } else {
        None
    }
}

/// What the value of a mode command says, if it says anything.
pub open spec fn switch_of(value: Seq<char>) -> Option<bool> {
    if value == "on"@ {
        Some(true)
    } else if value == "off"@ {
        Some(false)
    } else {
        None
    }
}

/// The reading of a line stopped with the given message.
pub open spec fn failed(t: TurnView, why: Seq<char>) -> TurnView {
    TurnView { halt: Some(Halt::Failed(why)), ..t }
}

/// Reads one command of a line. Nothing is read once the reading has
/// stopped. A line may ask for one kind of answer only, and may not switch a
/// mode once it has asked for one. A mode command takes the first value of
/// the line, `on` or `off`, changes the mode of the console at once and says
/// so.
pub open spec fn take_arg(t: TurnView, arg: Seq<char>, values: Seq<Seq<char>>) -> TurnView {
    if t.halt is Some {
        t
    } else if query_of(arg) is Some {
        if t.run is Some {
            failed(t, "Cannot perform multiple queries!"@)
        } else {
            TurnView { run: query_of(arg), ..t }
        }
    } else if arg == ".input_s2t"@ {
        TurnView { command_input_s2t: true, ..t }
    } else if arg == ".result_t2s"@ {
        TurnView { command_result_t2s: true, ..t }
    } else if mode_of(arg) is Some {
        if t.run is Some {
            failed(t, "Cannot perform multiple queries!"@)
        } else if values.len() == 0 {
            TurnView { halt: Some(Halt::Stuck), ..t }
        } else {
            match switch_of(values[0]) {
                Some(enable) => match mode_of(arg)->0 {
                    OpenccConvertMode::S2T => TurnView {
                        input_s2t: enable,
                        output: t.output.push(mode_line(OpenccConvertMode::S2T, enable)),
                        ..t
                    },
                    OpenccConvertMode::T2S => TurnView {
                        result_t2s: enable,
                        output: t.output.push(mode_line(OpenccConvertMode::T2S, enable)),
                        ..t
                    },
                },
                None => failed(t, "unsupport mode!"@),
            }
        }
    } else if arg == ".help"@ {
        TurnView { output: t.output.push(usage_text()), ..t }
    } else {
        failed(t, "Invaild argument: "@ + arg + "!"@)
    }
}

/// What is known of a line before its commands are read: a line of words
/// without commands asks for the dictionary view.
pub open spec fn turn_start(console: MeowdictConsole, commands: nat, values: nat) -> TurnView {
    TurnView {
        input_s2t: console.input_s2t,
        result_t2s: console.result_t2s,
        command_input_s2t: false,
        command_result_t2s: false,
        run: if commands == 0 && values > 0 {
            Some(MeowdictRunCommand::Show)
        } else {
            None
        },
        output: Seq::empty(),
        halt: None,
    }
}

/// What is known of a line after its first `n` commands.
pub open spec fn turn_after(
    console: MeowdictConsole,
    args: Seq<Seq<char>>,
    values: Seq<Seq<char>>,
    n: nat,
) -> TurnView
    decreases n,
{
    if n == 0 {
        turn_start(console, args.len(), values.len())
    } else {
        take_arg(turn_after(console, args, values, (n - 1) as nat), args[n - 1], values)
    }
}

/// The request that a line comes to, if it comes to one: words without a
/// command ask for the dictionary view, and a line without words and
/// without a command asks for nothing.
pub open spec fn request_of(t: TurnView, no_color: bool, values: Seq<Seq<char>>) -> Option<
    ResponseView,
> {
    let run = if t.run is None && values.len() > 0 {
        Some(MeowdictRunCommand::Show)
    } else {
        t.run
    };
    match run {
        Some(command) => Some(
            ResponseView {
                command,
                input_s2t: t.command_input_s2t || t.input_s2t,
                result_t2s: t.command_result_t2s || t.result_t2s,
                no_color,
                words: if values.len() > 0 {
                    Some(values)
                } else {
                    None
                },
            },
        ),
        None => None,
    }
}

/// What a line of input came to: what is to be shown at once, and the
/// request to answer, if there is one, or the reason why the line was
/// refused.
#[derive(Debug, PartialEq, Eq)]
pub struct ConsoleTurn {
    pub output: Vec<String>,
    pub request: Result<Option<MeowdictResponse>, MeowdictError>,
}

/// Why the reading of a line stopped before its end.
enum Stop {
    Stuck,
    Failed(String),
}

/// What is known of a line while its commands are read.
struct Turn {
    input_s2t: bool,
    result_t2s: bool,
    command_input_s2t: bool,
    command_result_t2s: bool,
    run: Option<MeowdictRunCommand>,
    output: Vec<String>,
    halt: Option<Stop>,
}

impl Turn {
    spec fn model(&self) -> TurnView {
        TurnView {
            input_s2t: self.input_s2t,
            result_t2s: self.result_t2s,
            command_input_s2t: self.command_input_s2t,
            command_result_t2s: self.command_result_t2s,
            run: self.run,
            output: self.output.deep_view(),
            halt: match self.halt {
                Some(Stop::Stuck) => Some(Halt::Stuck),
                Some(Stop::Failed(why)) => Some(Halt::Failed(why@)),
                None => None,
            },
        }
    }
}

/// The kind of answer that a command asks for.
fn query_for(arg: &str) -> (r: Option<MeowdictRunCommand>)
    ensures
        r == query_of(arg@),
{
    if same_text(arg, ".show") {
        Some(MeowdictRunCommand::Show)
    } else if same_text(arg, ".translate") || same_text(arg, ".trans") {
        Some(MeowdictRunCommand::Translate)
    } else if same_text(arg, ".jyutping") || same_text(arg, ".jyut") {
        Some(MeowdictRunCommand::JyutPing)
    } else if same_text(arg, ".random") || same_text(arg, ".rand") {
        Some(MeowdictRunCommand::Random)
    } else {
        None
    }
}

/// The mode that a command switches.
fn mode_for(arg: &str) -> (r: Option<OpenccConvertMode>)
    ensures
        r == mode_of(arg@),
{
    if same_text(arg, ".set_input_s2t_mode") {
        Some(OpenccConvertMode::S2T)
    } else if same_text(arg, ".set_result_t2s_mode") {
        Some(OpenccConvertMode::T2S)
    } else {
        None
    }
}

/// What the value of a mode command says.
fn switch_for(value: &str) -> (r: Option<bool>)
    ensures
        r == switch_of(value@),
{
    if same_text(value, "on") {
        Some(true)
    } else if same_text(value, "off") {
        Some(false)
    } else {
        None
    }
}

impl MeowdictConsole {
    /// Switches a mode of the console on or off, and returns the line that
    /// says so.
    pub fn set_console_mode(&mut self, t: &OpenccConvertMode, enable: bool) -> (line: String)
        ensures
            line@ == mode_line(*t, enable),
            final(self).no_color == old(self).no_color,
            match *t {
                OpenccConvertMode::S2T => final(self).input_s2t == enable && final(self).result_t2s
                    == old(self).result_t2s,
                OpenccConvertMode::T2S => final(self).result_t2s == enable && final(self).input_s2t
                    == old(self).input_s2t,
            },
    {
        match t {
            OpenccConvertMode::S2T => {
                self.input_s2t = enable;
                if enable {
                    String::from_str("Setting input mode ...")
                } else {
                    String::from_str("Unsetting input mode ...")
                }
            },
            OpenccConvertMode::T2S => {
                self.result_t2s = enable;
                if enable {
                    String::from_str("Setting result mode...")
                } else {
                    String::from_str("Unsetting result mode...")
                }
            },
        }
    }
}

/// Reads one command of a line.
fn take(turn: Turn, arg: &str, values: &Vec<&str>) -> (r: Turn)
    ensures
        r.model() == take_arg(turn.model(), arg@, values.deep_view()),
{
    let mut turn = turn;
    if turn.halt.is_some() {
        return turn;
    }
    let query = query_for(arg);
    let mode = mode_for(arg);
    if query.is_some() {
        if turn.run.is_some() {
            turn.halt = Some(Stop::Failed(String::from_str("Cannot perform multiple queries!")));
        } else {
            turn.run = query;
        }
    } else if same_text(arg, ".input_s2t") {
        turn.command_input_s2t = true;
    } else if same_text(arg, ".result_t2s") {
        turn.command_result_t2s = true;
    } else if mode.is_some() {
        if turn.run.is_some() {
            turn.halt = Some(Stop::Failed(String::from_str("Cannot perform multiple queries!")));
        } else if values.len() == 0 {
            turn.halt = Some(Stop::Stuck);
        } else {
            assert(values.deep_view()[0] == values[0]@);
            match switch_for(values[0]) {
                Some(enable) => {
                    let mut console = MeowdictConsole {
                        input_s2t: turn.input_s2t,
                        result_t2s: turn.result_t2s,
                        no_color: false,
                    };
                    let which = mode.unwrap();
                    let line = console.set_console_mode(&which, enable);
                    turn.input_s2t = console.input_s2t;
                    turn.result_t2s = console.result_t2s;
                    push_text(&mut turn.output, line);
                },
                None => {
                    turn.halt = Some(Stop::Failed(String::from_str("unsupport mode!")));
                },
            }
        }
    } else if same_text(arg, ".help") {
        push_text(&mut turn.output, usage());
    } else {
        let mut why = prefixed("Invaild argument: ", arg);
        why.append("!");
        turn.halt = Some(Stop::Failed(why));
    }
    turn
}

/// The words of a line, as texts of their own.
fn owned_words(values: &Vec<&str>) -> (r: Vec<String>)
    ensures
        r.deep_view() == values.deep_view(),
{
    let mut r: Vec<String> = Vec::new();
    let mut i: usize = 0;
    assert(r.deep_view() =~= values.deep_view().take(0));
    while i < values.len()
        invariant
            i <= values.len(),
            r.deep_view() == values.deep_view().take(i as int),
        decreases values.len() - i,
    {
        push_text(&mut r, String::from_str(values[i]));
        assert(r.deep_view() =~= values.deep_view().take(i + 1));
        i += 1;
    }
    assert(values.deep_view().take(i as int) =~= values.deep_view());
    r
}

impl MeowdictConsole {
    /// Reads the commands and values of one line of input.
    ///
    /// The commands are read in order, and a mode command changes the mode
    /// of the console at once, so that it stays changed where a later
    /// command is refused. Returns `None` where a mode command is reached
    /// and the line has no value for it.
    pub fn args_runner(&mut self, args: &Vec<&str>, values: &Vec<&str>) -> (r: Option<ConsoleTurn>)
        ensures
            ({
                let t = turn_after(
                    *old(self),
                    args.deep_view(),
                    values.deep_view(),
                    args.deep_view().len(),
                );
                &&& final(self).input_s2t == t.input_s2t
                &&& final(self).result_t2s == t.result_t2s
                &&& final(self).no_color == old(self).no_color
                &&& r is None <==> t.halt == Some(Halt::Stuck)
                &&& r matches Some(turn) ==> turn.output.deep_view() == t.output && match t.halt {
                    Some(Halt::Failed(why)) => turn.request matches Err(e) && e.deep_view()
                        == ErrorView::InvalidArgument(why),
                    _ => turn.request matches Ok(request) && request.deep_view() == request_of(
                        t,
                        old(self).no_color,
                        values.deep_view(),
                    ),
                }
            }),
    {
        let ghost console = *self;
        let ghost commands = args.deep_view();
        let ghost words = values.deep_view();
        let run = if args.len() == 0 && values.len() > 0 {
            Some(MeowdictRunCommand::Show)
        } else {
            None
        };
        let mut turn = Turn {
            input_s2t: self.input_s2t,
            result_t2s: self.result_t2s,
            command_input_s2t: false,
            command_result_t2s: false,
            run,
            output: Vec::new(),
            halt: None,
        };
        assert(turn.output.deep_view() =~= Seq::<Seq<char>>::empty());
        let mut n: usize = 0;
        while n < args.len()
            invariant
                n <= args.len(),
                commands == args.deep_view(),
                words == values.deep_view(),
                turn.model() == turn_after(console, commands, words, n as nat),
            decreases args.len() - n,
        {
            assert(commands[n as int] == args[n as int]@);
            turn = take(turn, args[n], values);
            n += 1;
        }
        self.input_s2t = turn.input_s2t;
        self.result_t2s = turn.result_t2s;
        match turn.halt {
            Some(Stop::Stuck) => None,
            Some(Stop::Failed(why)) => Some(
                ConsoleTurn { output: turn.output, request: Err(MeowdictError::InvalidArgument(why)) },
            ),
            None => {
                let run = if turn.run.is_none() && values.len() > 0 {
                    Some(MeowdictRunCommand::Show)
                } else {
                    turn.run
                };
                let request = match run {
                    Some(command) => {
                        let words = if values.len() > 0 {
                            Some(owned_words(values))
                        } else {
                            None
                        };
                        Some(
                            MeowdictResponse {
                                command,
                                input_s2t: turn.command_input_s2t || turn.input_s2t,
                                result_t2s: turn.command_result_t2s || turn.result_t2s,
                                no_color: self.no_color,
                                words,
                            },
                        )
                    },
                    None => None,
                };
                Some(ConsoleTurn { output: turn.output, request: Ok(request) })
            },
        }
    }
}

impl MeowdictConsole {
    /// Reads one line of input: splits it into its arguments, these into
    /// commands and values, and reads those as `args_runner` does. An empty
    /// line asks for nothing.
    pub fn read_line(&mut self, line: &str) -> (r: Option<ConsoleTurn>)
        ensures
            ({
                let argument = arguments_of(trim_of(line@));
                let args = commands_in(argument);
                let values = values_in(argument);
                let t = turn_after(*old(self), args, values, args.len());
                &&& final(self).input_s2t == t.input_s2t
                &&& final(self).result_t2s == t.result_t2s
                &&& final(self).no_color == old(self).no_color
                &&& r is None <==> t.halt == Some(Halt::Stuck)
                &&& r matches Some(turn) ==> turn.output.deep_view() == t.output && match t.halt {
                    Some(Halt::Failed(why)) => turn.request matches Err(e) && e.deep_view()
                        == ErrorView::InvalidArgument(why),
                    _ => turn.request matches Ok(request) && request.deep_view() == request_of(
                        t,
                        old(self).no_color,
                        values,
                    ),
                }
            }),
    {
        let (args, values) = argument_spliter(split_line(line));
        self.args_runner(&args, &values)
    }
}

} // verus!
