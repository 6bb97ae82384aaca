use meowdict::command::{
    effective_config, is_meowdict_terminal, subcommand_of, Answer, MeowdictConfig,
    MeowdictResponse, MeowdictRunCommand, OpenccConvertMode,
};
use meowdict::error::MeowdictError;
use meowdict::repl::{
    argument_spliter, split_line, trim, usage, welcome, ConsoleTurn, MeowdictConsole,
};

fn console() -> MeowdictConsole {
    MeowdictConsole { input_s2t: false, result_t2s: false, no_color: false }
}

fn request(command: MeowdictRunCommand, words: &[&str]) -> MeowdictResponse {
    MeowdictResponse {
        command,
        input_s2t: false,
        result_t2s: false,
        no_color: false,
        words: if words.is_empty() {
            None
        } else {
            Some(words.iter().map(|w| w.to_string()).collect())
        },
    }
}

#[test]
fn test_argument_splitter() {
    let argument = ".jyut 我";
    let (command, values) = argument_spliter(argument.split_whitespace().collect::<Vec<_>>());

    assert_eq!(vec![".jyut"], command);
    assert_eq!(vec!["我"], values);
}

#[test]
fn splitter_keeps_the_order_of_each_kind() {
    let (command, values) = argument_spliter(vec!["甲", ".show", "", "乙", ".input_s2t", "a.b"]);
    assert_eq!(command, vec![".show", ".input_s2t"]);
    assert_eq!(values, vec!["甲", "", "乙", "a.b"]);
    let (command, values) = argument_spliter(Vec::new());
    assert!(command.is_empty() && values.is_empty());
}

#[test]
fn words_alone_ask_for_the_dictionary_view() {
    let mut c = console();
    let turn = c.args_runner(&vec![], &vec!["我", "你"]).unwrap();
    assert_eq!(
        turn,
        ConsoleTurn {
            output: vec![],
            request: Ok(Some(request(MeowdictRunCommand::Show, &["我", "你"]))),
        }
    );
}

#[test]
fn commands_choose_the_kind_of_answer() {
    for (arg, command) in [
        (".show", MeowdictRunCommand::Show),
        (".translate", MeowdictRunCommand::Translate),
        (".trans", MeowdictRunCommand::Translate),
        (".jyutping", MeowdictRunCommand::JyutPing),
        (".jyut", MeowdictRunCommand::JyutPing),
        (".random", MeowdictRunCommand::Random),
        (".rand", MeowdictRunCommand::Random),
    ] {
        let mut c = console();
        let turn = c.args_runner(&vec![arg], &vec!["我"]).unwrap();
        assert_eq!(turn.request, Ok(Some(request(command, &["我"]))));
        assert!(turn.output.is_empty());
    }
    let mut c = console();
    let turn = c.args_runner(&vec![".rand"], &vec![]).unwrap();
    assert_eq!(turn.request, Ok(Some(request(MeowdictRunCommand::Random, &[]))));
}

#[test]
fn one_time_flags_add_to_the_modes_of_the_console() {
    let mut c = MeowdictConsole { input_s2t: false, result_t2s: true, no_color: true };
    let turn = c.args_runner(&vec![".show", ".input_s2t"], &vec!["老师"]).unwrap();
    let mut expected = request(MeowdictRunCommand::Show, &["老师"]);
    expected.input_s2t = true;
    expected.result_t2s = true;
    expected.no_color = true;
    assert_eq!(turn.request, Ok(Some(expected)));
    assert_eq!(c, MeowdictConsole { input_s2t: false, result_t2s: true, no_color: true });
}

#[test]
fn two_queries_on_one_line_are_refused() {
    let mut c = console();
    let turn = c.args_runner(&vec![".show", ".jyut"], &vec!["我"]).unwrap();
    assert_eq!(
        turn.request,
        Err(MeowdictError::InvalidArgument("Cannot perform multiple queries!".to_string()))
    );
}

#[test]
fn unknown_command_is_refused() {
    let mut c = console();
    let turn = c.args_runner(&vec![".bogus"], &vec![]).unwrap();
    let error = turn.request.unwrap_err();
    assert_eq!(error, MeowdictError::InvalidArgument("Invaild argument: .bogus!".to_string()));
    assert_eq!(error.message(), "Invaild argument: .bogus!");
}

#[test]
fn mode_command_switches_the_console_and_says_so() {
    let mut c = console();
    let turn = c.args_runner(&vec![".set_input_s2t_mode"], &vec!["on"]).unwrap();
    assert!(c.input_s2t && !c.result_t2s);
    assert_eq!(turn.output, vec!["Setting input mode ...".to_string()]);
    // The value of the mode command is then looked up like any other word,
    // with the mode that was just set.
    let mut expected = request(MeowdictRunCommand::Show, &["on"]);
    expected.input_s2t = true;
    assert_eq!(turn.request, Ok(Some(expected)));

    let turn = c.args_runner(&vec![".set_result_t2s_mode", ".set_input_s2t_mode"], &vec!["off"]);
    assert_eq!(
        turn.unwrap().output,
        vec!["Unsetting result mode...".to_string(), "Unsetting input mode ...".to_string()]
    );
    assert!(!c.input_s2t && !c.result_t2s);
}

#[test]
fn mode_command_with_a_bad_value_is_refused() {
    let mut c = console();
    let turn = c.args_runner(&vec![".set_result_t2s_mode"], &vec!["maybe"]).unwrap();
    assert_eq!(turn.request, Err(MeowdictError::InvalidArgument("unsupport mode!".to_string())));
    assert!(!c.result_t2s);
}

#[test]
fn mode_change_stays_when_a_later_command_is_refused() {
    let mut c = console();
    let turn = c.args_runner(&vec![".set_result_t2s_mode", ".bogus"], &vec!["on"]).unwrap();
    assert!(turn.request.is_err());
    assert!(c.result_t2s);
    assert_eq!(turn.output, vec!["Setting result mode...".to_string()]);
}

#[test]
fn mode_command_after_a_query_is_refused() {
    let mut c = console();
    let turn = c.args_runner(&vec![".show", ".set_input_s2t_mode"], &vec!["on"]).unwrap();
    assert_eq!(
        turn.request,
        Err(MeowdictError::InvalidArgument("Cannot perform multiple queries!".to_string()))
    );
    assert!(!c.input_s2t);
}

#[test]
fn mode_command_without_a_value_cannot_be_read() {
    let mut c = console();
    assert_eq!(c.args_runner(&vec![".set_input_s2t_mode"], &vec![]), None);
    // A command that is refused earlier on the line is reported instead.
    let turn = c.args_runner(&vec![".bogus", ".set_input_s2t_mode"], &vec![]).unwrap();
    assert!(turn.request.is_err());
}

#[test]
fn help_shows_the_usage_and_asks_for_nothing() {
    let mut c = console();
    let turn = c.args_runner(&vec![".help"], &vec![]).unwrap();
    assert_eq!(turn.output, vec![usage()]);
    assert_eq!(turn.request, Ok(None));
    assert!(usage().starts_with("Usage:\n[WORDS]\n.show [WORDS]\n"));
    assert!(usage().ends_with(".set_result_t2s_mode [on|off]\n"));
}

#[test]
fn set_console_mode_returns_the_line_to_show() {
    let mut c = console();
    assert_eq!(c.set_console_mode(&OpenccConvertMode::S2T, true), "Setting input mode ...");
    assert_eq!(c.set_console_mode(&OpenccConvertMode::T2S, true), "Setting result mode...");
    assert!(c.input_s2t && c.result_t2s);
    assert_eq!(c.set_console_mode(&OpenccConvertMode::S2T, false), "Unsetting input mode ...");
    assert_eq!(c.set_console_mode(&OpenccConvertMode::T2S, false), "Unsetting result mode...");
    assert_eq!(c, console());
}

#[test]
fn plan_follows_the_request() {
    let mut r = request(MeowdictRunCommand::JyutPing, &["我"]);
    r.input_s2t = true;
    r.no_color = true;
    let plan = r.match_command_to_run();
    assert!(plan.convert_words && plan.strip_colours && !plan.convert_answer);
    assert_eq!(plan.answer, Answer::Readings);

    let mut r = request(MeowdictRunCommand::Random, &[]);
    r.input_s2t = true;
    r.result_t2s = true;
    let plan = r.match_command_to_run();
    assert!(!plan.convert_words && !plan.strip_colours && plan.convert_answer);
    assert_eq!(plan.answer, Answer::RandomDictionary);
    assert_eq!(request(MeowdictRunCommand::Show, &[]).match_command_to_run().answer, Answer::Dictionary);
    assert_eq!(
        request(MeowdictRunCommand::Translate, &[]).match_command_to_run().answer,
        Answer::Translation
    );
    assert_eq!(request(MeowdictRunCommand::Json, &[]).match_command_to_run().answer, Answer::Export);
}

#[test]
fn setup_result_strips_colours_on_request() {
    let coloured = "\u{1b}[38;2;178;143;206m我：\u{1b}[39m\n\u{1b}[38;2;168;216;165mngo5\u{1b}[39m";
    let mut r = request(MeowdictRunCommand::JyutPing, &["我"]);
    assert_eq!(r.setup_result(coloured), coloured);
    r.no_color = true;
    assert_eq!(r.setup_result(coloured), "我：\nngo5");
}

#[test]
fn console_opens_without_words_and_subcommand() {
    assert!(is_meowdict_terminal(false, None));
    assert!(!is_meowdict_terminal(true, None));
    assert!(is_meowdict_terminal(false, Some("terminal")));
    assert!(is_meowdict_terminal(true, Some("terminal")));
    assert!(!is_meowdict_terminal(false, Some("show")));
}

#[test]
fn settings_of_file_and_command_line_add_up() {
    let stored = MeowdictConfig { input_s2t: true, result_t2s: false, no_color: false };
    let asked = MeowdictConfig { input_s2t: false, result_t2s: false, no_color: true };
    assert_eq!(
        effective_config(stored, asked),
        MeowdictConfig { input_s2t: true, result_t2s: false, no_color: true }
    );
    assert_eq!(
        MeowdictConfig::default(),
        MeowdictConfig { input_s2t: false, result_t2s: false, no_color: false }
    );
}

#[test]
fn subcommands_name_commands() {
    assert_eq!(subcommand_of("show"), Some(MeowdictRunCommand::Show));
    assert_eq!(subcommand_of("translate"), Some(MeowdictRunCommand::Translate));
    assert_eq!(subcommand_of("jyutping"), Some(MeowdictRunCommand::JyutPing));
    assert_eq!(subcommand_of("random"), Some(MeowdictRunCommand::Random));
    assert_eq!(subcommand_of("terminal"), None);
}

#[test]
fn line_is_trimmed_and_cut_at_spaces() {
    assert_eq!(split_line("  .jyut   我  你 "), vec![".jyut", "我", "你"]);
    assert_eq!(split_line("\t.show 我\n"), vec![".show", "我"]);
    assert_eq!(split_line("我\t你"), vec!["我\t你"]);
    assert_eq!(split_line("   "), Vec::<&str>::new());
    assert_eq!(split_line(""), Vec::<&str>::new());
    assert_eq!(split_line("我"), vec!["我"]);
}

#[test]
fn line_is_read_from_its_text() {
    let mut c = console();
    let turn = c.read_line("  .jyut   我 你 ").unwrap();
    assert_eq!(turn.request, Ok(Some(request(MeowdictRunCommand::JyutPing, &["我", "你"]))));
    let turn = c.read_line("   ").unwrap();
    assert_eq!(turn, ConsoleTurn { output: vec![], request: Ok(None) });
    assert_eq!(c.read_line(".set_result_t2s_mode"), None);
    let turn = c.read_line(".set_result_t2s_mode on").unwrap();
    assert_eq!(turn.output, vec!["Setting result mode...".to_string()]);
    assert!(c.result_t2s);
}

#[test]
fn greeting_names_the_version() {
    assert_eq!(
        welcome("0.10.1"),
        "Welcome to meowdict 0.10.1!\nPlease enter .help for more information"
    );
}

#[test]
fn exactly_the_white_space_characters_are_trimmed() {
    for code in 0..=0x10ffffu32 {
        let c = match char::from_u32(code) {
            Some(c) => c,
            None => continue,
        };
        let listed = matches!(
            code,
            0x9..=0xd
                | 0x20
                | 0x85
                | 0xa0
                | 0x1680
                | 0x2000..=0x200a
                | 0x2028
                | 0x2029
                | 0x202f
                | 0x205f
                | 0x3000
        );
        let text = c.to_string();
        assert_eq!(trim(&text).is_empty(), listed, "U+{:04X}", code);
    }
    assert_eq!(trim("\u{3000}我\u{b}"), "我");
    assert_eq!(trim("\u{200b}我"), "\u{200b}我");
    assert_eq!(trim(" 我 你\t"), "我 你");
}
