use console::strip_ansi_codes;
use indexmap::IndexMap;
use meowdict::entry::{
    MeowdictJyutPingResult, MoedictDefinition, MoedictHeteronym, MoedictRawResult,
};
use meowdict::render::{gen_jyutping_str, gen_translation_str};
use meowdict::show::{
    can_gen_dict_result_str, gen_dict_result_str, layout, try_gen_dict_result_str, LineStyle,
};

fn strings(items: &[&str]) -> Vec<String> {
    items.iter().map(|s| s.to_string()).collect()
}

fn wind_from_an_empty_cave() -> MoedictRawResult {
    let mut translation = IndexMap::new();
    translation.insert(
        "English".to_string(),
        strings(&[
            "lit. wind from an empty cave (idiom)",
            "fig. unfounded (story)",
            "baseless (claim)",
        ]),
    );
    translation.insert(
        "francais".to_string(),
        strings(&[
            "(expr. idiom.) les fissures laissent passer le vent",
            "les faiblesses donnent prise à la médisance",
            "prêter le flanc à la critique",
        ]),
    );
    MoedictRawResult {
        title: "空穴來風".to_string(),
        translation: Some(translation),
        heteronyms: Some(vec![MoedictHeteronym {
            pinyin: Some("kōng xuè lái fēng".to_string()),
            bopomofo: Some("ㄎㄨㄥ　ㄒㄩㄝˋ　ㄌㄞˊ　ㄈㄥ".to_string()),
            definitions: Some(vec![MoedictDefinition {
                word_type: None,
                quote: None,
                example: None,
                def: Some("有空穴，就有風吹來。語出《文選．宋玉．風賦》：「臣聞於師：『枳句來巢，空穴來風，其所託者然，則風氣殊焉。』」後比喻流言乘隙而入。如：「那些空穴來風的傳聞，不足以採信。」".to_string()),
                link: None,
            }]),
        }]),
        english: Some("lit. wind from an empty cave (idiom)".to_string()),
    }
}

fn sense(word_type: Option<&str>, gloss: Option<&str>, quotes: &[&str]) -> MoedictDefinition {
    MoedictDefinition {
        word_type: word_type.map(|t| t.to_string()),
        quote: if quotes.is_empty() { None } else { Some(strings(quotes)) },
        example: None,
        def: gloss.map(|g| g.to_string()),
        link: None,
    }
}

fn entry_with(definitions: Vec<MoedictDefinition>) -> MoedictRawResult {
    MoedictRawResult {
        title: "我".to_string(),
        translation: None,
        heteronyms: Some(vec![MoedictHeteronym {
            pinyin: None,
            bopomofo: None,
            definitions: Some(definitions),
        }]),
        english: None,
    }
}

#[test]
fn test_result_str() {
    let test_obj = wind_from_an_empty_cave();
    const LESS_80: usize = 79;
    const MORE_80: usize = 81;
    let result_with_less_80 =
        strip_ansi_codes(&gen_dict_result_str(vec![test_obj.clone()], LESS_80)).to_string();
    let right_result_with_less_80 = r#"空穴來風：
  英語：lit. wind from an empty cave (idiom)
  拼音：kōng xuè lái fēng
  注音：ㄎㄨㄥ　ㄒㄩㄝˋ　ㄌㄞˊ　ㄈㄥ
  1.有空穴，就有風吹來。語出《文選．宋玉．風賦》：「臣聞於師：『枳句來巢，空
  穴來風，其所託者然，則風氣殊焉。』」後比喻流言乘隙而入。如：「那些空穴來風的
  傳聞，不足以採信。」"#;
    let result_with_more_80 =
        strip_ansi_codes(&gen_dict_result_str(vec![test_obj], MORE_80)).to_string();
    let right_result_with_more_80 = r#"空穴來風：
  英語：lit. wind from an empty cave (idiom)
  拼音：kōng xuè lái fēng
  注音：ㄎㄨㄥ　ㄒㄩㄝˋ　ㄌㄞˊ　ㄈㄥ
  1.有空穴，就有風吹來。語出《文選．宋玉．風賦》：「臣聞於師：『枳句來巢，空穴
  來風，其所託者然，則風氣殊焉。』」後比喻流言乘隙而入。如：「那些空穴來風的傳聞
  ，不足以採信。」"#;

    assert_eq!(result_with_less_80, right_result_with_less_80);
    assert_eq!(result_with_more_80, right_result_with_more_80);
}

#[test]
fn test_transtation_str() {
    let test_obj = wind_from_an_empty_cave();
    let result_str = strip_ansi_codes(&gen_translation_str(vec![test_obj])).to_string();
    let right_str = r#"空穴來風：
English:
lit. wind from an empty cave (idiom)
fig. unfounded (story)
baseless (claim)
francais:
(expr. idiom.) les fissures laissent passer le vent
les faiblesses donnent prise à la médisance
prêter le flanc à la critique"#;

    assert_eq!(result_str, right_str);
}

#[test]
fn test_jyutping_str() {
    let test_obj = MeowdictJyutPingResult {
        word: "我".to_string(),
        jyutping: vec!["ngo5".to_string()],
    };
    let result_str = strip_ansi_codes(&gen_jyutping_str(vec![test_obj])).to_string();
    let right_str = r#"我：
ngo5"#;

    assert_eq!(result_str, right_str);
}

#[test]
fn jyutping_colours_are_exact() {
    let test_obj = MeowdictJyutPingResult {
        word: "我哋".to_string(),
        jyutping: vec!["ngo5 dei6".to_string(), "ngo5 dei2".to_string()],
    };
    let out = gen_jyutping_str(vec![test_obj]);
    assert_eq!(
        out,
        "\u{1b}[38;2;178;143;206m我哋：\u{1b}[39m\n\u{1b}[38;2;168;216;165mngo5 dei6\nngo5 dei2\u{1b}[39m"
    );
    assert_eq!(gen_jyutping_str(Vec::new()), "");
}

#[test]
fn translation_colours_are_exact() {
    let mut translation = IndexMap::new();
    translation.insert("English".to_string(), strings(&["I", "me"]));
    let entry = MoedictRawResult {
        title: "我".to_string(),
        translation: Some(translation),
        heteronyms: None,
        english: None,
    };
    let bare = MoedictRawResult {
        title: "你".to_string(),
        translation: None,
        heteronyms: None,
        english: None,
    };
    assert_eq!(
        gen_translation_str(vec![entry, bare]),
        "\u{1b}[38;2;178;143;206m我：\u{1b}[39m\n\u{1b}[38;2;168;216;165mEnglish:\u{1b}[39m\n\u{1b}[38;2;220;159;180mI\u{1b}[39m\n\u{1b}[38;2;220;159;180mme\u{1b}[39m\n\u{1b}[38;2;178;143;206m你：\u{1b}[39m"
    );
}

#[test]
fn dictionary_view_numbers_senses_within_each_type() {
    let entry = entry_with(vec![
        sense(Some("代"), Some("自稱。"), &["《易經》"]),
        sense(Some("代"), Some("自稱己方。"), &[]),
        sense(Some("形"), Some("表示親切之意的語詞。"), &[]),
    ]);
    let text = try_gen_dict_result_str(vec![entry], 80).unwrap();
    assert_eq!(
        strip_ansi_codes(&text),
        "我：\n  代：\n  1.自稱。\n    《易經》\n  2.自稱己方。\n  形：\n  1.表示親切之意的語詞。"
    );
}

#[test]
fn dictionary_view_colours_are_exact() {
    let mut entry = entry_with(vec![sense(None, Some("甲"), &["乙"])]);
    entry.english = Some("I".to_string());
    if let Some(hs) = entry.heteronyms.as_mut() {
        hs[0].pinyin = Some("wǒ".to_string());
        hs[0].bopomofo = Some("ㄨㄛˇ".to_string());
    }
    let text = gen_dict_result_str(vec![entry], 80);
    assert_eq!(
        text,
        "\u{1b}[38;2;178;143;206m我：\u{1b}[39m\n\u{1b}[38;2;125;187;222m  英語：I\u{1b}[39m\n\u{1b}[38;2;236;184;138m  拼音：wǒ\u{1b}[39m\n\u{1b}[38;2;208;090;110m  注音：ㄨㄛˇ\u{1b}[39m\n\u{1b}[38;2;129;199;212m  1.甲\u{1b}[39m\n\u{1b}[38;2;220;159;180m    乙\u{1b}[39m"
    );
}

#[test]
fn layout_lists_lines_with_their_styles() {
    let entry = entry_with(vec![sense(Some("名"), Some("姓。"), &["引文"])]);
    let lines = layout(&vec![entry]).unwrap();
    let got: Vec<(&str, LineStyle)> = lines.iter().map(|l| (l.text.as_str(), l.style)).collect();
    assert_eq!(
        got,
        vec![
            ("我：", LineStyle::Heading),
            ("  名：", LineStyle::Label),
            ("  1.姓。", LineStyle::Sense),
            ("    引文", LineStyle::Auxiliary),
        ]
    );
}

#[test]
fn sense_without_any_text_cannot_be_shown() {
    let entry = entry_with(vec![sense(Some("名"), None, &[])]);
    assert!(layout(&vec![entry.clone()]).is_none());
    assert!(!can_gen_dict_result_str(&vec![entry.clone()], 80));
    assert_eq!(try_gen_dict_result_str(vec![entry], 80), None);
}

#[test]
fn terminal_too_narrow_for_the_indent_cannot_be_shown() {
    let entry = entry_with(vec![sense(Some("名"), Some("姓。如戰國時有我子。"), &["引文"])]);
    assert!(layout(&vec![entry.clone()]).is_some());
    assert_eq!(try_gen_dict_result_str(vec![entry.clone()], 3), None);
    assert!(try_gen_dict_result_str(vec![entry], 8).is_some());
}

#[test]
fn tenth_sense_is_numbered_with_two_digits() {
    let mut defs = Vec::new();
    for _ in 0..10 {
        defs.push(sense(Some("名"), Some("義"), &[]));
    }
    let text = try_gen_dict_result_str(vec![entry_with(defs)], 80).unwrap();
    let plain = strip_ansi_codes(&text).to_string();
    assert!(plain.ends_with("\n  9.義\n 10.義"));
}
