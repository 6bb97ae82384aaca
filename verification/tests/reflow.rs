use meowdict::reflow::{can_split_new_line, string_split_new_line, try_split_new_line};

const GLOSS: &str = "  1.有空穴，就有風吹來。語出《文選．宋玉．風賦》：「臣聞於師：『枳句來巢，空穴來風，其所託者然，則風氣殊焉。』」後比喻流言乘隙而入。如：「那些空穴來風的傳聞，不足以採信。」";

#[test]
fn wraps_gloss_below_the_cap() {
    let wrapped = try_split_new_line(GLOSS.to_string(), 2, 79).unwrap();
    assert_eq!(
        wrapped,
        "  1.有空穴，就有風吹來。語出《文選．宋玉．風賦》：「臣聞於師：『枳句來巢，空\n  穴來風，其所託者然，則風氣殊焉。』」後比喻流言乘隙而入。如：「那些空穴來風的\n  傳聞，不足以採信。」"
    );
}

#[test]
fn wraps_gloss_at_the_cap() {
    let wrapped = try_split_new_line(GLOSS.to_string(), 2, 81).unwrap();
    assert_eq!(
        wrapped,
        "  1.有空穴，就有風吹來。語出《文選．宋玉．風賦》：「臣聞於師：『枳句來巢，空穴\n  來風，其所託者然，則風氣殊焉。』」後比喻流言乘隙而入。如：「那些空穴來風的傳聞\n  ，不足以採信。」"
    );
    assert_eq!(try_split_new_line(GLOSS.to_string(), 2, 80).unwrap(), wrapped);
    assert_eq!(try_split_new_line(GLOSS.to_string(), 2, 500).unwrap(), wrapped);
}

#[test]
fn short_text_is_left_alone() {
    assert!(can_split_new_line("abc", 2, 10));
    assert_eq!(string_split_new_line("abc".to_string(), 2, 10), "abc");
    assert_eq!(try_split_new_line(String::new(), 4, 80), Some(String::new()));
}

#[test]
fn last_character_alone_on_a_line_is_kept() {
    // Four full-width characters in a budget of six columns: three on the
    // first line, one left over.
    let wrapped = try_split_new_line("一二三四".to_string(), 2, 8).unwrap();
    assert_eq!(wrapped, "一二三\n  四");
}

#[test]
fn no_room_for_a_character_is_refused() {
    assert!(!can_split_new_line("漢字漢字", 2, 3));
    assert_eq!(try_split_new_line("漢字漢字".to_string(), 2, 3), None);
    // The line break itself does not fit.
    assert!(!can_split_new_line("abcdef", 4, 3));
    assert_eq!(try_split_new_line("abcdef".to_string(), 4, 3), None);
}

#[test]
fn lines_without_their_indent_give_the_text_back() {
    let text = "有空穴，就有風吹來。語出《文選．宋玉．風賦》：「臣聞於師：『枳句來巢，空穴來風，其所託者然，則風氣殊焉。』」後比喻流言乘隙而入。";
    for width in [7usize, 10, 33, 80] {
        for tab in [0usize, 2, 4] {
            let wrapped = try_split_new_line(text.to_string(), tab, width).unwrap();
            let indent = format!("\n{}", " ".repeat(tab));
            let pieces: Vec<&str> = wrapped.split(indent.as_str()).collect();
            assert_eq!(pieces.concat(), text);
            assert!(pieces[..pieces.len() - 1].iter().all(|p| !p.is_empty()));
        }
    }
}

#[test]
fn text_with_escape_sequences_after_the_cut_is_refused() {
    let coloured = "\u{1b}[31mabcdefghij\u{1b}[0m";
    assert_eq!(try_split_new_line(coloured.to_string(), 2, 6), None);
    // Where nothing has to be cut, the text is handed back as it is.
    assert_eq!(try_split_new_line(coloured.to_string(), 2, 80), Some(coloured.to_string()));
}

#[test]
fn text_that_holds_line_feeds_is_cut_like_any_other() {
    let wrapped = try_split_new_line("ab\ncdefgh".to_string(), 0, 4).unwrap();
    assert_eq!(wrapped.replace('\n', ""), "abcdefgh");
    assert!(can_split_new_line("ab\n  cd", 2, 80));
}
