use indexmap::IndexMap;
use meowdict::cache::{cache_step, needs_refresh, served, CacheAction, CacheEvent, CacheState};
use meowdict::entry::{MeowdictJsonResult, MeowdictJyutPingResult, MoedictRawResult, WantWordsResult};
use meowdict::error::{Dataset, MeowdictError};
use meowdict::lookup::{
    all_or_first_error, can_set_json_result, get_dict_result, get_jyutping_result, get_wantwords,
    jyutping_for_export, moedict_entry, moedict_payload, moedict_url, set_json_result, strip_markers,
    wantwords_url, ResolvedBatch,
};
use meowdict::render::{gen_jyutping_outcomes_str, gen_jyutping_str};
use meowdict::sampler::{matching_terms, picked_term, random_moedict_item};
use meowdict::table::{create_jyutping_cache, JyutpingTable};

fn strings(items: &[&str]) -> Vec<String> {
    items.iter().map(|s| s.to_string()).collect()
}

fn entry(title: &str) -> MoedictRawResult {
    let mut translation = IndexMap::new();
    translation.insert("English".to_string(), strings(&["gloss"]));
    MoedictRawResult {
        title: title.to_string(),
        translation: Some(translation),
        heteronyms: None,
        english: Some("gloss".to_string()),
    }
}

fn readings(word: &str, jyutping: &[&str]) -> MeowdictJyutPingResult {
    MeowdictJyutPingResult { word: word.to_string(), jyutping: strings(jyutping) }
}

fn small_table() -> JyutpingTable {
    create_jyutping_cache(
        vec![("我".to_string(), vec![("ngo5".to_string(), 0usize)])],
        vec![("我哋".to_string(), strings(&["ngo5 dei6"]))],
    )
}

#[test]
fn test_cache_jyutping_result() {
    let response_charlist = vec![("我".to_string(), vec![("ngo5".to_string(), 0usize)])];
    let response_wordlist = vec![("我哋".to_string(), vec!["ngo5 dei6".to_string()])];
    let json = create_jyutping_cache(response_charlist, response_wordlist);

    assert_eq!(json.get("我"), Some(&vec!["ngo5".to_string()]));
    assert_eq!(json.get("我哋"), Some(&vec!["ngo5 dei6".to_string()]));
}

#[test]
fn word_list_replaces_character_list_for_the_same_text() {
    let table = create_jyutping_cache(
        vec![
            ("行".to_string(), vec![("hang4".to_string(), 3usize), ("hong4".to_string(), 1usize)]),
            ("我".to_string(), vec![("ngo5".to_string(), 41usize)]),
        ],
        vec![("行".to_string(), strings(&["haang4"]))],
    );
    assert_eq!(table.get("行"), Some(&strings(&["haang4"])));
    assert_eq!(table.get("我"), Some(&strings(&["ngo5"])));
    assert_eq!(table.get("你"), None);
    assert_eq!(
        table.entries,
        vec![
            ("行".to_string(), strings(&["hang4", "hong4"])),
            ("我".to_string(), strings(&["ngo5"])),
            ("行".to_string(), strings(&["haang4"])),
        ]
    );
    assert_eq!(create_jyutping_cache(vec![], vec![]).entries, vec![]);
}

#[test]
fn markers_are_stripped_from_the_payload() {
    assert_eq!(strip_markers("{\"t\":\"`空~穴`來~風\"}"), "{\"t\":\"空穴來風\"}");
    assert_eq!(strip_markers("`~`~"), "");
    assert_eq!(strip_markers(""), "");
    assert_eq!(strip_markers("plain"), "plain");
}

#[test]
fn addresses_hold_the_keyword() {
    assert_eq!(moedict_url("我"), "https://www.moedict.tw/a/我.json");
    assert_eq!(
        wantwords_url("大"),
        "https://wantwords.thunlp.org/ChineseRD/?description=大&mode=CC"
    );
}

#[test]
fn status_decides_how_the_answer_is_read() {
    assert_eq!(moedict_payload(200, "我", "{\"t\":\"`我~\"}"), Ok("{\"t\":\"我\"}".to_string()));
    assert_eq!(
        moedict_payload(404, "我", "whatever"),
        Err(MeowdictError::NotFound(Dataset::Dictionary, "我".to_string()))
    );
    assert_eq!(moedict_payload(500, "我", "whatever"), Err(MeowdictError::ServiceError(500)));
    assert_eq!(moedict_payload(201, "我", "{}"), Err(MeowdictError::ServiceError(201)));
}

#[test]
fn unreadable_payload_is_a_malformed_response() {
    assert_eq!(moedict_entry(None), Err(MeowdictError::MalformedResponse));
    assert_eq!(moedict_entry(Some(entry("我"))), Ok(entry("我")));
}

#[test]
fn error_messages() {
    assert_eq!(
        MeowdictError::NotFound(Dataset::Dictionary, "我".to_string()).message(),
        "Could not find keyword: 我"
    );
    assert_eq!(
        MeowdictError::NotFound(Dataset::Romanization, "我".to_string()).message(),
        "Cannot find jyutping: 我"
    );
    assert_eq!(MeowdictError::ServiceError(503).message(), "Response status code: 503");
    assert_eq!(MeowdictError::ServiceError(0).message(), "Response status code: 0");
    assert_eq!(
        MeowdictError::Transport("error sending request".to_string()).message(),
        "error sending request"
    );
    assert_eq!(MeowdictError::NoMatch.message(), "Cannot choose one!");
    assert_eq!(MeowdictError::InvalidArgument("unsupport mode!".to_string()).message(), "unsupport mode!");
    assert!(!MeowdictError::MalformedResponse.message().is_empty());
    assert!(!MeowdictError::CacheRefreshError.message().is_empty());
}

#[test]
fn batch_succeeds_only_if_every_term_does() {
    assert_eq!(get_dict_result(vec![Ok(entry("甲")), Ok(entry("乙"))]), Ok(vec![entry("甲"), entry("乙")]));
    assert_eq!(get_dict_result(vec![]), Ok(vec![]));
    let failed = get_dict_result(vec![
        Ok(entry("甲")),
        Err(MeowdictError::ServiceError(500)),
        Err(MeowdictError::NotFound(Dataset::Dictionary, "丙".to_string())),
    ]);
    assert_eq!(failed, Err(MeowdictError::ServiceError(500)));
    assert_eq!(all_or_first_error(vec![Ok(1u8), Ok(2u8)]), Ok(vec![1u8, 2u8]));
}

#[test]
fn reverse_lookup_answers_keep_their_order() {
    let first = vec![WantWordsResult { correlation: "0.9".to_string(), word: "大".to_string() }];
    let second: Vec<WantWordsResult> = vec![];
    assert_eq!(
        get_wantwords(vec![Ok(first.clone()), Ok(second.clone())]),
        Ok(vec![first, second])
    );
    assert_eq!(
        get_wantwords(vec![Err(MeowdictError::MalformedResponse), Ok(vec![])]),
        Err(MeowdictError::MalformedResponse)
    );
}

#[test]
fn batch_order_is_the_order_of_the_terms_whatever_settles_first() {
    let terms = ["甲", "乙", "丙", "丁"];
    for order in [[0usize, 1, 2, 3], [3, 2, 1, 0], [2, 0, 3, 1], [1, 3, 0, 2]] {
        let mut batch: ResolvedBatch<Result<MoedictRawResult, MeowdictError>> =
            ResolvedBatch::new(terms.len());
        for (step, &index) in order.iter().enumerate() {
            assert!(!batch.is_settled());
            assert_eq!(step == 0, batch.slots.iter().all(|s| s.is_none()));
            assert!(batch.settle(index, Ok(entry(terms[index]))));
        }
        assert!(batch.is_settled());
        let outcomes = batch.into_results().unwrap();
        let titles: Vec<String> = get_dict_result(outcomes).unwrap().into_iter().map(|e| e.title).collect();
        assert_eq!(titles, strings(&terms));
    }
}

#[test]
fn batch_is_not_handed_on_before_every_term_has_settled() {
    let mut batch: ResolvedBatch<u8> = ResolvedBatch::new(2);
    assert!(batch.settle(1, 7));
    assert!(!batch.settle(2, 9));
    assert_eq!(batch.slots, vec![None, Some(7)]);
    assert!(!batch.is_settled());
    assert_eq!(batch.into_results(), None);
    let empty: ResolvedBatch<u8> = ResolvedBatch::new(0);
    assert!(empty.is_settled());
    assert_eq!(empty.into_results(), Some(vec![]));
}

#[test]
fn readings_are_looked_up_term_by_term() {
    let table = small_table();
    let words = strings(&["我哋", "你", "我"]);
    assert_eq!(
        get_jyutping_result(&table, &words),
        vec![
            Ok(readings("我哋", &["ngo5 dei6"])),
            Err(MeowdictError::NotFound(Dataset::Romanization, "你".to_string())),
            Ok(readings("我", &["ngo5"])),
        ]
    );
    assert_eq!(
        get_jyutping_result(&table, &strings(&["我", "我哋"])),
        vec![Ok(readings("我", &["ngo5"])), Ok(readings("我哋", &["ngo5 dei6"]))]
    );
    assert_eq!(get_jyutping_result(&table, &[]), vec![]);
}

#[test]
fn missing_reading_is_shown_in_its_place() {
    let table = small_table();
    let words = strings(&["我哋", "你", "我"]);
    let text = gen_jyutping_outcomes_str(get_jyutping_result(&table, &words));
    assert_eq!(
        text,
        "\u{1b}[38;2;178;143;206m我哋：\u{1b}[39m\n\u{1b}[38;2;168;216;165mngo5 dei6\u{1b}[39m\nCannot find jyutping: 你\n\u{1b}[38;2;178;143;206m我：\u{1b}[39m\n\u{1b}[38;2;168;216;165mngo5\u{1b}[39m"
    );
    // Where every term has its readings, the text is that of the readings alone.
    let found = strings(&["我", "我哋"]);
    assert_eq!(
        gen_jyutping_outcomes_str(get_jyutping_result(&table, &found)),
        gen_jyutping_str(jyutping_for_export(&table, &found).unwrap())
    );
    assert_eq!(gen_jyutping_outcomes_str(vec![]), "");
}

#[test]
fn export_takes_the_readings_all_or_none() {
    let table = small_table();
    assert_eq!(jyutping_for_export(&table, &strings(&["我哋", "你", "我"])), None);
    assert_eq!(
        jyutping_for_export(&table, &strings(&["我", "我哋"])),
        Some(vec![readings("我", &["ngo5"]), readings("我哋", &["ngo5 dei6"])])
    );
    assert_eq!(jyutping_for_export(&table, &[]), Some(vec![]));
}

#[test]
fn export_keeps_the_dictionary_when_a_reading_is_missing() {
    let table = small_table();
    let words = strings(&["我", "你"]);
    let records = get_dict_result(vec![Ok(entry("我")), Ok(entry("你"))]).ok();
    let jyutping = jyutping_for_export(&table, &words);
    assert_eq!(jyutping, None);
    let export = set_json_result(&words, records, jyutping);
    assert_eq!(export.len(), 2);
    assert_eq!(
        export[1],
        MeowdictJsonResult {
            name: "你".to_string(),
            moedict_raw_result: Some(entry("你")),
            jyutping: None,
        }
    );
    assert_eq!(export[0].name, "我");
    assert_eq!(export[0].moedict_raw_result, Some(entry("我")));
}

#[test]
fn export_pairs_records_and_readings_by_term() {
    let words = strings(&["我", "我哋"]);
    let both = set_json_result(
        &words,
        Some(vec![entry("我"), entry("我哋")]),
        Some(vec![readings("我", &["ngo5"]), readings("我哋", &["ngo5 dei6"])]),
    );
    assert_eq!(
        both,
        vec![
            MeowdictJsonResult {
                name: "我".to_string(),
                moedict_raw_result: Some(entry("我")),
                jyutping: Some(strings(&["ngo5"])),
            },
            MeowdictJsonResult {
                name: "我哋".to_string(),
                moedict_raw_result: Some(entry("我哋")),
                jyutping: Some(strings(&["ngo5 dei6"])),
            },
        ]
    );
    let readings_only = set_json_result(&words, None, Some(vec![readings("我", &["ngo5"])]));
    assert_eq!(
        readings_only,
        vec![MeowdictJsonResult {
            name: "我".to_string(),
            moedict_raw_result: None,
            jyutping: Some(strings(&["ngo5"])),
        }]
    );
    let nothing = set_json_result(&words, None, None);
    assert_eq!(
        nothing,
        vec![
            MeowdictJsonResult { name: "我".to_string(), moedict_raw_result: None, jyutping: None },
            MeowdictJsonResult { name: "我哋".to_string(), moedict_raw_result: None, jyutping: None },
        ]
    );
    // The shorter of the two lists decides how many records there are.
    let short = set_json_result(
        &words,
        Some(vec![entry("我"), entry("我哋")]),
        Some(vec![readings("我", &["ngo5"])]),
    );
    assert_eq!(short.len(), 1);
    assert_eq!(short[0].jyutping, Some(strings(&["ngo5"])));
}

#[test]
fn export_needs_a_term_for_every_record() {
    let words = strings(&["我"]);
    assert!(can_set_json_result(&words, &None, &None));
    assert!(can_set_json_result(&words, &Some(vec![entry("我")]), &None));
    assert!(!can_set_json_result(&words, &Some(vec![entry("我"), entry("你")]), &None));
    assert!(!can_set_json_result(&[], &None, &Some(vec![readings("我", &["ngo5"])])));
    assert!(can_set_json_result(
        &words,
        &Some(vec![entry("我"), entry("你")]),
        &Some(vec![readings("我", &["ngo5"])])
    ));
}

#[test]
fn random_sample_without_a_match_fails() {
    let index = strings(&["狗", "小狗", "狗屋"]);
    assert_eq!(
        random_moedict_item(&index, &Some(strings(&["貓"]))),
        Err(MeowdictError::NoMatch)
    );
    assert_eq!(
        random_moedict_item(&index, &Some(strings(&["狗", "貓"]))),
        Err(MeowdictError::NoMatch)
    );
    assert_eq!(random_moedict_item(&[], &None), Err(MeowdictError::NoMatch));
}

#[test]
fn random_sample_picks_one_term_for_each_filter() {
    let index = strings(&["狗", "小狗", "貓", "狗屋", "熊貓"]);
    for _ in 0..50 {
        let picked = random_moedict_item(&index, &Some(strings(&["貓", "狗"]))).unwrap();
        assert_eq!(picked.len(), 2);
        assert!(picked[0] == "貓" || picked[0] == "熊貓");
        assert!(picked[1] == "狗" || picked[1] == "小狗" || picked[1] == "狗屋");
        let one = random_moedict_item(&index, &None).unwrap();
        assert_eq!(one.len(), 1);
        assert!(index.contains(&one[0]));
    }
    assert_eq!(random_moedict_item(&index, &Some(vec![])), Ok(vec![]));
    assert_eq!(random_moedict_item(&index, &Some(strings(&["屋"]))), Ok(strings(&["狗屋"])));
}

#[test]
fn random_sample_reaches_every_candidate() {
    let index = strings(&["甲", "乙", "丙"]);
    let mut seen = [false; 3];
    for _ in 0..500 {
        let one = random_moedict_item(&index, &None).unwrap();
        seen[index.iter().position(|t| *t == one[0]).unwrap()] = true;
    }
    assert_eq!(seen, [true, true, true]);
}

#[test]
fn filters_match_parts_of_terms() {
    let pandas = strings(&["熊貓", ""]);
    assert_eq!(matching_terms(&pandas, "貓").len(), 1);
    assert_eq!(matching_terms(&pandas, "").len(), 2);
    assert_eq!(matching_terms(&pandas, "熊貓").len(), 1);
    assert_eq!(matching_terms(&pandas, "貓熊").len(), 0);
    let index = strings(&["狗", "小狗", "貓", "狗屋"]);
    let found: Vec<&str> = matching_terms(&index, "狗").into_iter().map(|t| t.as_str()).collect();
    assert_eq!(found, vec!["狗", "小狗", "狗屋"]);
    assert_eq!(picked_term(None), Err(MeowdictError::NoMatch));
    assert_eq!(picked_term(Some(&"狗".to_string())), Ok("狗".to_string()));
}

#[test]
fn dataset_is_stale_after_a_day() {
    assert!(needs_refresh(None));
    assert!(needs_refresh(Some(24 * 60 * 60)));
    assert!(needs_refresh(Some(u64::MAX)));
    assert!(!needs_refresh(Some(24 * 60 * 60 - 1)));
    assert!(!needs_refresh(Some(0)));
}

fn run(events: &[CacheEvent]) -> (CacheState, Vec<CacheAction>) {
    let mut state = CacheState::Checking;
    let mut actions = Vec::new();
    for &event in events {
        let (next, action) = cache_step(state, event);
        state = next;
        actions.push(action);
    }
    (state, actions)
}

#[test]
fn stale_file_is_fetched_once_and_fresh_file_never() {
    assert_eq!(
        run(&[CacheEvent::Aged(86400), CacheEvent::Done, CacheEvent::Done]),
        (CacheState::Ready, vec![CacheAction::Fetch, CacheAction::Store, CacheAction::Serve])
    );
    assert_eq!(
        run(&[CacheEvent::Missing, CacheEvent::Done, CacheEvent::Done, CacheEvent::Missing]),
        (
            CacheState::Ready,
            vec![CacheAction::Fetch, CacheAction::Store, CacheAction::Serve, CacheAction::Rest]
        )
    );
    assert_eq!(
        run(&[CacheEvent::Aged(86399), CacheEvent::Done]),
        (CacheState::Ready, vec![CacheAction::Load, CacheAction::Serve])
    );
}

#[test]
fn failure_is_reported_and_nothing_is_served() {
    assert_eq!(
        run(&[CacheEvent::Missing, CacheEvent::Broken, CacheEvent::Done]),
        (CacheState::Failed, vec![CacheAction::Fetch, CacheAction::GiveUp, CacheAction::Rest])
    );
    assert_eq!(
        run(&[CacheEvent::Aged(90000), CacheEvent::Done, CacheEvent::Broken]),
        (CacheState::Failed, vec![CacheAction::Fetch, CacheAction::Store, CacheAction::GiveUp])
    );
    assert_eq!(
        run(&[CacheEvent::Aged(5), CacheEvent::Broken]),
        (CacheState::Failed, vec![CacheAction::Load, CacheAction::GiveUp])
    );
    assert_eq!(run(&[CacheEvent::Broken]), (CacheState::Failed, vec![CacheAction::GiveUp]));
    assert_eq!(served(CacheState::Failed, Some(1u8)), Err(MeowdictError::CacheRefreshError));
    assert_eq!(served::<u8>(CacheState::Ready, None), Err(MeowdictError::CacheRefreshError));
    assert_eq!(served(CacheState::Loading, Some(1u8)), Err(MeowdictError::CacheRefreshError));
    assert_eq!(served(CacheState::Ready, Some(1u8)), Ok(1u8));
}
