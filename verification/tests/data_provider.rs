use typing_test_tui::config::{ConfigData, ConfigUpdate};
use typing_test_tui::data::{
    picked_words_data, quotes_from_json, quotes_from_sources, words_from_json, Data, DataProvider,
};
use typing_test_tui::mode::Mode;

#[test]
fn get_n_random_words_returns_fallback_when_words_are_empty() {
    let provider = DataProvider { words: vec![], quotes: vec![] };

    let data = provider.get_n_random_words(5);

    assert_eq!(data.text, "No words found", "empty datasets should use the fallback message");
    assert_eq!(data.source, "No words found");
}

#[test]
fn get_n_random_words_with_single_word_repeats_for_requested_count() {
    let provider = DataProvider { words: vec!["hello".to_string()], quotes: vec![] };

    let data = provider.get_n_random_words(3);

    assert_eq!(data.text, "hello hello hello");
    assert_eq!(data.source, "3 words");
}

#[test]
fn get_n_random_words_with_zero_count_returns_empty_text() {
    let provider = DataProvider { words: vec!["hello".to_string()], quotes: vec![] };

    let data = provider.get_n_random_words(0);

    assert_eq!(data.text, "");
    assert_eq!(data.source, "0 words");
}

#[test]
fn get_random_quote_returns_fallback_when_quotes_are_empty() {
    let provider = DataProvider { words: vec![], quotes: vec![] };

    let data = provider.get_random_quote();

    assert_eq!(data.text, "No quotes available");
    assert_eq!(data.source, "no quotes available");
}

#[test]
fn get_data_from_time_mode_uses_word_count_and_seconds_source() {
    let provider = DataProvider { words: vec!["hello".to_string()], quotes: vec![] };

    let data = provider.get_data_from_mode(&Mode::Time(2));

    assert_eq!(data.text, "hello hello hello hello hello hello hello hello");
    assert_eq!(data.source, "2 seconds");
}

#[test]
fn random_words_never_repeat_a_word_right_after_itself() {
    let words = vec!["a".to_string(), "b".to_string(), "c".to_string()];
    let provider = DataProvider::new(words.clone(), vec![]);

    for _ in 0..20 {
        let data = provider.get_n_random_words(30);
        let picked: Vec<&str> = data.text.split(' ').collect();
        assert_eq!(picked.len(), 30);
        assert!(picked.iter().all(|w| words.iter().any(|x| x == w)));
        assert!(picked.windows(2).all(|pair| pair[0] != pair[1]));
        assert_eq!(data.source, "30 words");
    }
}

#[test]
fn random_quote_is_one_of_the_quotes() {
    let quotes = vec![
        Data { text: "one".to_string(), source: "A".to_string() },
        Data { text: "two".to_string(), source: "B".to_string() },
    ];
    let provider = DataProvider::new(vec![], quotes.clone());

    for _ in 0..10 {
        let data = provider.get_data_from_mode(&Mode::Quote);
        assert!(quotes.contains(&data));
    }
}

#[test]
fn picked_words_are_joined_by_spaces() {
    let words = vec!["x".to_string(), "yy".to_string(), "zzz".to_string()];

    let data = picked_words_data(&words, &vec![2, 0, 1, 0]);

    assert_eq!(data.text, "zzz x yy x");
    assert_eq!(data.source, "4 words");
}

#[test]
fn words_mode_picks_that_many_words() {
    let provider = DataProvider::new(vec!["a".to_string(), "b".to_string()], vec![]);

    let data = provider.get_data_from_mode(&Mode::Words(10));

    assert_eq!(data.text.split(' ').count(), 10);
    assert_eq!(data.source, "10 words");
}

#[test]
fn get_words_reads_custom_json_file() {
    let words = words_from_json(r#"["alpha","beta"]"#).unwrap();

    assert_eq!(words, vec!["alpha".to_string(), "beta".to_string()]);
}

#[test]
fn get_words_returns_error_for_invalid_json() {
    let result = words_from_json(r#"{"not":"an array"}"#);

    assert!(result.is_err(), "invalid word JSON should fail to parse");
}

#[test]
fn get_quotes_filters_empty_and_source_matching_entries() {
    let mut quotes = quotes_from_json(
        r#"{
                "Author A": ["Author A", "", "Keep going"],
                "Author B": ["Stay focused"]
            }"#,
    )
    .unwrap();
    quotes.sort_by(|a, b| a.source.cmp(&b.source).then(a.text.cmp(&b.text)));

    assert_eq!(quotes.len(), 2);
    assert_eq!(quotes[0].source, "Author A");
    assert_eq!(quotes[0].text, "Keep going");
    assert_eq!(quotes[1].source, "Author B");
    assert_eq!(quotes[1].text, "Stay focused");
}

#[test]
fn filtered_sources_keep_the_quotes_of_each_source() {
    let entries = vec![
        (
            "Author A".to_string(),
            vec!["Author A".to_string(), "".to_string(), "Keep going".to_string()],
        ),
        ("Author B".to_string(), vec!["Stay focused".to_string()]),
    ];

    let quotes = quotes_from_sources(entries);

    assert_eq!(quotes.len(), 2);
    assert_eq!(quotes[0].source, "Author A");
    assert_eq!(quotes[0].text, "Keep going");
    assert_eq!(quotes[1].source, "Author B");
    assert_eq!(quotes[1].text, "Stay focused");
}

#[test]
fn quotes_json_must_map_sources_to_lists() {
    assert!(quotes_from_json(r#"["a", "b"]"#).is_err());
    assert!(quotes_from_json(r#"{"A": "not a list"}"#).is_err());
    assert!(quotes_from_json("{}").unwrap().is_empty());
}

#[test]
fn a_source_given_twice_keeps_its_last_list() {
    let quotes = quotes_from_json(r#"{"A": ["first"], "A": ["second"]}"#).unwrap();
    assert_eq!(quotes.len(), 1);
    assert_eq!(quotes[0].text, "second");
}

#[test]
fn provider_reads_words_and_quotes_from_json() {
    let provider = DataProvider::from_json(r#"["one","two"]"#, r#"{"Me": ["Hi there"]}"#).unwrap();
    assert_eq!(provider.words, vec!["one".to_string(), "two".to_string()]);
    assert_eq!(provider.quotes, vec![Data { text: "Hi there".to_string(), source: "Me".to_string() }]);
    assert!(DataProvider::from_json("not json", "{}").is_err());
    assert!(DataProvider::from_json("[]", "[1]").is_err());
}

#[test]
fn quotes_of_a_source_come_from_the_end_of_its_list() {
    let entries = vec![("S".to_string(), vec!["first".to_string(), "second".to_string()])];

    let quotes = quotes_from_sources(entries);

    assert_eq!(quotes.len(), 2);
    assert_eq!(quotes[0].text, "second");
    assert_eq!(quotes[1].text, "first");
}

#[test]
fn config_update_sets_the_mode() {
    let mut config = ConfigData::default();
    assert_eq!(config.mode, Mode::Quote);

    config.handle_config_update(ConfigUpdate::Mode(Mode::Time(60)));

    assert_eq!(config.mode, Mode::Time(60));
    assert_eq!(Mode::default(), Mode::Quote);
}
