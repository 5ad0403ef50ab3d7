use bojack_quotes::bot::{
    season_from_digits, EASTER_EGG_REPLY, NOT_UNDERSTOOD_REPLY, NO_QUOTES_REPLY,
};
use bojack_quotes::pattern::Pattern;
use bojack_quotes::quote::Quote;
use bojack_quotes::store::{
    parse_line, parse_lines, quote_from_parts, LoadError, PickError, QuoteStore,
    SEASON_MISS_REPLY, TAG_PATTERN,
};

fn quote(text: &str, speaker: &str, season: u8, episode: u8) -> Quote {
    Quote { quote: text.to_string(), quotee: speaker.to_string(), season, episode }
}

fn lines(src: &[&str]) -> Vec<String> {
    src.iter().map(|l| l.to_string()).collect()
}

fn store(src: &[&str]) -> QuoteStore {
    QuoteStore::load(&lines(src)).unwrap()
}

fn tag() -> Pattern {
    Pattern::new(TAG_PATTERN).unwrap()
}

#[test]
fn well_formed_line_gives_trimmed_unquoted_quote() {
    let q = parse_line("  \"Hello there\"  |  BoJack Horseman  | S3E07 ", 1, &tag()).unwrap();
    assert_eq!(q, quote("Hello there", "BoJack Horseman", 3, 7));
}

#[test]
fn lowercase_tag_and_leading_zeros_are_read() {
    let q = parse_line("Hi|Todd|s007e010", 4, &tag()).unwrap();
    assert_eq!(q, quote("Hi", "Todd", 7, 10));
}

#[test]
fn tag_is_found_inside_surrounding_text() {
    let q = parse_line("Hi|Todd|episode S2E5 (late)", 1, &tag()).unwrap();
    assert_eq!((q.season, q.episode), (2, 5));
}

#[test]
fn extra_fields_are_ignored() {
    let q = parse_line("Hi|Todd|S1E2|extra|more", 1, &tag()).unwrap();
    assert_eq!(q, quote("Hi", "Todd", 1, 2));
}

#[test]
fn unmatched_tag_aborts_load() {
    let r = QuoteStore::load(&lines(&["\"Ok\"|Diane|S1E1", "\"Hello\"|Alice|3x07"]));
    assert_eq!(r.err(), Some(LoadError::MalformedTag { line: 2 }));
}

#[test]
fn missing_fields_report_their_line() {
    let r = QuoteStore::load(&lines(&["\"Ok\"|Diane|S1E1", "", "\"Hello\"|Alice"]));
    assert_eq!(r.err(), Some(LoadError::MissingField { line: 3 }));
    let r = QuoteStore::load(&lines(&["just text"]));
    assert_eq!(r.err(), Some(LoadError::MissingField { line: 1 }));
}

#[test]
fn empty_text_or_speaker_is_a_missing_field() {
    assert_eq!(parse_line("\"\"|Todd|S1E1", 2, &tag()).err(), Some(LoadError::MissingField { line: 2 }));
    assert_eq!(parse_line("Hi|   |S1E1", 5, &tag()).err(), Some(LoadError::MissingField { line: 5 }));
}

#[test]
fn out_of_range_numbers_fail() {
    assert_eq!(parse_line("Hi|Todd|S256E1", 1, &tag()).err(), Some(LoadError::NumericRange { line: 1 }));
    assert_eq!(parse_line("Hi|Todd|S1E999", 9, &tag()).err(), Some(LoadError::NumericRange { line: 9 }));
    assert_eq!(parse_line("Hi|Todd|S255E255", 1, &tag()).unwrap(), quote("Hi", "Todd", 255, 255));
}

#[test]
fn non_ascii_digits_in_tag_fail_as_out_of_range() {
    assert_eq!(
        parse_line("Hi|Todd|S\u{663}E1", 1, &tag()).err(),
        Some(LoadError::NumericRange { line: 1 })
    );
}

#[test]
fn quote_from_parts_cases() {
    let s = |t: &str| Some(t.to_string());
    assert_eq!(
        quote_from_parts("Hi".to_string(), "Todd".to_string(), s("3"), s("12"), 1).unwrap(),
        quote("Hi", "Todd", 3, 12)
    );
    assert_eq!(
        quote_from_parts("Hi".to_string(), "Todd".to_string(), None, s("12"), 2).err(),
        Some(LoadError::MalformedTag { line: 2 })
    );
    assert_eq!(
        quote_from_parts("".to_string(), "Todd".to_string(), s("1"), s("1"), 3).err(),
        Some(LoadError::MissingField { line: 3 })
    );
    assert_eq!(
        quote_from_parts("Hi".to_string(), "Todd".to_string(), s("1"), s("300"), 4).err(),
        Some(LoadError::NumericRange { line: 4 })
    );
}

#[test]
fn formatted_four_variants() {
    let both_unknown = quote("Hi", "BoJack", 0, 0).formatted();
    let season_only = quote("Hi", "BoJack", 3, 0).formatted();
    let episode_only = quote("Hi", "BoJack", 0, 7).formatted();
    let both_known = quote("Hi", "BoJack", 3, 7).formatted();
    assert_eq!(both_unknown, "\"Hi\"\n\n - BoJack\n Season ?, Episode ?");
    assert_eq!(season_only, "\"Hi\"\n\n - BoJack\n Season 3, Episode ?");
    assert_eq!(episode_only, "\"Hi\"\n\n - BoJack\n Season ?, Episode 7");
    assert_eq!(both_known, "\"Hi\"\n\n - BoJack\n Season 3, Episode 7");
    let all = [&both_unknown, &season_only, &episode_only, &both_known];
    for i in 0..4 {
        for j in 0..4 {
            assert_eq!(i == j, all[i] == all[j]);
        }
    }
}

#[test]
fn formatted_multi_digit_numbers() {
    assert_eq!(quote("a", "b", 255, 10).formatted(), "\"a\"\n\n - b\n Season 255, Episode 10");
    assert_eq!(quote("a", "b", 100, 99).formatted(), "\"a\"\n\n - b\n Season 100, Episode 99");
}

#[test]
fn season_miss_returns_fallback() {
    let st = store(&["A|X|S1E1", "B|Y|S2E3"]);
    assert_eq!(st.pick_random_for_season(99), SEASON_MISS_REPLY);
}

#[test]
fn season_pick_stays_in_season() {
    let st = store(&["A|X|S1E1", "B|Y|S2E3", "C|Z|S2E4"]);
    for _ in 0..50 {
        let r = st.pick_random_for_season(2);
        assert!(r == quote("B", "Y", 2, 3).formatted() || r == quote("C", "Z", 2, 4).formatted());
    }
    assert_eq!(st.season_quote_at(2, 1), quote("C", "Z", 2, 4).formatted());
}

#[test]
fn pick_random_visits_every_quote() {
    let st = store(&["A|X|S1E1", "B|Y|S2E3", "C|Z|S3E4", "D|W|S4E5"]);
    let mut seen = [false; 4];
    for _ in 0..2000 {
        let r = st.pick_random().unwrap();
        let i = (0..4).find(|&i| st.quote_at(i) == r).unwrap();
        seen[i] = true;
    }
    assert!(seen.iter().all(|&s| s));
}

#[test]
fn empty_store_cannot_pick() {
    let st = store(&[]);
    assert_eq!(st.pick_random(), Err(PickError::EmptyStore));
    assert_eq!(st.reply_to_quote("/quote"), NO_QUOTES_REPLY);
    assert_eq!(st.pick_random_for_season(1), SEASON_MISS_REPLY);
}

#[test]
fn quote_trigger_gives_easter_egg() {
    let st = store(&["A|X|S1E1"]);
    assert_eq!(st.reply_to_quote("/quote plz"), EASTER_EGG_REPLY);
    assert_eq!(store(&[]).reply_to_quote("pretty plzzz"), EASTER_EGG_REPLY);
    assert_eq!(st.reply_to_quote("/quote PLZ"), quote("A", "X", 1, 1).formatted());
    assert_eq!(st.reply_to_quote("/quote"), quote("A", "X", 1, 1).formatted());
}

#[test]
fn season_without_digits_is_not_understood() {
    let st = store(&["A|X|S1E1"]);
    assert_eq!(st.reply_to_season("/season abc"), NOT_UNDERSTOOD_REPLY);
    assert_eq!(st.reply_to_season(""), NOT_UNDERSTOOD_REPLY);
    assert_eq!(st.reply_to_season("/season 300"), NOT_UNDERSTOOD_REPLY);
}

#[test]
fn season_command_reads_first_digit_run() {
    let st = store(&["A|X|S1E1", "B|Y|S2E3"]);
    assert_eq!(st.reply_to_season("/season 2 1"), quote("B", "Y", 2, 3).formatted());
    assert_eq!(st.reply_to_season("/season x1"), quote("A", "X", 1, 1).formatted());
    assert_eq!(st.reply_to_season("/season 7"), SEASON_MISS_REPLY);
    assert_eq!(st.reply_for_season(None), NOT_UNDERSTOOD_REPLY);
}

#[test]
fn season_from_digits_cases() {
    assert_eq!(season_from_digits(Some("12".to_string())), Some(12));
    assert_eq!(season_from_digits(Some("0".to_string())), Some(0));
    assert_eq!(season_from_digits(Some("256".to_string())), None);
    assert_eq!(season_from_digits(None), None);
}

#[test]
fn load_keeps_every_quote_in_order() {
    let src = [
        "\"One\"|A|S1E1",
        "",
        "\"Two\"|B|S1E2",
        "\"One\"|A|S1E1",
        "Three|C|S0E0",
    ];
    let st = store(&src);
    assert_eq!(st.len(), 4);
    let want = [
        quote("One", "A", 1, 1),
        quote("Two", "B", 1, 2),
        quote("One", "A", 1, 1),
        quote("Three", "C", 0, 0),
    ];
    for (i, q) in want.iter().enumerate() {
        assert_eq!(st.quote_at(i), q.formatted());
    }
    let qs = parse_lines(&lines(&src), &tag()).unwrap();
    assert_eq!(qs, want.to_vec());
}

#[test]
fn from_quotes_keeps_order() {
    let st = QuoteStore::from_quotes(vec![quote("a", "b", 1, 2), quote("c", "d", 3, 4)]).unwrap();
    assert_eq!(st.len(), 2);
    assert_eq!(st.quote_at(1), quote("c", "d", 3, 4).formatted());
}

#[test]
fn whitespace_only_line_fails_load() {
    let r = QuoteStore::load(&lines(&["\"Ok\"|Diane|S1E1", "   "]));
    assert_eq!(r.err(), Some(LoadError::MissingField { line: 2 }));
    let r = QuoteStore::load(&lines(&["", "A|X|S1E1", ""]));
    assert_eq!(r.map(|st| st.len()).ok(), Some(1));
}

#[test]
fn different_numbers_render_differently() {
    assert_ne!(quote("a", "b", 1, 2).formatted(), quote("a", "b", 12, 2).formatted());
    assert_ne!(quote("a", "b", 1, 2).formatted(), quote("a", "b", 1, 21).formatted());
}
