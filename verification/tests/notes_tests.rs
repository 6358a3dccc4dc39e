//! Tests of the note logic, typed argument parsing, configuration defaults
//! and color decoration.

use rustic_notes::cli_parser::{
    parse_u32_str, CliArgument, CliArgumentParsable, CliArgumentSpecification,
};
use rustic_notes::config::RusticConfig;
use rustic_notes::notes::{
    get_next_id, get_note_by_id, remove_note_by_id, slow_search, str_contains, upsert_note,
    RusticNote,
};
use rustic_notes::print_utils::{bg_colorize, colorize, Color};

fn note(id: u32, content: &str) -> RusticNote {
    RusticNote { id, content: content.to_string(), tags: vec![] }
}

#[test]
fn next_id_is_one_for_an_empty_list() {
    assert_eq!(get_next_id(&vec![]), 1);
}

#[test]
fn next_id_is_one_past_the_largest() {
    let notes = vec![note(3, "a"), note(9, "b"), note(2, "c")];
    assert_eq!(get_next_id(&notes), 10);
}

#[test]
fn new_note_takes_the_next_free_id() {
    let notes = vec![note(5, "a")];
    let n = RusticNote::new(&notes, "fresh".to_string(), vec!["t".to_string()]);
    assert_eq!(n.id, 6);
    assert_eq!(n.content, "fresh");
    assert_eq!(n.tags, vec!["t".to_string()]);
}

#[test]
fn get_note_by_id_finds_the_first_match() {
    let notes = vec![note(1, "one"), note(2, "two")];
    assert_eq!(get_note_by_id(&notes, 2).map(|n| n.content), Some("two".to_string()));
    assert!(get_note_by_id(&notes, 7).is_none());
}

#[test]
fn remove_note_by_id_drops_only_that_id() {
    let notes = vec![note(1, "one"), note(2, "two"), note(3, "three")];
    let left = remove_note_by_id(&notes, 2);
    let ids: Vec<u32> = left.iter().map(|n| n.id).collect();
    assert_eq!(ids, vec![1, 3]);
}

#[test]
fn upsert_note_replaces_in_place_or_appends() {
    let notes = vec![note(1, "one"), note(2, "two")];
    let replaced = upsert_note(notes, note(1, "changed"));
    assert_eq!(replaced.len(), 2);
    assert_eq!(replaced[0].content, "changed");
    assert_eq!(replaced[1].content, "two");
    let appended = upsert_note(replaced, note(9, "nine"));
    assert_eq!(appended.len(), 3);
    assert_eq!(appended[2].id, 9);
}

#[test]
fn str_contains_finds_substrings_and_the_empty_needle() {
    assert!(str_contains("hello world", "lo wo"));
    assert!(str_contains("hello", ""));
    assert!(str_contains("hello", "hello"));
    assert!(!str_contains("hello", "world"));
    assert!(!str_contains("ab", "abc"));
}

#[test]
fn slow_search_keeps_matching_notes_in_order() {
    let notes = vec![note(1, "buy milk"), note(2, "sell milk"), note(3, "rest")];
    let hits = slow_search(&notes, "milk");
    let ids: Vec<u32> = hits.iter().map(|n| n.id).collect();
    assert_eq!(ids, vec![1, 2]);
    assert!(slow_search(&notes, "coffee").is_empty());
}

#[test]
fn u32_parsing_accepts_decimals_with_an_optional_plus() {
    assert_eq!(parse_u32_str("123"), Some(123));
    assert_eq!(parse_u32_str("+7"), Some(7));
    assert_eq!(parse_u32_str("007"), Some(7));
    assert_eq!(parse_u32_str("0"), Some(0));
    assert_eq!(parse_u32_str("4294967295"), Some(u32::MAX));
}

#[test]
fn u32_parsing_rejects_junk_and_overflow() {
    assert_eq!(parse_u32_str(""), None);
    assert_eq!(parse_u32_str("+"), None);
    assert_eq!(parse_u32_str("12a"), None);
    assert_eq!(parse_u32_str("-3"), None);
    assert_eq!(parse_u32_str(" 5"), None);
    assert_eq!(parse_u32_str("4294967296"), None);
    assert_eq!(parse_u32_str("99999999999999999999"), None);
}

#[test]
fn string_argument_takes_the_last_value() {
    let values = vec!["a".to_string(), "b".to_string()];
    assert_eq!(String::parse_argument(&values), Ok("b".to_string()));
    let empty: Vec<String> = vec![];
    assert_eq!(String::parse_argument(&empty), Err(()));
}

#[test]
fn u32_argument_parses_the_first_value() {
    let values = vec!["41".to_string(), "9".to_string()];
    assert_eq!(u32::parse_argument(&values), Ok(41));
    assert_eq!(u32::parse_argument(&["x".to_string()]), Err(()));
    let empty: Vec<String> = vec![];
    assert_eq!(u32::parse_argument(&empty), Err(()));
}

#[test]
fn bool_argument_folds_case_before_matching() {
    // depends on the case folding really happening: "TRUE" itself matches
    // no accepted literal
    assert_eq!(bool::parse_argument(&["TRUE".to_string()]), Ok(true));
    assert_eq!(bool::parse_argument(&["False".to_string()]), Ok(false));
    assert_eq!(bool::parse_argument(&["1".to_string()]), Ok(true));
    assert_eq!(bool::parse_argument(&["0".to_string()]), Ok(false));
    assert_eq!(bool::parse_argument(&["maybe".to_string()]), Err(()));
    let empty: Vec<String> = vec![];
    assert_eq!(bool::parse_argument(&empty), Err(()));
}

#[test]
fn list_argument_parses_every_value_or_fails_whole() {
    let values = vec!["1".to_string(), "2".to_string()];
    assert_eq!(Vec::<u32>::parse_argument(&values), Ok(vec![1, 2]));
    let bad = vec!["1".to_string(), "x".to_string()];
    assert_eq!(Vec::<u32>::parse_argument(&bad), Err(()));
    let empty: Vec<String> = vec![];
    assert_eq!(Vec::<u32>::parse_argument(&empty), Err(()));
}

#[test]
fn cli_argument_holds_the_parsed_value_or_nothing() {
    let spec = CliArgumentSpecification {
        name: "count".to_string(),
        short_name: Some("c".to_string()),
        is_flag: false,
        optional: true,
    };
    let mut arg: CliArgument<u32> = CliArgument::new(spec);
    assert!(arg.value.is_none());
    arg.set_value(&vec!["12".to_string()]);
    assert_eq!(arg.value, Some(12));
    arg.set_value(&vec!["nope".to_string()]);
    assert_eq!(arg.value, None);
}

#[test]
fn config_defaults_to_the_current_directory_and_no_editor() {
    let config = RusticConfig::default();
    assert_eq!(config.notes_directory, ".");
    assert!(config.editor.is_none());
}

#[test]
fn colorize_wraps_in_exact_escape_sequences() {
    assert_eq!(colorize(Color::new(1, 22, 133), "hi"), "\x1b[38;2;1;22;133mhi\x1b[0m");
    assert_eq!(bg_colorize(Color::new(0, 0, 255), "x"), "\x1b[48;2;0;0;255mx\x1b[0m");
}

#[test]
fn builtin_colors_render_their_documented_channels() {
    assert_eq!(colorize(Color::success(), "ok"), "\x1b[38;2;166;227;161mok\x1b[0m");
    assert_eq!(colorize(Color::warning(), "w"), "\x1b[38;2;249;226;175mw\x1b[0m");
    assert_eq!(colorize(Color::error(), "e"), "\x1b[38;2;243;139;168me\x1b[0m");
}

#[test]
fn next_id_works_right_below_the_ceiling() {
    let notes = vec![note(u32::MAX - 1, "almost")];
    assert_eq!(get_next_id(&notes), u32::MAX);
}
