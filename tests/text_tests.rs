use dojo::text::{build_message, join_words, parse_id};
use dojo::{IdBatch, TodoError, TodoOptions};

fn words(items: &[&str]) -> Vec<String> {
    items.iter().map(|s| s.to_string()).collect()
}

#[test]
fn parse_id_reads_plain_and_signed_integers() {
    assert_eq!(parse_id("0"), Ok(0));
    assert_eq!(parse_id("17"), Ok(17));
    assert_eq!(parse_id("+17"), Ok(17));
    assert_eq!(parse_id("-17"), Ok(-17));
    assert_eq!(parse_id("007"), Ok(7));
}

#[test]
fn parse_id_takes_the_limits_of_i32() {
    assert_eq!(parse_id("2147483647"), Ok(i32::MAX));
    assert_eq!(parse_id("-2147483648"), Ok(i32::MIN));
    assert_eq!(parse_id("2147483648"), Err(TodoError::ParseError));
    assert_eq!(parse_id("-2147483649"), Err(TodoError::ParseError));
    assert_eq!(parse_id("99999999999999999999"), Err(TodoError::ParseError));
}

#[test]
fn parse_id_rejects_what_is_not_an_integer() {
    for s in ["", "+", "-", "abc", "1a", " 1", "1 ", "1.0", "--1", "١"] {
        assert_eq!(parse_id(s), Err(TodoError::ParseError), "{s:?}");
        assert_eq!(parse_id(s).is_ok(), s.parse::<i32>().is_ok(), "{s:?}");
    }
}

#[test]
fn join_words_puts_one_space_between_words() {
    assert_eq!(join_words(&[]), "");
    assert_eq!(join_words(&words(&["a"])), "a");
    assert_eq!(join_words(&words(&["a", "", "b"])), "a  b");
    assert_eq!(join_words(&words(&[" x ", "y"])), " x  y");
}

#[test]
fn build_message_trims_the_ends() {
    assert_eq!(build_message(&words(&["  padded  "])), "padded");
    assert_eq!(build_message(&words(&["\tbuy", "milk\n"])), "buy milk");
    assert_eq!(build_message(&words(&["   "])), "");
}

#[test]
fn new_todo_builds_the_row() {
    let new = TodoOptions::new_todo(&words(&["buy", "milk"]), 42).ok().unwrap();
    assert_eq!(new.message, "buy milk");
    assert_eq!(new.is_done, false);
    assert_eq!(new.created_at, 42);
    assert!(matches!(TodoOptions::new_todo(&[], 42), Err(TodoError::InvalidArgument)));
}

#[test]
fn id_batch_splits_ids_and_skipped() {
    let IdBatch { ids, skipped } = TodoOptions::id_batch(&words(&["3", "abc", "-2", "4x"])).ok().unwrap();
    assert_eq!(ids, vec![3, -2]);
    assert_eq!(skipped, words(&["abc", "4x"]));
    assert!(matches!(TodoOptions::id_batch(&[]), Err(TodoError::InvalidArgument)));
}

#[test]
fn build_message_trims_unicode_white_space_only() {
    assert_eq!(build_message(&words(&["\u{3000}\u{85}a\u{a0}", "b\u{2029}"])), "a\u{a0} b");
    assert_eq!(build_message(&words(&["\u{200b}a"])), "\u{200b}a");
    for s in ["\u{1680}x\u{205f}", "\u{2000}\u{200a}y\u{202f}", "\u{b}\u{c}z\r"] {
        assert_eq!(build_message(&words(&[s])), s.trim());
    }
}
