use tweet_media::error::ArchiverError;
use tweet_media::json::{Json, Number};
use tweet_media::parser::{join_lines, parse_records, records_of, skip_first_line, strip_preamble};
use tweet_media::text::{chars_of, string_of};

#[test]
fn strip_preamble_drops_the_first_line() {
    assert_eq!(strip_preamble("Grailbird.data.tweets_2019_01 =\n[]"), "[]");
    assert_eq!(strip_preamble("x\n[\n{\"a\": 1}\n]\n"), "[{\"a\": 1}]");
}

#[test]
fn strip_preamble_joins_the_other_lines() {
    assert_eq!(strip_preamble("first\n[ {\n \"id\" : 1\n} ]"), "[ { \"id\" : 1} ]");
    assert_eq!(strip_preamble("first\r\n[1,\r\n2]\r\n"), "[1,2]");
}

#[test]
fn strip_preamble_keeps_a_carriage_return_that_ends_no_line() {
    assert_eq!(strip_preamble("first\na\rb\n"), "a\rb");
    assert_eq!(strip_preamble("first\na\r\r\nb"), "a\rb");
    assert_eq!(strip_preamble("first\nlast\r"), "last\r");
}

#[test]
fn strip_preamble_of_one_line_is_empty() {
    assert_eq!(strip_preamble(""), "");
    assert_eq!(strip_preamble("[1, 2]"), "");
    assert_eq!(strip_preamble("only\n"), "");
    assert_eq!(strip_preamble("\n"), "");
    assert_eq!(strip_preamble("\n\n[]"), "[]");
}

#[test]
fn strip_preamble_agrees_with_the_lines_of_std() {
    let samples = [
        "", "a", "\n", "a\nb", "a\nb\n", "a\r\nb\r\nc", "a\n\rb\n", "h\n\r\n\r\n", "h\nx\r",
        "h\n\r\r\n\n\r", "var x =\n[ {\n\"id\" : 7\r\n} ]\n",
    ];
    for sample in samples {
        let expected: String = sample.lines().skip(1).collect();
        assert_eq!(strip_preamble(sample), expected, "for {:?}", sample);
    }
}

#[test]
fn skip_first_line_and_join_lines_do_their_halves() {
    assert_eq!(string_of(skip_first_line(&chars_of("a\nb\nc"))), "b\nc");
    assert_eq!(string_of(skip_first_line(&chars_of("abc"))), "");
    assert_eq!(string_of(&join_lines(&chars_of("a\nb\r\nc\r"))), "abc\r");
}

#[test]
fn records_of_takes_the_items_of_an_array() {
    let document = Json::Array(vec![Json::Null, Json::Bool(true)]);
    assert_eq!(records_of(document), Ok(vec![Json::Null, Json::Bool(true)]));
    assert_eq!(records_of(Json::Array(vec![])), Ok(vec![]));
}

#[test]
fn records_of_refuses_what_is_no_array() {
    assert_eq!(records_of(Json::Null), Err(ArchiverError::NotAnArray));
    assert_eq!(records_of(Json::Object(vec![])), Err(ArchiverError::NotAnArray));
    assert_eq!(records_of(Json::Text("[]".to_string())), Err(ArchiverError::NotAnArray));
}

#[test]
fn parse_records_reads_the_tweets_behind_the_first_line() {
    let content = "Grailbird.data.tweets_2019_01 = \n[ {\n  \"id\" : 42\n}, {\n  \"id\" : 43\n} ]";
    let records = parse_records(content).unwrap();
    assert_eq!(records.len(), 2);
    assert_eq!(records[0].get("id"), Some(&Json::Number(Number::Unsigned(42))));
    assert_eq!(records[1].get("id"), Some(&Json::Number(Number::Unsigned(43))));
}

#[test]
fn parse_records_does_not_read_the_first_line() {
    assert_eq!(parse_records("[1, 2, 3]\n[]"), Ok(vec![]));
    assert!(matches!(parse_records("[1, 2, 3]"), Err(ArchiverError::InvalidJson(_))));
}

#[test]
fn parse_records_fails_on_what_is_no_json() {
    assert!(matches!(parse_records("x =\n[ {"), Err(ArchiverError::InvalidJson(_))));
    assert!(matches!(parse_records("x =\n"), Err(ArchiverError::InvalidJson(_))));
    assert!(matches!(parse_records(""), Err(ArchiverError::InvalidJson(_))));
}

#[test]
fn parse_records_fails_on_what_is_no_array() {
    assert_eq!(parse_records("x =\n{\"id\": 1}"), Err(ArchiverError::NotAnArray));
    assert_eq!(parse_records("x =\n\"text\""), Err(ArchiverError::NotAnArray));
    assert_eq!(parse_records("x =\nnull"), Err(ArchiverError::NotAnArray));
}
