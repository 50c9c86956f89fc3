use tweet_media::text::{
    chars_of, find, last_segment, matches_at, push_chars, push_decimal, push_signed_decimal,
    push_str, string_of,
};

fn decimal(n: u64) -> String {
    let mut out = Vec::new();
    push_decimal(&mut out, n);
    string_of(&out)
}

fn signed(n: i64) -> String {
    let mut out = Vec::new();
    push_signed_decimal(&mut out, n);
    string_of(&out)
}

#[test]
fn chars_and_strings_convert_both_ways() {
    assert_eq!(chars_of("héllo"), vec!['h', 'é', 'l', 'l', 'o']);
    assert_eq!(chars_of(""), Vec::<char>::new());
    assert_eq!(string_of(&['a', 'ß', 'c']), "aßc");
    assert_eq!(string_of(&chars_of("data/images/")), "data/images/");
}

#[test]
fn decimal_writes_digits_without_leading_zeros() {
    assert_eq!(decimal(0), "0");
    assert_eq!(decimal(9), "9");
    assert_eq!(decimal(10), "10");
    assert_eq!(decimal(42), "42");
    assert_eq!(decimal(1234567890), "1234567890");
    assert_eq!(decimal(u64::MAX), "18446744073709551615");
}

#[test]
fn signed_decimal_puts_a_minus_before_what_is_below_zero() {
    assert_eq!(signed(0), "0");
    assert_eq!(signed(17), "17");
    assert_eq!(signed(-7), "-7");
    assert_eq!(signed(i64::MAX), "9223372036854775807");
    assert_eq!(signed(i64::MIN), "-9223372036854775808");
}

#[test]
fn push_appends_behind_what_is_there() {
    let mut out = vec!['x'];
    push_str(&mut out, "ab");
    push_chars(&mut out, &['c', 'd']);
    push_decimal(&mut out, 5);
    assert_eq!(string_of(&out), "xabcd5");
}

#[test]
fn find_looks_for_the_needle_everywhere() {
    let hay = chars_of("https://pbs.twimg.com/ext_tw_video_thumb/1/pu/img/x.jpg");
    assert!(find(&hay, &chars_of("ext_tw_video_thumb")));
    assert!(find(&hay, &chars_of("https")));
    assert!(find(&hay, &chars_of(".jpg")));
    assert!(find(&hay, &chars_of("")));
    assert!(!find(&hay, &chars_of("ext_tw_video_thumbs")));
    assert!(!find(&chars_of("ext_tw_video_thum"), &chars_of("ext_tw_video_thumb")));
    assert!(find(&chars_of(""), &chars_of("")));
    assert!(!find(&chars_of(""), &chars_of("a")));
    assert!(find(&chars_of("aab"), &chars_of("ab")));
}

#[test]
fn matches_at_compares_at_one_place() {
    let hay = chars_of("abcabc");
    assert!(matches_at(&hay, &chars_of("abc"), 0));
    assert!(matches_at(&hay, &chars_of("abc"), 3));
    assert!(!matches_at(&hay, &chars_of("abc"), 1));
    assert!(matches_at(&hay, &chars_of(""), 6));
}

#[test]
fn last_segment_is_what_follows_the_last_separator() {
    assert_eq!(string_of(&last_segment(&chars_of("https://pbs.twimg.com/media/abc.jpg"), '/')), "abc.jpg");
    assert_eq!(string_of(&last_segment(&chars_of("abc.jpg"), '/')), "abc.jpg");
    assert_eq!(string_of(&last_segment(&chars_of("a/b/"), '/')), "");
    assert_eq!(string_of(&last_segment(&chars_of(""), '/')), "");
    assert_eq!(string_of(&last_segment(&chars_of("/x"), '/')), "x");
}
