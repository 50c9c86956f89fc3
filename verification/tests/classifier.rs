use tweet_media::classifier::{classify, keep, retain, video_url, Class, VIDEO_MARKER};
use tweet_media::error::ArchiverError;
use tweet_media::json::{parse, Json, Number};

fn text(s: &str) -> Json {
    Json::Text(s.to_string())
}

fn object(members: Vec<(&str, Json)>) -> Json {
    Json::Object(members.into_iter().map(|(name, value)| (name.to_string(), value)).collect())
}

fn entry(url: &str) -> Json {
    object(vec![("media_url_https", text(url))])
}

fn tweet(id: u64, reshare: Json, media: Json) -> Json {
    object(vec![
        ("id", Json::Number(Number::Unsigned(id))),
        ("user", object(vec![("screen_name", text("alice"))])),
        ("retweeted_status", reshare),
        ("entities", object(vec![("media", media)])),
    ])
}

const IMAGE: &str = "https://pbs.twimg.com/media/abc.jpg";
const VIDEO: &str = "https://pbs.twimg.com/ext_tw_video_thumb/1/pu/img/def.jpg";

#[test]
fn the_marker_is_the_known_one() {
    assert_eq!(VIDEO_MARKER, "ext_tw_video_thumb");
}

#[test]
fn video_url_looks_for_the_marker() {
    assert!(video_url(VIDEO));
    assert!(!video_url(IMAGE));
    assert!(video_url("ext_tw_video_thumb"));
    assert!(!video_url("ext_tw_video_thum"));
    assert!(!video_url(""));
}

#[test]
fn a_retweet_is_excluded_in_both_modes_whatever_its_media() {
    let with_image = tweet(1, object(vec![("id", Json::Number(Number::Unsigned(9)))]), Json::Array(vec![entry(IMAGE)]));
    let with_video = tweet(2, text("any"), Json::Array(vec![entry(VIDEO)]));
    let with_broken = tweet(3, Json::Bool(false), text("no array"));
    for record in [&with_image, &with_video, &with_broken] {
        assert_eq!(classify(record), Ok(Class::Reshare));
        assert_eq!(keep(record, true), Ok(false));
        assert_eq!(keep(record, false), Ok(false));
    }
}

#[test]
fn a_tweet_without_media_is_excluded_in_both_modes() {
    let empty = tweet(1, Json::Null, Json::Array(vec![]));
    let null = tweet(2, Json::Null, Json::Null);
    let no_media = object(vec![("id", Json::Number(Number::Unsigned(3))), ("entities", object(vec![]))]);
    let no_entities = object(vec![("id", Json::Number(Number::Unsigned(4)))]);
    for record in [&empty, &null, &no_media, &no_entities] {
        assert_eq!(classify(record), Ok(Class::TextOnly));
        assert_eq!(keep(record, true), Ok(false));
        assert_eq!(keep(record, false), Ok(false));
    }
}

#[test]
fn the_first_media_entry_alone_decides() {
    let image_first = tweet(1, Json::Null, Json::Array(vec![entry(IMAGE), entry(VIDEO)]));
    assert_eq!(classify(&image_first), Ok(Class::Image));
    assert_eq!(keep(&image_first, false), Ok(true));
    assert_eq!(keep(&image_first, true), Ok(false));
    let video_first = tweet(2, Json::Null, Json::Array(vec![entry(VIDEO), entry(IMAGE)]));
    assert_eq!(classify(&video_first), Ok(Class::Video));
    assert_eq!(keep(&video_first, true), Ok(true));
    assert_eq!(keep(&video_first, false), Ok(false));
    let broken_later = tweet(3, Json::Null, Json::Array(vec![entry(IMAGE), Json::Null]));
    assert_eq!(classify(&broken_later), Ok(Class::Image));
}

#[test]
fn an_absent_retweet_reference_is_none() {
    let record = object(vec![("entities", object(vec![("media", Json::Array(vec![entry(IMAGE)]))]))]);
    assert_eq!(classify(&record), Ok(Class::Image));
}

#[test]
fn media_of_an_unexpected_shape_are_malformed() {
    let not_array = tweet(1, Json::Null, text("x"));
    assert_eq!(classify(&not_array), Err(ArchiverError::MalformedRecord));
    assert_eq!(keep(&not_array, true), Err(ArchiverError::MalformedRecord));
    let no_url = tweet(2, Json::Null, Json::Array(vec![object(vec![])]));
    assert_eq!(classify(&no_url), Err(ArchiverError::MalformedRecord));
    let url_no_text = tweet(3, Json::Null, Json::Array(vec![object(vec![("media_url_https", Json::Bool(true))])]));
    assert_eq!(keep(&url_no_text, false), Err(ArchiverError::MalformedRecord));
    let entry_no_object = tweet(4, Json::Null, Json::Array(vec![text(IMAGE)]));
    assert_eq!(classify(&entry_no_object), Err(ArchiverError::MalformedRecord));
}

#[test]
fn retain_keeps_the_wanted_tweets_in_their_order() {
    let make = || {
        vec![
            tweet(1, Json::Null, Json::Array(vec![entry(IMAGE)])),
            tweet(2, Json::Null, Json::Array(vec![entry(VIDEO)])),
            tweet(3, text("rt"), Json::Array(vec![entry(IMAGE)])),
            tweet(4, Json::Null, Json::Array(vec![])),
            tweet(5, Json::Null, Json::Array(vec![entry(IMAGE), entry(VIDEO)])),
            tweet(6, Json::Null, Json::Array(vec![entry(VIDEO)])),
        ]
    };
    let ids = |kept: Vec<Json>| -> Vec<Json> { kept.iter().map(|r| Json::Number(match r.get("id") { Some(Json::Number(Number::Unsigned(n))) => Number::Unsigned(*n), _ => panic!("no id") })).collect() };
    let n = |v: u64| Json::Number(Number::Unsigned(v));
    assert_eq!(ids(retain(make(), false).unwrap()), vec![n(1), n(5)]);
    assert_eq!(ids(retain(make(), true).unwrap()), vec![n(2), n(6)]);
    assert_eq!(retain(vec![], true), Ok(vec![]));
}

#[test]
fn retain_fails_where_one_tweet_cannot_be_classed() {
    let records = vec![
        tweet(1, Json::Null, Json::Array(vec![entry(IMAGE)])),
        tweet(2, Json::Null, Json::Bool(true)),
    ];
    assert_eq!(retain(records, false), Err(ArchiverError::MalformedRecord));
}

#[test]
fn classify_reads_what_the_json_reader_hands_over() {
    let record = parse("{\"retweeted_status\": null, \"entities\": {\"media\": [{\"media_url_https\": \"https://pbs.twimg.com/ext_tw_video_thumb/7/pu/img/q.jpg\"}]}}").unwrap();
    assert_eq!(classify(&record), Ok(Class::Video));
    let record = parse("{\"retweeted_status\": {\"id\": 5}, \"entities\": {\"media\": []}}").unwrap();
    assert_eq!(classify(&record), Ok(Class::Reshare));
}
