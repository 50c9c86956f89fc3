use tweet_media::error::ArchiverError;
use tweet_media::json::{Json, Number};
use tweet_media::run::{Action, Event, Run, Stage};
use tweet_media::timestamp::ModificationTime;

const IMAGE_FILE: &str = "Grailbird.data.tweets_2019_01 = \n[ {\n  \"id\" : 42,\n  \"user\" : { \"screen_name\" : \"alice\" },\n  \"entities\" : { \"media\" : [ { \"media_url_https\" : \"https://pbs.twimg.com/media/abc.jpg\" } ] }\n} ]";
const VIDEO_FILE: &str = "Grailbird.data.tweets_2019_02 = \n[ {\n  \"id\" : 42,\n  \"user\" : { \"screen_name\" : \"alice\" },\n  \"entities\" : { \"media\" : [ { \"media_url_https\" : \"https://pbs.twimg.com/ext_tw_video_thumb/9/pu/img/abc.jpg\" } ] }\n} ]";

fn content(text: &str) -> Event {
    Event::Content { text: text.to_string() }
}

fn print(line: &str) -> Action {
    Action::Print { line: line.to_string() }
}

fn begin(root: &str, want_videos: bool, files: usize) -> Run {
    let (run, action) = Run::start(root, want_videos);
    assert_eq!(action, Action::Locate { pattern: format!("{}/data/js/tweets/*.js", root) });
    assert_eq!(run.stage(), Stage::Locating);
    let (run, action) = run.step(Event::Located { count: files });
    assert_eq!(action, Action::Read { file: 0 });
    assert_eq!(run.stage(), Stage::Reading);
    run
}

#[test]
fn a_run_without_data_files_fails_and_does_nothing_else() {
    for want_videos in [true, false] {
        let (run, action) = Run::start("/no/archive", want_videos);
        assert_eq!(action, Action::Locate { pattern: "/no/archive/data/js/tweets/*.js".to_string() });
        assert!(!run.is_over());
        let (run, action) = run.step(Event::Located { count: 0 });
        assert_eq!(action, Action::Fail { error: ArchiverError::MissingTweetData("/no/archive".to_string()) });
        assert_eq!(run.stage(), Stage::Failed);
        assert!(run.is_over());
        let (run, action) = run.step(Event::Completed);
        assert_eq!(action, Action::Fail { error: ArchiverError::UnexpectedEvent });
        assert!(run.is_over());
    }
}

#[test]
fn an_image_tweet_is_downloaded() {
    let run = begin("archive", false, 1);
    let (run, action) = run.step(content(IMAGE_FILE));
    assert_eq!(action, Action::CreateDirectory { path: "archive/data/images/".to_string() });
    let (run, action) = run.step(Event::Completed);
    assert_eq!(action, Action::Probe { path: "archive/data/images/42-abc.jpg".to_string() });
    let (run, action) = run.step(Event::Probed { exists: false });
    assert_eq!(action, Action::Fetch { url: "https://pbs.twimg.com/media/abc.jpg:orig".to_string() });
    let (run, action) = run.step(Event::Fetched { last_modified: Some("Wed, 18 Feb 2015 23:16:09 GMT".to_string()) });
    assert_eq!(
        action,
        Action::Store {
            path: "archive/data/images/42-abc.jpg".to_string(),
            modified: ModificationTime { seconds: 1424301369, nanoseconds: 0 },
        }
    );
    let (run, action) = run.step(Event::Completed);
    assert_eq!(action, print("downloaded https://pbs.twimg.com/media/abc.jpg:orig to archive/data/images/42-abc.jpg."));
    let (run, action) = run.step(Event::Completed);
    assert_eq!(action, Action::Finish);
    assert_eq!(run.stage(), Stage::Finished);
    assert!(run.is_over());
}

#[test]
fn an_image_tweet_is_not_listed() {
    let run = begin("archive", true, 1);
    let (run, action) = run.step(content(IMAGE_FILE));
    assert_eq!(action, Action::Finish);
    assert!(run.is_over());
}

#[test]
fn a_video_tweet_is_listed() {
    let run = begin("archive", true, 1);
    let (run, action) = run.step(content(VIDEO_FILE));
    assert_eq!(action, print("https://twitter.com/alice/status/42"));
    assert_eq!(run.stage(), Stage::Listing);
    let (run, action) = run.step(Event::Completed);
    assert_eq!(action, Action::Finish);
    assert!(run.is_over());
}

#[test]
fn a_video_tweet_is_not_downloaded() {
    let run = begin("archive", false, 1);
    let (run, action) = run.step(content(VIDEO_FILE));
    assert_eq!(action, Action::CreateDirectory { path: "archive/data/images/".to_string() });
    let (run, action) = run.step(Event::Completed);
    assert_eq!(action, Action::Finish);
    assert!(run.is_over());
}

#[test]
fn a_file_that_is_there_is_skipped_and_nothing_is_fetched() {
    let file = "x =\n[ {\"id\": 7, \"entities\": {\"media\": [
        {\"media_url_https\": \"https://h/a.jpg\"}, {\"media_url_https\": \"https://h/b.jpg\"}]}},
        {\"id\": 8, \"entities\": {\"media\": [{\"media_url_https\": \"https://h/c.jpg\"}]}} ]";
    let run = begin("r", false, 1);
    let (run, action) = run.step(content(file));
    assert_eq!(action, Action::CreateDirectory { path: "r/data/images/".to_string() });
    let (mut run, mut action) = run.step(Event::Completed);
    let mut seen = Vec::new();
    while !run.is_over() {
        let event = match &action {
            Action::Probe { path } => {
                seen.push(path.clone());
                Event::Probed { exists: true }
            }
            Action::Print { line } => {
                seen.push(line.clone());
                Event::Completed
            }
            other => panic!("unexpected action {:?}", other),
        };
        let next = run.step(event);
        run = next.0;
        action = next.1;
    }
    assert_eq!(action, Action::Finish);
    assert_eq!(
        seen,
        vec![
            "r/data/images/7-a.jpg",
            "already exists: r/data/images/7-a.jpg",
            "r/data/images/7-b.jpg",
            "already exists: r/data/images/7-b.jpg",
            "r/data/images/8-c.jpg",
            "already exists: r/data/images/8-c.jpg",
        ]
    );
}

#[test]
fn files_are_taken_one_after_the_other() {
    let run = begin("r", true, 3);
    let (run, action) = run.step(content("x =\n[]"));
    assert_eq!(action, Action::Read { file: 1 });
    let (run, action) = run.step(content(VIDEO_FILE));
    assert_eq!(action, print("https://twitter.com/alice/status/42"));
    let (run, action) = run.step(Event::Completed);
    assert_eq!(action, Action::Read { file: 2 });
    let (run, action) = run.step(content(IMAGE_FILE));
    assert_eq!(action, Action::Finish);
    assert!(run.is_over());
}

#[test]
fn the_directory_is_made_for_every_file() {
    let run = begin("r", false, 2);
    let (run, action) = run.step(content("x =\n[]"));
    assert_eq!(action, Action::CreateDirectory { path: "r/data/images/".to_string() });
    let (run, action) = run.step(Event::Completed);
    assert_eq!(action, Action::Read { file: 1 });
    let (run, action) = run.step(content("x =\n[]"));
    assert_eq!(action, Action::CreateDirectory { path: "r/data/images/".to_string() });
    let (run, action) = run.step(Event::Completed);
    assert_eq!(action, Action::Finish);
    assert!(run.is_over());
}

#[test]
fn a_data_file_that_cannot_be_read_stops_the_run() {
    let run = begin("r", true, 2);
    let (run, action) = run.step(content("x =\n[ {"));
    assert!(matches!(action, Action::Fail { error: ArchiverError::InvalidJson(_) }));
    assert_eq!(run.stage(), Stage::Failed);
    let run = begin("r", false, 2);
    let (run, action) = run.step(content("x =\n{}"));
    assert_eq!(action, Action::Fail { error: ArchiverError::NotAnArray });
    assert!(run.is_over());
    let run = begin("r", false, 2);
    let (run, action) = run.step(content("x =\n[{\"entities\": {\"media\": 1}}]"));
    assert_eq!(action, Action::Fail { error: ArchiverError::MalformedRecord });
    assert!(run.is_over());
}

#[test]
fn a_tweet_that_cannot_be_listed_stops_the_run_when_its_turn_comes() {
    let file = "x =\n[
        {\"id\": 1, \"user\": {\"screen_name\": \"a\"}, \"entities\": {\"media\": [{\"media_url_https\": \"ext_tw_video_thumb/1.jpg\"}]}},
        {\"id\": 2, \"entities\": {\"media\": [{\"media_url_https\": \"ext_tw_video_thumb/2.jpg\"}]}} ]";
    let run = begin("r", true, 1);
    let (run, action) = run.step(content(file));
    assert_eq!(action, print("https://twitter.com/a/status/1"));
    let (run, action) = run.step(Event::Completed);
    assert_eq!(action, Action::Fail { error: ArchiverError::MalformedRecord });
    assert!(run.is_over());
}

#[test]
fn a_response_without_a_usable_date_stops_the_run() {
    for (header, missing) in [(None, true), (Some("not a date".to_string()), false)] {
        let run = begin("r", false, 1);
        let (run, _) = run.step(content(IMAGE_FILE));
        let (run, _) = run.step(Event::Completed);
        let (run, action) = run.step(Event::Probed { exists: false });
        assert!(matches!(action, Action::Fetch { .. }));
        assert_eq!(run.stage(), Stage::Fetching);
        let (run, action) = run.step(Event::Fetched { last_modified: header });
        if missing {
            assert_eq!(action, Action::Fail { error: ArchiverError::MissingLastModified });
        } else {
            assert!(matches!(action, Action::Fail { error: ArchiverError::InvalidLastModified(_) }));
        }
        assert!(run.is_over());
    }
}

#[test]
fn an_event_out_of_turn_stops_the_run() {
    let unexpected = Action::Fail { error: ArchiverError::UnexpectedEvent };
    let (run, _) = Run::start("r", true);
    assert_eq!(run.step(Event::Completed).1, unexpected);
    let (run, _) = Run::start("r", true);
    assert_eq!(run.step(content("x =\n[]")).1, unexpected);
    let (run, _) = Run::start("r", false);
    assert_eq!(run.step(Event::Probed { exists: false }).1, unexpected);
    let (run, _) = Run::start("r", false);
    assert_eq!(run.step(Event::Fetched { last_modified: None }).1, unexpected);
    let (run, action) = begin("r", true, 1).step(Event::Located { count: 4 });
    assert_eq!(action, unexpected);
    assert_eq!(run.stage(), Stage::Failed);
    let (run, _) = begin("r", true, 1).step(content("x =\n[]"));
    assert_eq!(run.stage(), Stage::Finished);
    let (run, action) = run.step(Event::Completed);
    assert_eq!(action, unexpected);
    assert_eq!(run.stage(), Stage::Failed);
}

#[test]
fn the_steps_by_name_do_what_step_does() {
    let tweet = Json::Object(vec![
        ("id".to_string(), Json::Number(Number::Unsigned(5))),
        (
            "entities".to_string(),
            Json::Object(vec![(
                "media".to_string(),
                Json::Array(vec![Json::Object(vec![(
                    "media_url_https".to_string(),
                    Json::Text("https://h/p/q.png".to_string()),
                )])]),
            )]),
        ),
    ]);
    let (run, _) = Run::start("", false);
    let (run, action) = run.located(1);
    assert_eq!(action, Action::Read { file: 0 });
    let (run, action) = run.read(Ok(vec![tweet]));
    assert_eq!(action, Action::CreateDirectory { path: "data/images/".to_string() });
    let (run, action) = run.completed();
    assert_eq!(action, Action::Probe { path: "data/images/5-q.png".to_string() });
    let (run, action) = run.probed(false);
    assert_eq!(action, Action::Fetch { url: "https://h/p/q.png:orig".to_string() });
    let (run, action) = run.fetched(Ok(ModificationTime { seconds: 12, nanoseconds: 0 }));
    assert_eq!(
        action,
        Action::Store { path: "data/images/5-q.png".to_string(), modified: ModificationTime { seconds: 12, nanoseconds: 0 } }
    );
    let (run, action) = run.completed();
    assert_eq!(action, print("downloaded https://h/p/q.png:orig to data/images/5-q.png."));
    let (run, action) = run.completed();
    assert_eq!(action, Action::Finish);
    assert!(run.is_over());
    let (run, _) = Run::start("r", false);
    let (run, _) = run.located(1);
    let (run, action) = run.read(Err(ArchiverError::NotAnArray));
    assert_eq!(action, Action::Fail { error: ArchiverError::NotAnArray });
    assert!(run.is_over());
}
