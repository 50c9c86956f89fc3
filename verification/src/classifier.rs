//! Which tweets carry media, and of which kind.
//!
//! A retweet is never kept, nor a tweet without media. Any other tweet is an
//! image tweet or a video tweet, and the address of its first media entry
//! alone decides which: the tweet's other entries are not looked at.

use crate::error::{ArchiverError, ErrorView};
use crate::json::{member, views_of, Json, JsonView};
use crate::text::{chars_of, contains, find};
use vstd::prelude::*;

verus! {

/// What the address of a video's or an animation's preview image holds.
pub const VIDEO_MARKER: &'static str = "ext_tw_video_thumb";

/// How a tweet is classed.
#[derive(Clone, Copy, Debug, PartialEq, Eq, Structural)]
pub enum Class {
    /// A retweet.
    Reshare,
    /// A tweet without media.
    TextOnly,
    /// A tweet whose first media entry is an image.
    Image,
    /// A tweet whose first media entry is a video or an animation.
    Video,
}

/// The tweet refers to another tweet that it passes on.
pub open spec fn is_reshare(record: JsonView) -> bool {
    !(member(record, "retweeted_status"@) is Null)
}

/// What the tweet holds under `entities`, `media`.
pub open spec fn media_of(record: JsonView) -> JsonView {
    member(member(record, "entities"@), "media"@)
}

/// The address of a media entry, where it has one that is a text.
pub open spec fn url_of(entry: JsonView) -> Option<Seq<char>> {
    match member(entry, "media_url_https"@) {
        JsonView::Text(url) => Some(url),
        _ => None,
    }
}

/// The address is that of a video's or an animation's preview image.
pub open spec fn is_video_url(url: Seq<char>) -> bool {
    contains(url, VIDEO_MARKER@)
}

/// The class of a tweet.
///
/// A retweet is one whatever else it holds. Media that are absent, null or an
/// empty array make a tweet without media. Media of any other shape, and a
/// first entry without an address that is a text, are `MalformedRecord`.
pub open spec fn class_of(record: JsonView) -> Result<Class, ErrorView> {
    if is_reshare(record) {
        Ok(Class::Reshare)
    } else {
        match media_of(record) {
            JsonView::Null => Ok(Class::TextOnly),
            JsonView::Array(entries) => if entries.len() == 0 {
                Ok(Class::TextOnly)
            } else {
                match url_of(entries[0]) {
                    Some(url) => Ok(
                        if is_video_url(url) {
                            Class::Video
                        } else {
                            Class::Image
                        },
                    ),
                    None => Err(ErrorView::MalformedRecord),
                }
            },
            _ => Err(ErrorView::MalformedRecord),
        }
    }
}

/// Whether a tweet of class `class` is kept: a video tweet where videos are
/// wanted, an image tweet where they are not.
pub open spec fn wanted(class: Class, want_videos: bool) -> bool {
    match class {
        Class::Video => want_videos,
        Class::Image => !want_videos,
        _ => false,
    }
}

/// Whether the tweet is kept.
pub open spec fn keeps(record: JsonView, want_videos: bool) -> Result<bool, ErrorView> {
    match class_of(record) {
        Ok(class) => Ok(wanted(class, want_videos)),
        Err(error) => Err(error),
    }
}

/// Every one of the tweets can be classed.
pub open spec fn all_classed(records: Seq<JsonView>) -> bool {
    forall|i: int| 0 <= i < records.len() ==> class_of(#[trigger] records[i]) is Ok
}

/// The test that the kept tweets pass.
pub open spec fn kept_where(want_videos: bool) -> spec_fn(JsonView) -> bool {
    |record: JsonView| keeps(record, want_videos) == Ok::<bool, ErrorView>(true)
}

/// The tweets that are kept, in their order. Where one of the tweets cannot
/// be classed, none is kept and the answer is `MalformedRecord`.
pub open spec fn retained(records: Seq<JsonView>, want_videos: bool) -> Result<
    Seq<JsonView>,
    ErrorView,
> {
    if all_classed(records) {
        Ok(records.filter(kept_where(want_videos)))
    } else {
        Err(ErrorView::MalformedRecord)
    }
}

/// Whether the address is that of a video's or an animation's preview image.
pub fn video_url(url: &str) -> (video: bool)
    ensures
        video == is_video_url(url@),
{
    let hay = chars_of(url);
    let needle = chars_of(VIDEO_MARKER);
    find(hay.as_slice(), needle.as_slice())
}

/// The class of a tweet.
pub fn classify(record: &Json) -> (class: Result<Class, ArchiverError>)
    ensures
        match class {
            Ok(class) => class_of(record@) == Ok::<Class, ErrorView>(class),
            Err(error) => class_of(record@) == Err::<Class, ErrorView>(error@),
        },
{
    let reshare = match record.get("retweeted_status") {
        Some(reference) => !reference.is_null(),
        None => false,
    };
    if reshare {
        return Ok(Class::Reshare);
    }
    let media = match record.get("entities") {
        Some(entities) => entities.get("media"),
        None => None,
    };
    let media = match media {
        Some(media) => media,
        None => {
            return Ok(Class::TextOnly);
        },
    };
    if media.is_null() {
        return Ok(Class::TextOnly);
    }
    let entries = match media.as_array() {
        Some(entries) => entries,
        None => {
            return Err(ArchiverError::MalformedRecord);
        },
    };
    if entries.len() == 0 {
        return Ok(Class::TextOnly);
    }
    let url = match entries[0].get("media_url_https") {
        Some(url) => url.as_text(),
        None => None,
    };
    match url {
        Some(url) => if video_url(url.as_str()) {
            Ok(Class::Video)
        } else {
            Ok(Class::Image)
        },
        None => Err(ArchiverError::MalformedRecord),
    }
}

/// Whether the tweet is kept: a video tweet where videos are wanted, an
/// image tweet where they are not, and no other.
pub fn keep(record: &Json, want_videos: bool) -> (kept: Result<bool, ArchiverError>)
    ensures
        match kept {
            Ok(kept) => keeps(record@, want_videos) == Ok::<bool, ErrorView>(kept),
            Err(error) => keeps(record@, want_videos) == Err::<bool, ErrorView>(error@),
        },
{
    match classify(record) {
        Ok(Class::Video) => Ok(want_videos),
        Ok(Class::Image) => Ok(!want_videos),
        Ok(_) => Ok(false),
        Err(error) => Err(error),
    }
}

/// The tweets of `records` that are kept, in their order.
pub fn retain(records: Vec<Json>, want_videos: bool) -> (kept: Result<Vec<Json>, ArchiverError>)
    ensures
        match kept {
            Ok(kept) => retained(views_of(records@), want_videos) == Ok::<
                Seq<JsonView>,
                ErrorView,
            >(views_of(kept@)),
            Err(error) => retained(views_of(records@), want_videos) == Err::<
                Seq<JsonView>,
                ErrorView,
            >(error@),
        },
{
    let ghost all = views_of(records@);
    let ghost items = records@;
    let mut kept: Vec<Json> = Vec::new();
    proof {
        reveal(Seq::filter);
    }
    for record in it: records
        invariant
            it.seq() == items,
            all == views_of(items),
            all_classed(all.take(it.index() as int)),
            views_of(kept@) == all.take(it.index() as int).filter(kept_where(want_videos)),
    {
        let ghost i = it.index() as int;
        let ghost before = all.take(i);
        let ghost now = all.take(i + 1);
        proof {
            reveal(Seq::filter);
            assert(now.drop_last() == before);
            assert(now.last() == record@);
        }
        match keep(&record, want_videos) {
            Ok(true) => {
                let ghost old_kept = kept@;
                kept.push(record);
                assert(views_of(kept@) == views_of(old_kept).push(record@));
            },
            Ok(false) => {},
            Err(error) => {
                assert(class_of(all[i]) is Err);
                return Err(error);
            },
        }
        assert forall|k: int| 0 <= k < now.len() implies class_of(#[trigger] now[k]) is Ok by {
            if k < i {
                assert(now[k] == before[k]);
            }
        }
    }
    assert(all.take(items.len() as int) == all);
    Ok(kept)
}

/// A retweet is of the class `Reshare` and is kept in neither mode, whatever
/// media it holds.
pub proof fn lemma_reshare_is_never_kept(record: JsonView, want_videos: bool)
    requires
        is_reshare(record),
    ensures
        class_of(record) == Ok::<Class, ErrorView>(Class::Reshare),
        keeps(record, want_videos) == Ok::<bool, ErrorView>(false),
{
}

/// A tweet whose media are absent, null or an empty array is kept in neither
/// mode.
pub proof fn lemma_without_media_is_never_kept(record: JsonView, want_videos: bool)
    requires
        media_of(record) is Null || media_of(record) == JsonView::Array(Seq::empty()),
    ensures
        keeps(record, want_videos) == Ok::<bool, ErrorView>(false),
{
}

/// Two tweets that are no retweets and whose first media entries have the
/// same address are of the same class, whatever their other entries hold.
pub proof fn lemma_first_entry_decides(record: JsonView, other: JsonView)
    requires
        !is_reshare(record),
        !is_reshare(other),
        media_of(record) is Array,
        media_of(other) is Array,
        media_of(record)->Array_0.len() > 0,
        media_of(other)->Array_0.len() > 0,
        url_of(media_of(record)->Array_0[0]) == url_of(media_of(other)->Array_0[0]),
    ensures
        class_of(record) == class_of(other),
{
}

/// A tweet that is no retweet and whose first media entry has an address
/// without the marker is an image tweet, whatever its other entries hold.
pub proof fn lemma_first_entry_without_marker_is_image(record: JsonView, url: Seq<char>)
    requires
        !is_reshare(record),
        media_of(record) is Array,
        media_of(record)->Array_0.len() > 0,
        url_of(media_of(record)->Array_0[0]) == Some(url),
        !is_video_url(url),
    ensures
        class_of(record) == Ok::<Class, ErrorView>(Class::Image),
{
}

/// A tweet is kept in at most one of the two modes.
pub proof fn lemma_kept_in_one_mode_at_most(record: JsonView)
    ensures
        !(keeps(record, true) == Ok::<bool, ErrorView>(true) && keeps(record, false) == Ok::<
            bool,
            ErrorView,
        >(true)),
{
}

/// Every tweet that is kept stood among the tweets, and is of the class that
/// the mode asks for: it is no retweet and it has media.
pub proof fn lemma_retained_are_wanted(records: Seq<JsonView>, want_videos: bool)
    requires
        retained(records, want_videos) is Ok,
    ensures
        forall|i: int|
            0 <= i < retained(records, want_videos)->Ok_0.len() ==> {
                let record = #[trigger] retained(records, want_videos)->Ok_0[i];
                &&& records.contains(record)
                &&& class_of(record) == Ok::<Class, ErrorView>(
                    if want_videos {
                        Class::Video
                    } else {
                        Class::Image
                    },
                )
            },
{
    let kept = retained(records, want_videos)->Ok_0;
    assert forall|i: int| 0 <= i < kept.len() implies {
        let record = #[trigger] kept[i];
        &&& records.contains(record)
        &&& class_of(record) == Ok::<Class, ErrorView>(
            if want_videos {
                Class::Video
            } else {
                Class::Image
            },
        )
    } by {
        records.lemma_filter_pred(kept_where(want_videos), i);
        records.lemma_filter_contains_rev(kept_where(want_videos), kept[i]);
    }
}

} // verus!
