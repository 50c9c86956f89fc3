//! Downloading: where each image of a tweet is fetched from, and the file it
//! is written to.

use crate::classifier::{media_of, url_of};
use crate::error::{ArchiverError, ErrorView};
use crate::json::{member, views_of, Json, JsonView, NumberView};
use crate::text::{after_last, chars_of, decimal, last_segment, push_chars, push_decimal, push_str, string_of};
use vstd::prelude::*;

verus! {

/// One image to download.
#[derive(Debug, Clone, PartialEq, Eq)]
pub struct DownloadTarget {
    /// The address to fetch: that of the image in its full size.
    pub url: String,
    /// The file to write.
    pub path: String,
}

/// What a [`DownloadTarget`] stands for.
pub struct TargetView {
    pub url: Seq<char>,
    pub path: Seq<char>,
}

impl View for DownloadTarget {
    type V = TargetView;

    open spec fn view(&self) -> TargetView {
        TargetView { url: self.url@, path: self.path@ }
    }
}

/// The path `rest` below the directory `base`: a `/` is put between the two
/// unless `base` is empty or ends with one. `rest` is taken as it is.
pub open spec fn join_path(base: Seq<char>, rest: Seq<char>) -> Seq<char> {
    if base.len() == 0 || base.last() == '/' {
        base + rest
    } else {
        base + seq!['/'] + rest
    }
}

/// The directory that the images of the archive under `root` go to.
pub open spec fn output_dir_of(root: Seq<char>) -> Seq<char> {
    join_path(root, "data/images/"@)
}

/// The name of the file for the image at `url` of the tweet `id`: the
/// identifier, a hyphen, and what follows the last `/` of the address.
pub open spec fn file_name_of(id: u64, url: Seq<char>) -> Seq<char> {
    decimal(id as nat) + seq!['-'] + after_last(url, '/')
}

/// The address of the image at `url` in its full size.
pub open spec fn full_size_of(url: Seq<char>) -> Seq<char> {
    url + ":orig"@
}

/// The download of the image at `url` of the tweet `id` into `dir`.
pub open spec fn target_of(dir: Seq<char>, id: u64, url: Seq<char>) -> TargetView {
    TargetView { url: full_size_of(url), path: join_path(dir, file_name_of(id, url)) }
}

/// The tweet's identifier: what the tweet holds under `id`, where that is an
/// integer from zero up.
pub open spec fn id_of(record: JsonView) -> Option<u64> {
    match member(record, "id"@) {
        JsonView::Number(NumberView::Unsigned(id)) => Some(id),
        _ => None,
    }
}

/// Every one of the entries has an address that is a text.
pub open spec fn all_addressed(entries: Seq<JsonView>) -> bool {
    forall|i: int| 0 <= i < entries.len() ==> url_of(#[trigger] entries[i]) is Some
}

/// The addresses of all the tweet's media entries, in order. Media that are
/// absent or null have none; media of another shape than an array, and an
/// entry without an address that is a text, are `MalformedRecord`.
pub open spec fn media_urls_of(record: JsonView) -> Result<Seq<Seq<char>>, ErrorView> {
    match media_of(record) {
        JsonView::Null => Ok(Seq::empty()),
        JsonView::Array(entries) => if all_addressed(entries) {
            Ok(entries.map_values(|entry: JsonView| url_of(entry)->Some_0))
        } else {
            Err(ErrorView::MalformedRecord)
        },
        _ => Err(ErrorView::MalformedRecord),
    }
}

/// The downloads that the tweet asks for, one for each of its media entries
/// and in their order, into `dir`. A tweet whose addresses cannot all be
/// read, or whose identifier is no integer from zero up, is
/// `MalformedRecord`.
pub open spec fn targets_of(dir: Seq<char>, record: JsonView) -> Result<Seq<TargetView>, ErrorView> {
    match (media_urls_of(record), id_of(record)) {
        (Ok(urls), Some(id)) => Ok(urls.map_values(|url: Seq<char>| target_of(dir, id, url))),
        _ => Err(ErrorView::MalformedRecord),
    }
}

/// The notice for a file that is there already.
pub open spec fn skip_notice_of(path: Seq<char>) -> Seq<char> {
    "already exists: "@ + path
}

/// The notice for a download that is done.
pub open spec fn done_notice_of(target: TargetView) -> Seq<char> {
    "downloaded "@ + target.url + " to "@ + target.path + "."@
}

/// The path `rest` below the directory `base`.
pub fn path_below(base: &str, rest: &str) -> (path: String)
    ensures
        path@ == join_path(base@, rest@),
{
    let base_chars = chars_of(base);
    let mut path: Vec<char> = Vec::new();
    push_chars(&mut path, base_chars.as_slice());
    if base_chars.len() > 0 && base_chars[base_chars.len() - 1] != '/' {
        path.push('/');
    }
    push_str(&mut path, rest);
    string_of(path.as_slice())
}

/// The directory that the images of the archive under `root` go to:
/// `data/images/` below `root`.
pub fn output_dir(root: &str) -> (dir: String)
    ensures
        dir@ == output_dir_of(root@),
{
    path_below(root, "data/images/")
}

/// The name of the file for the image at `url` of the tweet `id`.
pub fn file_name(id: u64, url: &str) -> (name: String)
    ensures
        name@ == file_name_of(id, url@),
{
    let url_chars = chars_of(url);
    let base = last_segment(url_chars.as_slice(), '/');
    let mut name: Vec<char> = Vec::new();
    push_decimal(&mut name, id);
    name.push('-');
    push_chars(&mut name, base.as_slice());
    string_of(name.as_slice())
}

/// The address of the image at `url` in its full size: `url` with
/// `:orig` behind it.
pub fn full_size_url(url: &str) -> (full: String)
    ensures
        full@ == full_size_of(url@),
{
    let mut full: Vec<char> = Vec::new();
    push_str(&mut full, url);
    push_str(&mut full, ":orig");
    string_of(full.as_slice())
}

/// The download of the image at `url` of the tweet `id` into `dir`.
pub fn target(dir: &str, id: u64, url: &str) -> (target: DownloadTarget)
    ensures
        target@ == target_of(dir@, id, url@),
{
    let name = file_name(id, url);
    DownloadTarget { url: full_size_url(url), path: path_below(dir, name.as_str()) }
}

/// The downloads that are meant by `targets`, in order.
pub open spec fn target_views_of(targets: Seq<DownloadTarget>) -> Seq<TargetView> {
    targets.map_values(|target: DownloadTarget| target@)
}

/// The downloads that the tweet asks for, one for each of its media entries
/// and in their order, into `dir`.
pub fn targets(dir: &str, record: &Json) -> (targets: Result<Vec<DownloadTarget>, ArchiverError>)
    ensures
        match targets {
            Ok(targets) => targets_of(dir@, record@) == Ok::<Seq<TargetView>, ErrorView>(
                target_views_of(targets@),
            ),
            Err(error) => targets_of(dir@, record@) == Err::<Seq<TargetView>, ErrorView>(error@),
        },
{
    let media = match record.get("entities") {
        Some(entities) => entities.get("media"),
        None => None,
    };
    let no_entries: Vec<Json> = Vec::new();
    let entries: &Vec<Json> = match media {
        None => &no_entries,
        Some(media) => if media.is_null() {
            &no_entries
        } else {
            match media.as_array() {
                Some(entries) => entries,
                None => {
                    return Err(ArchiverError::MalformedRecord);
                },
            }
        },
    };
    let ghost entry_views = views_of(entries@);
    let mut urls: Vec<&String> = Vec::new();
    let mut i: usize = 0;
    while i < entries.len()
        invariant
            i <= entries.len(),
            entry_views == views_of(entries@),
            media_of(record@) == JsonView::Array(entry_views) || (media_of(record@) is Null
                && entry_views.len() == 0),
            urls@.len() == i,
            forall|k: int| 0 <= k < i ==> url_of(#[trigger] entry_views[k]) == Some(urls@[k]@),
        decreases entries.len() - i,
    {
        let url = match entries[i].get("media_url_https") {
            Some(url) => url.as_text(),
            None => None,
        };
        match url {
            Some(url) => {
                urls.push(url);
            },
            None => {
                assert(url_of(entry_views[i as int]) is None);
                return Err(ArchiverError::MalformedRecord);
            },
        }
        i += 1;
    }
    assert(media_urls_of(record@) is Ok);
    let ghost url_texts = media_urls_of(record@)->Ok_0;
    assert(url_texts.len() == urls@.len());
    assert(forall|k: int| 0 <= k < urls@.len() ==> url_texts[k] == urls@[k]@);
    let id = match record.get("id") {
        Some(Json::Number(crate::json::Number::Unsigned(id))) => *id,
        _ => {
            return Err(ArchiverError::MalformedRecord);
        },
    };
    let mut targets: Vec<DownloadTarget> = Vec::new();
    let mut j: usize = 0;
    while j < urls.len()
        invariant
            j <= urls.len(),
            url_texts.len() == urls@.len(),
            forall|k: int| 0 <= k < urls@.len() ==> url_texts[k] == urls@[k]@,
            targets@.len() == j,
            forall|k: int| 0 <= k < j ==> (#[trigger] targets@[k])@ == target_of(dir@, id, url_texts[k]),
        decreases urls.len() - j,
    {
        targets.push(target(dir, id, urls[j].as_str()));
        j += 1;
    }
    assert(target_views_of(targets@) =~= targets_of(dir@, record@)->Ok_0);
    Ok(targets)
}

/// The notice for a file that is there already: `already exists: ` and the
/// path.
pub fn skip_notice(path: &str) -> (notice: String)
    ensures
        notice@ == skip_notice_of(path@),
{
    let mut notice: Vec<char> = Vec::new();
    push_str(&mut notice, "already exists: ");
    push_str(&mut notice, path);
    string_of(notice.as_slice())
}

/// The notice for a download that is done: `downloaded `, the address that
/// was fetched, ` to `, the path, and a full stop.
pub fn done_notice(target: &DownloadTarget) -> (notice: String)
    ensures
        notice@ == done_notice_of(target@),
{
    let mut notice: Vec<char> = Vec::new();
    push_str(&mut notice, "downloaded ");
    push_str(&mut notice, target.url.as_str());
    push_str(&mut notice, " to ");
    push_str(&mut notice, target.path.as_str());
    push_str(&mut notice, ".");
    string_of(notice.as_slice())
}

} // verus!
