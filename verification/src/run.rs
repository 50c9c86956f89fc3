//! A run over an archive, one step at a time.
//!
//! The run itself touches neither disk nor network. It says what is to be
//! done next, an [`Action`]; whoever drives it does that and reports what
//! came of it, an [`Event`]; the run answers with the next action. Files are
//! taken one after the other, the tweets of a file in their order, and the
//! media of a tweet in theirs.

use crate::classifier::{retain, retained};
use crate::download::{
    done_notice, done_notice_of, output_dir, output_dir_of, skip_notice, skip_notice_of,
    target_views_of, targets, targets_of, DownloadTarget, TargetView,
};
use crate::error::{ArchiverError, ErrorView};
use crate::json::{views_of, Json, JsonView};
use crate::listing::{status_url, status_url_of};
use crate::locator::{data_file_pattern, located, pattern_of, require_data_files};
use crate::parser::{parse_records, records_read};
use crate::timestamp::{modification_time, stamp_of, ModificationTime};
use vstd::prelude::*;

verus! {

/// What a run is waiting for.
#[derive(Clone, Copy, Debug, PartialEq, Eq, Structural)]
pub enum Stage {
    /// The number of data files.
    Locating,
    /// The content of a data file.
    Reading,
    /// A tweet's line to be printed.
    Listing,
    /// The directory for the images to be made.
    Preparing,
    /// Word on whether a target's file is there.
    Probing,
    /// The notice for a file that is there to be printed.
    Skipping,
    /// The response for a target.
    Fetching,
    /// The response to be written to the target's file.
    Storing,
    /// The notice for a finished download to be printed.
    Reporting,
    /// Nothing: the run came to its end.
    Finished,
    /// Nothing: the run failed.
    Failed,
}

/// What came of the last action.
#[derive(Clone, Debug, PartialEq, Eq)]
pub enum Event {
    /// So many files match the pattern.
    Located { count: usize },
    /// The file was read, and this is its content.
    Content { text: String },
    /// The action was done. It is the answer to those that report nothing.
    Completed,
    /// The file is there, or is not.
    Probed { exists: bool },
    /// A response came. This is its `Last-Modified` header, where it has one
    /// that reads as text.
    Fetched { last_modified: Option<String> },
}

/// What is to be done next.
#[derive(Clone, Debug, PartialEq, Eq)]
pub enum Action {
    /// Count the files that match the pattern.
    Locate { pattern: String },
    /// Read the data file of this number, counted from zero.
    Read { file: usize },
    /// Print the line.
    Print { line: String },
    /// Make the directory and what is missing above it.
    CreateDirectory { path: String },
    /// See whether the file is there.
    Probe { path: String },
    /// Ask for what is at the address.
    Fetch { url: String },
    /// Write the body of the response to the file and set the file's
    /// modification time.
    Store { path: String, modified: ModificationTime },
    /// Stop: all is done.
    Finish,
    /// Stop, and report the error.
    Fail { error: ArchiverError },
}

/// What an [`Event`] stands for.
pub enum EventView {
    Located { count: nat },
    Content { text: Seq<char> },
    Completed,
    Probed { exists: bool },
    Fetched { last_modified: Option<Seq<char>> },
}

/// What an [`Action`] stands for.
pub enum ActionView {
    Locate { pattern: Seq<char> },
    Read { file: nat },
    Print { line: Seq<char> },
    CreateDirectory { path: Seq<char> },
    Probe { path: Seq<char> },
    Fetch { url: Seq<char> },
    Store { path: Seq<char>, modified: ModificationTime },
    Finish,
    Fail { error: ErrorView },
}

impl View for Event {
    type V = EventView;

    open spec fn view(&self) -> EventView {
        match self {
            Event::Located { count } => EventView::Located { count: *count as nat },
            Event::Content { text } => EventView::Content { text: text@ },
            Event::Completed => EventView::Completed,
            Event::Probed { exists } => EventView::Probed { exists: *exists },
            Event::Fetched { last_modified } => EventView::Fetched {
                last_modified: match last_modified {
                    Some(text) => Some(text@),
                    None => None,
                },
            },
        }
    }
}

impl View for Action {
    type V = ActionView;

    open spec fn view(&self) -> ActionView {
        match self {
            Action::Locate { pattern } => ActionView::Locate { pattern: pattern@ },
            Action::Read { file } => ActionView::Read { file: *file as nat },
            Action::Print { line } => ActionView::Print { line: line@ },
            Action::CreateDirectory { path } => ActionView::CreateDirectory { path: path@ },
            Action::Probe { path } => ActionView::Probe { path: path@ },
            Action::Fetch { url } => ActionView::Fetch { url: url@ },
            Action::Store { path, modified } => ActionView::Store {
                path: path@,
                modified: *modified,
            },
            Action::Finish => ActionView::Finish,
            Action::Fail { error } => ActionView::Fail { error: error@ },
        }
    }
}

/// What a [`Run`] stands for.
#[verifier::ext_equal]
pub struct RunView {
    /// The root of the archive.
    pub root: Seq<char>,
    /// Whether video tweets are listed; images are downloaded where not.
    pub want_videos: bool,
    /// What the run is waiting for.
    pub stage: Stage,
    /// The number of data files.
    pub files: nat,
    /// The number of the data file at hand.
    pub file: nat,
    /// The tweets of that file that are kept.
    pub records: Seq<JsonView>,
    /// The number of the tweet at hand among them.
    pub record: nat,
    /// The downloads that this tweet asks for.
    pub targets: Seq<TargetView>,
    /// The number of the download at hand among them.
    pub target: nat,
}

/// A run that has just begun.
pub open spec fn initial(root: Seq<char>, want_videos: bool) -> RunView {
    RunView {
        root,
        want_videos,
        stage: Stage::Locating,
        files: 0,
        file: 0,
        records: Seq::empty(),
        record: 0,
        targets: Seq::empty(),
        target: 0,
    }
}

/// The run fails with `error`.
pub open spec fn fail(s: RunView, error: ErrorView) -> (RunView, ActionView) {
    (RunView { stage: Stage::Failed, ..s }, ActionView::Fail { error })
}

/// The run turns to the data file `file`, and ends where there is none.
pub open spec fn open_file(s: RunView, file: nat) -> (RunView, ActionView) {
    let cleared = RunView {
        file,
        records: Seq::empty(),
        record: 0,
        targets: Seq::empty(),
        target: 0,
        ..s
    };
    if file < s.files {
        (RunView { stage: Stage::Reading, ..cleared }, ActionView::Read { file })
    } else {
        (RunView { stage: Stage::Finished, ..cleared }, ActionView::Finish)
    }
}

/// The run lists the tweet `record` of the file at hand, and turns to the
/// next file where there is none.
pub open spec fn list_from(s: RunView, record: nat) -> (RunView, ActionView) {
    if record < s.records.len() {
        match status_url_of(s.records[record as int]) {
            Ok(line) => (
                RunView { stage: Stage::Listing, record, ..s },
                ActionView::Print { line },
            ),
            Err(error) => fail(s, error),
        }
    } else {
        open_file(s, s.file + 1)
    }
}

/// The run asks whether the file of the download `target` is there.
pub open spec fn probe(s: RunView, target: nat) -> (RunView, ActionView) {
    (
        RunView { stage: Stage::Probing, target, ..s },
        ActionView::Probe { path: s.targets[target as int].path },
    )
}

/// The run turns to the downloads of the first tweet from `record` on that
/// asks for any, and to the next file where there is none.
pub open spec fn download_from(s: RunView, record: nat) -> (RunView, ActionView)
    decreases s.records.len() - record,
{
    if record < s.records.len() {
        match targets_of(output_dir_of(s.root), s.records[record as int]) {
            Ok(targets) => if targets.len() > 0 {
                probe(RunView { record, targets, ..s }, 0)
            } else {
                download_from(s, record + 1)
            },
            Err(error) => fail(s, error),
        }
    } else {
        open_file(s, s.file + 1)
    }
}

/// The run learns how many data files there are.
pub open spec fn located_of(s: RunView, count: nat) -> (RunView, ActionView) {
    if s.stage == Stage::Locating {
        match located(s.root, count) {
            Ok(_) => open_file(RunView { files: count, ..s }, 0),
            Err(error) => fail(s, error),
        }
    } else {
        fail(s, ErrorView::UnexpectedEvent)
    }
}

/// The run learns what records the file at hand holds.
pub open spec fn read_of(s: RunView, records: Result<Seq<JsonView>, ErrorView>) -> (
    RunView,
    ActionView,
) {
    if s.stage == Stage::Reading {
        match records {
            Ok(records) => match retained(records, s.want_videos) {
                Ok(kept) => {
                    let held = RunView { records: kept, record: 0, ..s };
                    if s.want_videos {
                        list_from(held, 0)
                    } else {
                        (
                            RunView { stage: Stage::Preparing, ..held },
                            ActionView::CreateDirectory { path: output_dir_of(s.root) },
                        )
                    }
                },
                Err(error) => fail(s, error),
            },
            Err(error) => fail(s, error),
        }
    } else {
        fail(s, ErrorView::UnexpectedEvent)
    }
}

/// The run turns to the download behind the one at hand, and to the next
/// tweet where there is none.
pub open spec fn after_target(s: RunView) -> (RunView, ActionView) {
    if s.target + 1 < s.targets.len() {
        probe(s, s.target + 1)
    } else {
        download_from(s, s.record + 1)
    }
}

/// The run learns that the last action was done.
pub open spec fn completed_of(s: RunView) -> (RunView, ActionView) {
    match s.stage {
        Stage::Listing => list_from(s, s.record + 1),
        Stage::Preparing => download_from(s, 0),
        Stage::Storing => (
            RunView { stage: Stage::Reporting, ..s },
            ActionView::Print { line: done_notice_of(s.targets[s.target as int]) },
        ),
        Stage::Skipping => after_target(s),
        Stage::Reporting => after_target(s),
        _ => fail(s, ErrorView::UnexpectedEvent),
    }
}

/// The run learns whether the file of the download at hand is there. A file
/// that is there is left as it is; only for one that is not, the run asks
/// for the image.
pub open spec fn probed_of(s: RunView, exists: bool) -> (RunView, ActionView) {
    if s.stage == Stage::Probing {
        if exists {
            (
                RunView { stage: Stage::Skipping, ..s },
                ActionView::Print { line: skip_notice_of(s.targets[s.target as int].path) },
            )
        } else {
            (
                RunView { stage: Stage::Fetching, ..s },
                ActionView::Fetch { url: s.targets[s.target as int].url },
            )
        }
    } else {
        fail(s, ErrorView::UnexpectedEvent)
    }
}

/// The run learns what modification time the response states.
pub open spec fn fetched_of(s: RunView, stamp: Result<ModificationTime, ErrorView>) -> (
    RunView,
    ActionView,
) {
    if s.stage == Stage::Fetching {
        match stamp {
            Ok(modified) => (
                RunView { stage: Stage::Storing, ..s },
                ActionView::Store { path: s.targets[s.target as int].path, modified },
            ),
            Err(error) => fail(s, error),
        }
    } else {
        fail(s, ErrorView::UnexpectedEvent)
    }
}

/// The state that follows `s` on `event`, and the action that it asks for.
pub open spec fn step_of(s: RunView, event: EventView) -> (RunView, ActionView) {
    match event {
        EventView::Located { count } => located_of(s, count),
        EventView::Content { text } => read_of(s, records_read(text)),
        EventView::Completed => completed_of(s),
        EventView::Probed { exists } => probed_of(s, exists),
        EventView::Fetched { last_modified } => fetched_of(s, stamp_of(last_modified)),
    }
}

/// A run over an archive.
pub struct Run {
    root: String,
    want_videos: bool,
    stage: Stage,
    files: usize,
    file: usize,
    records: Vec<Json>,
    record: usize,
    targets: Vec<DownloadTarget>,
    target: usize,
}

/// The run is at work on a data file.
pub open spec fn on_file(stage: Stage) -> bool {
    !(stage is Locating || stage is Finished || stage is Failed)
}

/// The run is at work on a download.
pub open spec fn on_target(stage: Stage) -> bool {
    stage is Probing || stage is Skipping || stage is Fetching || stage is Storing
        || stage is Reporting
}

/// What holds of every run: the file, the tweet and the download at hand
/// are there whenever the run is at work on them.
pub open spec fn well_formed(s: RunView) -> bool {
    &&& s.record <= s.records.len()
    &&& on_file(s.stage) ==> s.file < s.files
    &&& s.stage is Listing ==> s.record < s.records.len()
    &&& on_target(s.stage) ==> s.record < s.records.len() && s.target < s.targets.len()
}

impl View for Run {
    type V = RunView;

    closed spec fn view(&self) -> RunView {
        RunView {
            root: self.root@,
            want_videos: self.want_videos,
            stage: self.stage,
            files: self.files as nat,
            file: self.file as nat,
            records: views_of(self.records@),
            record: self.record as nat,
            targets: target_views_of(self.targets@),
            target: self.target as nat,
        }
    }
}

impl Run {
    #[verifier::type_invariant]
    spec fn inv(self) -> bool {
        well_formed(self@)
    }

    /// The view counts what the run holds.
    proof fn lemma_counts(self)
        ensures
            self@.records.len() == self.records@.len(),
            self@.targets.len() == self.targets@.len(),
            self@.record == self.record,
            self@.target == self.target,
            self@.file == self.file,
            self@.files == self.files,
            self@.stage == self.stage,
            self.records@.len() <= usize::MAX,
            self.targets@.len() <= usize::MAX,
    {
        assert(self.records@.len() == self.records.len());
        assert(self.targets@.len() == self.targets.len());
    }

    /// Begins a run over the archive under `root`: one that lists the video
    /// tweets where `want_videos` holds, and downloads the images of the
    /// image tweets where it does not. The first thing to do is to count the
    /// data files.
    pub fn start(root: &str, want_videos: bool) -> (begun: (Run, Action))
        ensures
            begun.0@ == initial(root@, want_videos),
            begun.1@ == (ActionView::Locate { pattern: pattern_of(root@) }),
            well_formed(begun.0@),
    {
        let run = Run {
            root: root.to_owned(),
            want_videos,
            stage: Stage::Locating,
            files: 0,
            file: 0,
            records: Vec::new(),
            record: 0,
            targets: Vec::new(),
            target: 0,
        };
        assert(run@ =~~= initial(root@, want_videos));
        (run, Action::Locate { pattern: data_file_pattern(root) })
    }

    /// What the run is waiting for.
    pub fn stage(&self) -> (stage: Stage)
        ensures
            stage == self@.stage,
    {
        self.stage
    }

    /// Whether the run is over: it came to its end, or it failed.
    pub fn is_over(&self) -> (over: bool)
        ensures
            over == (self@.stage is Finished || self@.stage is Failed),
    {
        match self.stage {
            Stage::Finished => true,
            Stage::Failed => true,
            _ => false,
        }
    }

    fn fail(self, error: ArchiverError) -> (next: (Run, Action))
        ensures
            (next.0@, next.1@) == fail(self@, error@),
    {
        proof {
            use_type_invariant(&self);
            self.lemma_counts();
        }
        let failed = Run { stage: Stage::Failed, ..self };
        (failed, Action::Fail { error })
    }

    fn open_file(self, file: usize) -> (next: (Run, Action))
        ensures
            (next.0@, next.1@) == open_file(self@, file as nat),
    {
        proof {
            use_type_invariant(&self);
            self.lemma_counts();
        }
        if file < self.files {
            let next = Run {
                stage: Stage::Reading,
                file,
                records: Vec::new(),
                record: 0,
                targets: Vec::new(),
                target: 0,
                ..self
            };
            assert(next@ =~~= open_file(self@, file as nat).0);
            (next, Action::Read { file })
        } else {
            let next = Run {
                stage: Stage::Finished,
                file,
                records: Vec::new(),
                record: 0,
                targets: Vec::new(),
                target: 0,
                ..self
            };
            assert(next@ =~~= open_file(self@, file as nat).0);
            (next, Action::Finish)
        }
    }

    fn list_from(self, record: usize) -> (next: (Run, Action))
        requires
            record <= self@.records.len(),
            self@.file < self@.files,
        ensures
            (next.0@, next.1@) == list_from(self@, record as nat),
    {
        proof {
            use_type_invariant(&self);
            self.lemma_counts();
        }
        if record < self.records.len() {
            match status_url(&self.records[record]) {
                Ok(line) => {
                    let next = Run { stage: Stage::Listing, record, ..self };
                    (next, Action::Print { line })
                },
                Err(error) => self.fail(error),
            }
        } else {
            let file = self.file + 1;
            self.open_file(file)
        }
    }

    fn probe(self, target: usize) -> (next: (Run, Action))
        requires
            self@.record < self@.records.len(),
            self@.file < self@.files,
            target < self@.targets.len(),
        ensures
            (next.0@, next.1@) == probe(self@, target as nat),
    {
        proof {
            use_type_invariant(&self);
            self.lemma_counts();
        }
        let path = self.targets[target].path.clone();
        let next = Run { stage: Stage::Probing, target, ..self };
        (next, Action::Probe { path })
    }

    fn download_from(self, record: usize) -> (next: (Run, Action))
        requires
            record <= self@.records.len(),
            self@.file < self@.files,
        ensures
            (next.0@, next.1@) == download_from(self@, record as nat),
    {
        proof {
            use_type_invariant(&self);
            self.lemma_counts();
        }
        let dir = output_dir(self.root.as_str());
        let mut at: usize = record;
        while at < self.records.len()
            invariant
                record <= at <= self.records@.len(),
                dir@ == output_dir_of(self@.root),
                self@.file < self@.files,
                well_formed(self@),
                download_from(self@, at as nat) == download_from(self@, record as nat),
            decreases self.records@.len() - at,
        {
            match targets(dir.as_str(), &self.records[at]) {
                Ok(targets) => {
                    if targets.len() > 0 {
                        let held = Run { record: at, targets, target: 0, stage: Stage::Failed, ..self };
                        return held.probe(0);
                    }
                },
                Err(error) => {
                    return self.fail(error);
                },
            }
            at += 1;
        }
        let file = self.file + 1;
        self.open_file(file)
    }

    /// Takes the number of data files that were found. With none, the run
    /// fails with `MissingTweetData`; else it turns to the first file.
    pub fn located(self, count: usize) -> (next: (Run, Action))
        ensures
            (next.0@, next.1@) == located_of(self@, count as nat),
            well_formed(next.0@),
    {
        proof {
            use_type_invariant(&self);
            self.lemma_counts();
        }
        let next = {
            if self.stage == Stage::Locating {
                match require_data_files(self.root.as_str(), count) {
                    Ok(_) => {
                        let counted = Run { files: count, ..self };
                        counted.open_file(0)
                    },
                    Err(error) => self.fail(error),
                }
            } else {
                self.fail(ArchiverError::UnexpectedEvent)
            }
        };
        proof {
            use_type_invariant(&next.0);
        }
        next
    }

    /// Takes the records of the file at hand, or the reason why it has none.
    /// The run keeps the tweets that its mode asks for. Then it lists the
    /// first of them, or has the directory for the images made.
    pub fn read(self, records: Result<Vec<Json>, ArchiverError>) -> (next: (Run, Action))
        ensures
            (next.0@, next.1@) == read_of(
                self@,
                match records {
                    Ok(items) => Ok(views_of(items@)),
                    Err(error) => Err(error@),
                },
            ),
            well_formed(next.0@),
    {
        proof {
            use_type_invariant(&self);
            self.lemma_counts();
        }
        let next = {
            if self.stage == Stage::Reading {
                match records {
                    Ok(records) => match retain(records, self.want_videos) {
                        Ok(kept) => {
                            if self.want_videos {
                                let held = Run { records: kept, record: 0, ..self };
                                held.list_from(0)
                            } else {
                                let path = output_dir(self.root.as_str());
                                let held = Run {
                                    stage: Stage::Preparing,
                                    records: kept,
                                    record: 0,
                                    ..self
                                };
                                (held, Action::CreateDirectory { path })
                            }
                        },
                        Err(error) => self.fail(error),
                    },
                    Err(error) => self.fail(error),
                }
            } else {
                self.fail(ArchiverError::UnexpectedEvent)
            }
        };
        proof {
            use_type_invariant(&next.0);
        }
        next
    }

    fn after_target(self) -> (next: (Run, Action))
        requires
            on_target(self@.stage),
        ensures
            (next.0@, next.1@) == after_target(self@),
    {
        proof {
            use_type_invariant(&self);
            self.lemma_counts();
        }
        if self.target + 1 < self.targets.len() {
            let target = self.target + 1;
            self.probe(target)
        } else {
            let record = self.record + 1;
            self.download_from(record)
        }
    }

    /// Takes the word that the last action was done.
    pub fn completed(self) -> (next: (Run, Action))
        ensures
            (next.0@, next.1@) == completed_of(self@),
            well_formed(next.0@),
    {
        proof {
            use_type_invariant(&self);
            self.lemma_counts();
        }
        let next = {
            match self.stage {
                Stage::Listing => {
                    let record = self.record + 1;
                    self.list_from(record)
                },
                Stage::Preparing => self.download_from(0),
                Stage::Storing => {
                    let line = done_notice(&self.targets[self.target]);
                    let next = Run { stage: Stage::Reporting, ..self };
                    (next, Action::Print { line })
                },
                Stage::Skipping => self.after_target(),
                Stage::Reporting => self.after_target(),
                _ => self.fail(ArchiverError::UnexpectedEvent),
            }
        };
        proof {
            use_type_invariant(&next.0);
        }
        next
    }

    /// Takes the word on whether the file of the download at hand is there.
    pub fn probed(self, exists: bool) -> (next: (Run, Action))
        ensures
            (next.0@, next.1@) == probed_of(self@, exists),
            well_formed(next.0@),
    {
        proof {
            use_type_invariant(&self);
            self.lemma_counts();
        }
        let next = {
            if self.stage == Stage::Probing {
                if exists {
                    let line = skip_notice(self.targets[self.target].path.as_str());
                    let next = Run { stage: Stage::Skipping, ..self };
                    (next, Action::Print { line })
                } else {
                    let url = self.targets[self.target].url.clone();
                    let next = Run { stage: Stage::Fetching, ..self };
                    (next, Action::Fetch { url })
                }
            } else {
                self.fail(ArchiverError::UnexpectedEvent)
            }
        };
        proof {
            use_type_invariant(&next.0);
        }
        next
    }

    /// Takes the modification time that the response states, or the reason
    /// why it states none.
    pub fn fetched(self, stamp: Result<ModificationTime, ArchiverError>) -> (next: (Run, Action))
        ensures
            (next.0@, next.1@) == fetched_of(
                self@,
                match stamp {
                    Ok(modified) => Ok(modified),
                    Err(error) => Err(error@),
                },
            ),
            well_formed(next.0@),
    {
        proof {
            use_type_invariant(&self);
            self.lemma_counts();
        }
        let next = {
            if self.stage == Stage::Fetching {
                match stamp {
                    Ok(modified) => {
                        let path = self.targets[self.target].path.clone();
                        let next = Run { stage: Stage::Storing, ..self };
                        (next, Action::Store { path, modified })
                    },
                    Err(error) => self.fail(error),
                }
            } else {
                self.fail(ArchiverError::UnexpectedEvent)
            }
        };
        proof {
            use_type_invariant(&next.0);
        }
        next
    }

    /// Takes what came of the last action and says what is to be done next.
    /// An event that the run was not waiting for makes it fail with
    /// `UnexpectedEvent`.
    pub fn step(self, event: Event) -> (next: (Run, Action))
        ensures
            (next.0@, next.1@) == step_of(self@, event@),
            well_formed(next.0@),
    {
        proof {
            use_type_invariant(&self);
            self.lemma_counts();
        }
        let next = {
            match event {
                Event::Located { count } => self.located(count),
                Event::Content { text } => {
                    if self.stage == Stage::Reading {
                        let records = parse_records(text.as_str());
                        self.read(records)
                    } else {
                        self.fail(ArchiverError::UnexpectedEvent)
                    }
                },
                Event::Completed => self.completed(),
                Event::Probed { exists } => self.probed(exists),
                Event::Fetched { last_modified } => {
                    if self.stage == Stage::Fetching {
                        let stamp = match &last_modified {
                            Some(text) => modification_time(Some(text.as_str())),
                            None => modification_time(None),
                        };
                        self.fetched(stamp)
                    } else {
                        self.fail(ArchiverError::UnexpectedEvent)
                    }
                },
            }
        };
        proof {
            use_type_invariant(&next.0);
        }
        next
    }
}

/// An archive without a data file makes the run fail at once with
/// `MissingTweetData` for its root, in either mode: nothing is read, printed
/// or fetched.
pub proof fn lemma_no_data_fails_at_once(root: Seq<char>, want_videos: bool)
    ensures
        step_of(initial(root, want_videos), EventView::Located { count: 0 }) == (
            RunView { stage: Stage::Failed, ..initial(root, want_videos) },
            ActionView::Fail { error: ErrorView::MissingTweetData(root) },
        ),
{
}

/// A run that is over stays over: whatever event comes, it answers with
/// `UnexpectedEvent` and asks for nothing else.
pub proof fn lemma_over_stays_over(s: RunView, event: EventView)
    requires
        s.stage is Finished || s.stage is Failed,
    ensures
        step_of(s, event) == fail(s, ErrorView::UnexpectedEvent),
{
}

/// Turning to the downloads of a tweet never asks for an image: the answer
/// is to probe a file, to read the next data file, to finish or to fail.
pub proof fn lemma_download_from_probes_first(s: RunView, record: nat)
    ensures
        !(download_from(s, record).1 is Fetch),
        !(download_from(s, record).1 is Store),
    decreases s.records.len() - record,
{
    if record < s.records.len() {
        match targets_of(output_dir_of(s.root), s.records[record as int]) {
            Ok(targets) => {
                if targets.len() == 0 {
                    lemma_download_from_probes_first(s, record + 1);
                }
            },
            Err(_) => {},
        }
    }
}

/// The run asks for an image only when it has just learned that the file of
/// the download at hand is not there, and then for that download's address.
/// So where every file is there already, nothing is fetched.
pub proof fn lemma_fetches_only_what_is_missing(s: RunView, event: EventView)
    requires
        step_of(s, event).1 is Fetch,
    ensures
        s.stage is Probing,
        event == (EventView::Probed { exists: false }),
        step_of(s, event).1 == (ActionView::Fetch { url: s.targets[s.target as int].url }),
{
    lemma_download_from_probes_first(s, 0);
    lemma_download_from_probes_first(s, s.record + 1);
}

/// A file is written only behind a response for the download at hand, to
/// that download's path, and with the modification time that the response's
/// `Last-Modified` header states in whole seconds.
pub proof fn lemma_stores_with_stated_time(s: RunView, event: EventView)
    requires
        step_of(s, event).1 is Store,
    ensures
        s.stage is Fetching,
        event matches EventView::Fetched { last_modified: Some(text) } && crate::timestamp::rfc2822_seconds(
            text,
        ) matches Some(seconds) && step_of(s, event).1 == (ActionView::Store {
            path: s.targets[s.target as int].path,
            modified: ModificationTime { seconds, nanoseconds: 0 },
        }),
{
    lemma_download_from_probes_first(s, 0);
    lemma_download_from_probes_first(s, s.record + 1);
}

/// Every step leaves a well-formed run well formed.
pub proof fn lemma_step_keeps_well_formed(s: RunView, event: EventView)
    requires
        well_formed(s),
    ensures
        well_formed(step_of(s, event).0),
{
    match event {
        EventView::Completed => {
            if s.stage is Preparing {
                lemma_download_from_well_formed(s, 0);
            } else if s.stage is Skipping || s.stage is Reporting {
                lemma_download_from_well_formed(s, s.record + 1);
            }
        },
        _ => {},
    }
}

/// Turning to the downloads of a tweet leaves a run that is at work on a
/// file well formed.
pub proof fn lemma_download_from_well_formed(s: RunView, record: nat)
    requires
        s.record <= s.records.len(),
        record <= s.records.len(),
        s.file < s.files,
    ensures
        well_formed(download_from(s, record).0),
    decreases s.records.len() - record,
{
    if record < s.records.len() {
        match targets_of(output_dir_of(s.root), s.records[record as int]) {
            Ok(targets) => {
                if targets.len() == 0 {
                    lemma_download_from_well_formed(s, record + 1);
                }
            },
            Err(_) => {},
        }
    }
}

/// The actions that a run in state `s` asks for as `events` come in, one
/// for each event and in their order.
pub open spec fn actions_of(s: RunView, events: Seq<EventView>) -> Seq<ActionView>
    decreases events.len(),
{
    if events.len() == 0 {
        Seq::empty()
    } else {
        seq![step_of(s, events[0]).1] + actions_of(step_of(s, events[0]).0, events.drop_first())
    }
}

/// A run that has just begun is well formed.
pub proof fn lemma_initial_is_well_formed(root: Seq<char>, want_videos: bool)
    ensures
        well_formed(initial(root, want_videos)),
{
}

/// Where no probe is answered with a missing file, the run asks for no
/// image and writes no file, from whatever state and however long it goes
/// on. A second run over an archive whose images are all there fetches
/// nothing.
pub proof fn lemma_nothing_fetched_where_all_exists(s: RunView, events: Seq<EventView>)
    requires
        forall|i: int|
            0 <= i < events.len() ==> events[i] != (EventView::Probed { exists: false }),
        !(s.stage is Fetching),
    ensures
        forall|k: int|
            0 <= k < actions_of(s, events).len() ==> !(#[trigger] actions_of(s, events)[k]
                is Fetch) && !(actions_of(s, events)[k] is Store),
    decreases events.len(),
{
    if events.len() > 0 {
        let next = step_of(s, events[0]).0;
        let action = step_of(s, events[0]).1;
        if action is Fetch {
            lemma_fetches_only_what_is_missing(s, events[0]);
        }
        if action is Store {
            lemma_stores_with_stated_time(s, events[0]);
        }
        if next.stage is Fetching {
            lemma_fetching_follows_a_missing_file(s, events[0]);
        }
        lemma_nothing_fetched_where_all_exists(next, events.drop_first());
        let rest = actions_of(next, events.drop_first());
        assert forall|k: int| 0 <= k < actions_of(s, events).len() implies !(
        #[trigger] actions_of(s, events)[k] is Fetch) && !(actions_of(s, events)[k] is Store) by {
            if k > 0 {
                assert(actions_of(s, events)[k] == rest[k - 1]);
            }
        }
    }
}

/// The run waits for a response only when it has just learned that a file
/// is not there.
pub proof fn lemma_fetching_follows_a_missing_file(s: RunView, event: EventView)
    requires
        step_of(s, event).0.stage is Fetching,
    ensures
        event == (EventView::Probed { exists: false }),
{
    lemma_download_from_stage(s, 0);
    lemma_download_from_stage(s, s.record + 1);
}

/// Turning to the downloads of a tweet leaves the run probing, reading,
/// finished or failed.
pub proof fn lemma_download_from_stage(s: RunView, record: nat)
    ensures
        ({
            let stage = download_from(s, record).0.stage;
            stage is Probing || stage is Reading || stage is Finished || stage is Failed
        }),
    decreases s.records.len() - record,
{
    if record < s.records.len() {
        match targets_of(output_dir_of(s.root), s.records[record as int]) {
            Ok(targets) => {
                if targets.len() == 0 {
                    lemma_download_from_stage(s, record + 1);
                }
            },
            Err(_) => {},
        }
    }
}

/// A run over an archive without a data file asks for nothing but to report
/// `MissingTweetData`, and whatever comes after that it only fails again:
/// nothing is read, printed, probed, fetched or written.
pub proof fn lemma_no_data_run_only_fails(
    root: Seq<char>,
    want_videos: bool,
    events: Seq<EventView>,
)
    requires
        events.len() > 0,
        events[0] == (EventView::Located { count: 0 }),
    ensures
        actions_of(initial(root, want_videos), events)[0] == (ActionView::Fail {
            error: ErrorView::MissingTweetData(root),
        }),
        forall|k: int|
            1 <= k < actions_of(initial(root, want_videos), events).len() ==> #[trigger] actions_of(
                initial(root, want_videos),
                events,
            )[k] == (ActionView::Fail { error: ErrorView::UnexpectedEvent }),
{
    let first = initial(root, want_videos);
    let failed = step_of(first, events[0]).0;
    lemma_failed_run_only_fails(failed, events.drop_first());
    let rest = actions_of(failed, events.drop_first());
    assert forall|k: int| 1 <= k < actions_of(first, events).len() implies #[trigger] actions_of(
        first,
        events,
    )[k] == (ActionView::Fail { error: ErrorView::UnexpectedEvent }) by {
        assert(actions_of(first, events)[k] == rest[k - 1]);
    }
}

/// A run that failed answers every event with `UnexpectedEvent`.
pub proof fn lemma_failed_run_only_fails(s: RunView, events: Seq<EventView>)
    requires
        s.stage is Failed,
    ensures
        actions_of(s, events).len() == events.len(),
        forall|k: int|
            0 <= k < events.len() ==> #[trigger] actions_of(s, events)[k] == (ActionView::Fail {
                error: ErrorView::UnexpectedEvent,
            }),
    decreases events.len(),
{
    if events.len() > 0 {
        lemma_over_stays_over(s, events[0]);
        let next = step_of(s, events[0]).0;
        lemma_failed_run_only_fails(next, events.drop_first());
        let rest = actions_of(next, events.drop_first());
        assert forall|k: int| 0 <= k < events.len() implies #[trigger] actions_of(s, events)[k] == (
        ActionView::Fail { error: ErrorView::UnexpectedEvent }) by {
            if k > 0 {
                assert(actions_of(s, events)[k] == rest[k - 1]);
            }
        }
    }
}

/// The run is one that lists, and is where such a run can be.
pub open spec fn listing(s: RunView) -> bool {
    &&& s.want_videos
    &&& (s.stage is Locating || s.stage is Reading || s.stage is Listing || s.stage is Finished
        || s.stage is Failed)
}

/// The action reads a data file, prints a line or ends the run.
pub open spec fn reads_or_prints(action: ActionView) -> bool {
    action is Read || action is Print || action is Finish || action is Fail
}

/// A run that lists only reads the data files and prints: from its start to
/// its end it makes no directory, probes no file, fetches nothing and writes
/// nothing.
pub proof fn lemma_listing_only_reads_and_prints(s: RunView, events: Seq<EventView>)
    requires
        listing(s),
    ensures
        forall|k: int|
            0 <= k < actions_of(s, events).len() ==> reads_or_prints(
                #[trigger] actions_of(s, events)[k],
            ),
    decreases events.len(),
{
    if events.len() > 0 {
        let next = step_of(s, events[0]).0;
        assert(listing(next));
        assert(reads_or_prints(step_of(s, events[0]).1));
        lemma_listing_only_reads_and_prints(next, events.drop_first());
        let rest = actions_of(next, events.drop_first());
        assert forall|k: int| 0 <= k < actions_of(s, events).len() implies reads_or_prints(
            #[trigger] actions_of(s, events)[k],
        ) by {
            if k > 0 {
                assert(actions_of(s, events)[k] == rest[k - 1]);
            }
        }
    }
}

} // verus!
