//! Trying an image search where a photo is missing: a run over the list of missing photos.

use crate::csv::{
    csv_text, is_missing, is_one_line, list_holds_the_missing, listed, missing_entries,
    missing_views, MissingEntry, MissingView,
};
use crate::lookup::{answer_text, outcome_text};
use crate::names::{
    earlier_paths_are_missing, extension, first_of, first_path, first_path_is_of_the_paths,
    guess_extension, lowercase, path_texts, photo_file, photo_name, safe_name, PhotoFile,
};
use crate::report::{
    found, found_via_google, keys, outcome_is_entered, outcome_keeps_players_distinct,
    outcome_leaves_first_records, outcome_leaves_others, records, text_of, update_report_entry,
    with_outcome, PlayerResult, RecordView,
};
use vstd::prelude::*;

verus! {

/// The pause between two image searches, in milliseconds.
pub const GOOGLE_DELAY_MS: u64 = 8_000;

/// What a player is searched by.
pub open spec fn image_query(player: Seq<char>, team: Seq<char>) -> Seq<char> {
    player + " "@ + team + " rugby"@
}

/// A run: the list of missing photos, the position of the one at hand, the report as it
/// stands, and how many photos are there now.
#[verifier::ext_equal]
pub struct GoogleView {
    pub missing: Seq<MissingView>,
    pub next: nat,
    pub report: Seq<RecordView>,
    pub improved: nat,
}

/// Where a run stands, with the run itself. A download comes with the URL.
pub enum GoogleStepView {
    Check(GoogleView),
    Search(GoogleView),
    Download(GoogleView, Seq<char>),
    Pause(GoogleView),
    Done(GoogleView),
}

/// The run at the entry at hand, or over where there is none.
pub open spec fn at_next(run: GoogleView) -> GoogleStepView {
    if run.next < run.missing.len() {
        GoogleStepView::Check(run)
    } else {
        GoogleStepView::Done(run)
    }
}

/// The beginning of a run over a list, with the report to bring up to date.
pub open spec fn google_start(
    missing: Seq<MissingView>,
    report: Seq<RecordView>,
) -> GoogleStepView {
    at_next(GoogleView { missing, next: 0, report, improved: 0 })
}

/// The run behind the entry at hand, whose outcome is entered into the report.
pub open spec fn with_result(
    run: GoogleView,
    status: Seq<char>,
    image_url: Option<Seq<char>>,
    saved_path: Option<Seq<char>>,
) -> GoogleView {
    let entry = run.missing[run.next as int];
    GoogleView {
        report: with_outcome(
            run.report,
            entry.team,
            entry.player,
            status,
            image_url,
            saved_path,
        ),
        next: run.next + 1,
        improved: run.improved + if saved_path is Some {
            1nat
        } else {
            0nat
        },
        ..run
    }
}

/// Once it is known which of the photos to look for are on disk: the first of them settles
/// the entry, without a pause; where there is none, the player is searched for.
pub open spec fn after_google_check(
    run: GoogleView,
    existing: Seq<Option<Seq<char>>>,
) -> GoogleStepView {
    match first_path(existing) {
        Some(path) => at_next(with_result(run, found(), None, Some(path))),
        None => GoogleStepView::Search(run),
    }
}

/// Once the search is answered.
pub open spec fn after_google_search(
    run: GoogleView,
    answer: Result<Option<Seq<char>>, Seq<char>>,
) -> GoogleStepView {
    match answer {
        Ok(Some(url)) => GoogleStepView::Download(run, url),
        Ok(None) => GoogleStepView::Pause(with_result(run, "google_no_result"@, None, None)),
        Err(e) => GoogleStepView::Pause(
            with_result(run, "google_search_failed: "@ + e, None, None),
        ),
    }
}

/// Once the image was downloaded, or failed to.
pub open spec fn after_google_download(
    run: GoogleView,
    url: Seq<char>,
    outcome: Result<Seq<char>, Seq<char>>,
) -> GoogleStepView {
    GoogleStepView::Pause(
        match outcome {
            Ok(path) => with_result(run, found_via_google(), Some(url), Some(path)),
            Err(e) => with_result(run, "google_download_failed: "@ + e, Some(url), None),
        },
    )
}

#[derive(Debug)]
struct GoogleRun {
    missing: Vec<MissingEntry>,
    next: usize,
    report: Vec<PlayerResult>,
    improved: usize,
}

impl GoogleRun {
    spec fn model(self) -> GoogleView {
        GoogleView {
            missing: missing_views(self.missing@),
            next: self.next as nat,
            report: records(self.report@),
            improved: self.improved as nat,
        }
    }

    spec fn wf(self) -> bool {
        self.improved <= self.next <= self.missing.len()
    }

    spec fn at_entry(self) -> bool {
        self.improved <= self.next < self.missing.len()
    }

    fn to_next(self) -> (step: GoogleStep)
        requires
            self.wf(),
        ensures
            step@ == at_next(self.model()),
    {
        if self.next < self.missing.len() {
            GoogleStep::Check(GoogleCheck { run: self })
        } else {
            let ghost run = self.model();
            let done = GoogleReport {
                missing: self.missing,
                report: self.report,
                improved: self.improved,
            };
            assert(done@ =~= run);
            GoogleStep::Done(done)
        }
    }

    /// Enters the outcome for the entry at hand into the report.
    fn enter(
        self,
        status: &str,
        image_url: Option<String>,
        saved_path: Option<String>,
    ) -> (out: GoogleRun)
        requires
            self.at_entry(),
        ensures
            out.wf(),
            out.model() == with_result(
                self.model(),
                status@,
                text_of(image_url),
                text_of(saved_path),
            ),
    {
        let mut run = self;
        let ghost before = run.model();
        assert(before.missing[run.next as int] == run.missing@[run.next as int]@);
        let improved: bool = saved_path.is_some();
        update_report_entry(
            &mut run.report,
            &run.missing[run.next].team,
            &run.missing[run.next].player,
            status,
            image_url,
            saved_path,
        );
        run.next = run.next + 1;
        if improved {
            run.improved = run.improved + 1;
        }
        run
    }
}

/// A run that waits for the report.
#[derive(Debug)]
pub struct GoogleLoad {
    missing: Vec<MissingEntry>,
}

/// A run that waits to hear which of the photos at hand are on disk.
#[derive(Debug)]
pub struct GoogleCheck {
    run: GoogleRun,
}

/// A run that waits for the player at hand to be searched for.
#[derive(Debug)]
pub struct GoogleSearch {
    run: GoogleRun,
}

/// A run that waits for an image to be downloaded.
#[derive(Debug)]
pub struct GoogleDownload {
    run: GoogleRun,
    url: String,
}

/// A run that rests between two searches.
#[derive(Debug)]
pub struct GooglePause {
    run: GoogleRun,
}

/// The list that a run was over, the report after it, and how many photos are there now.
#[derive(Debug)]
pub struct GoogleReport {
    pub missing: Vec<MissingEntry>,
    pub report: Vec<PlayerResult>,
    pub improved: usize,
}

/// Where a run stands.
#[derive(Debug)]
pub enum GoogleStep {
    /// See which of the photos are on disk already.
    Check(GoogleCheck),
    /// Search for the player.
    Search(GoogleSearch),
    /// Download the image.
    Download(GoogleDownload),
    /// Wait before going on.
    Pause(GooglePause),
    /// The run is over.
    Done(GoogleReport),
}

impl View for GoogleLoad {
    type V = Seq<MissingView>;

    closed spec fn view(&self) -> Seq<MissingView> {
        missing_views(self.missing@)
    }
}

impl View for GoogleCheck {
    type V = GoogleView;

    closed spec fn view(&self) -> GoogleView {
        self.run.model()
    }
}

impl View for GoogleSearch {
    type V = GoogleView;

    closed spec fn view(&self) -> GoogleView {
        self.run.model()
    }
}

impl View for GoogleDownload {
    type V = (GoogleView, Seq<char>);

    closed spec fn view(&self) -> (GoogleView, Seq<char>) {
        (self.run.model(), self.url@)
    }
}

impl View for GooglePause {
    type V = GoogleView;

    closed spec fn view(&self) -> GoogleView {
        self.run.model()
    }
}

impl View for GoogleReport {
    type V = GoogleView;

    open spec fn view(&self) -> GoogleView {
        GoogleView {
            missing: missing_views(self.missing@),
            next: self.missing@.len(),
            report: records(self.report@),
            improved: self.improved as nat,
        }
    }
}

impl View for GoogleStep {
    type V = GoogleStepView;

    open spec fn view(&self) -> GoogleStepView {
        match self {
            GoogleStep::Check(s) => GoogleStepView::Check(s@),
            GoogleStep::Search(s) => GoogleStepView::Search(s@),
            GoogleStep::Download(s) => GoogleStepView::Download(s@.0, s@.1),
            GoogleStep::Pause(s) => GoogleStepView::Pause(s@),
            GoogleStep::Done(s) => GoogleStepView::Done(s@),
        }
    }
}

impl GoogleLoad {
    /// Plans a run over a list of missing photos. An empty list calls for none: neither the
    /// report nor the list is then touched.
    pub fn plan(missing: Vec<MissingEntry>) -> (out: Option<GoogleLoad>)
        ensures
            out is None <==> missing@.len() == 0,
            out matches Some(load) ==> load@ == missing_views(missing@),
    {
        if missing.len() == 0 {
            None
        } else {
            Some(GoogleLoad { missing })
        }
    }

    /// How many entries the list has.
    pub fn total(&self) -> (out: usize)
        ensures
            out == self@.len(),
    {
        self.missing.len()
    }

    /// Begins the run, with the report to bring up to date.
    pub fn start(self, report: Vec<PlayerResult>) -> (step: GoogleStep)
        ensures
            step@ == google_start(self@, records(report@)),
    {
        GoogleRun { missing: self.missing, next: 0, report, improved: 0 }.to_next()
    }
}

/// The extensions under which a photo may be on disk, in the order in which it is looked for.
pub open spec fn known_extensions() -> Seq<Seq<char>> {
    seq!["jpg"@, "jpeg"@, "png"@, "webp"@]
}

impl GoogleCheck {
    #[verifier::type_invariant]
    spec fn valid(self) -> bool {
        self.run.at_entry()
    }

    /// The place of the entry at hand on the list, from one on.
    pub fn number(&self) -> (out: usize)
        ensures
            out == self@.next + 1,
    {
        proof {
            use_type_invariant(self);
        }
        self.run.next + 1
    }

    /// The entry at hand.
    pub fn entry(&self) -> (out: &MissingEntry)
        ensures
            out@ == self@.missing[self@.next as int],
    {
        proof {
            use_type_invariant(self);
        }
        &self.run.missing[self.run.next]
    }

    /// The photos to look for on disk, one for each known extension.
    pub fn photos(&self) -> (out: Vec<PhotoFile>)
        ensures
            out@.len() == known_extensions().len(),
            forall|i: int|
                0 <= i < out@.len() ==> {
                    &&& (#[trigger] out@[i]).dir@ == safe_name(
                        self@.missing[self@.next as int].team,
                    )
                    &&& out@[i].file@ == photo_name(
                        self@.missing[self@.next as int].player,
                        known_extensions()[i],
                    )
                },
    {
        let entry = self.entry();
        let mut out: Vec<PhotoFile> = Vec::new();
        out.push(photo_file(&entry.team, &entry.player, "jpg"));
        out.push(photo_file(&entry.team, &entry.player, "jpeg"));
        out.push(photo_file(&entry.team, &entry.player, "png"));
        out.push(photo_file(&entry.team, &entry.player, "webp"));
        out
    }

    /// Takes, for each of the photos, its path where it is on disk.
    pub fn on_answer(self, existing: Vec<Option<String>>) -> (step: GoogleStep)
        ensures
            step@ == after_google_check(self@, path_texts(existing@)),
    {
        proof {
            use_type_invariant(&self);
        }
        match first_of(existing) {
            Some(path) => self.run.enter("found", None, Some(path)).to_next(),
            None => GoogleStep::Search(GoogleSearch { run: self.run }),
        }
    }
}

impl GoogleSearch {
    #[verifier::type_invariant]
    spec fn valid(self) -> bool {
        self.run.at_entry()
    }

    /// What to search for.
    pub fn query(&self) -> (out: String)
        ensures
            out@ == image_query(
                self@.missing[self@.next as int].player,
                self@.missing[self@.next as int].team,
            ),
    {
        proof {
            use_type_invariant(self);
        }
        let entry = &self.run.missing[self.run.next];
        let mut out = entry.player.clone();
        out.append(" ");
        out.append(&entry.team);
        out.append(" rugby");
        out
    }

    /// Takes the answer to the search: the URL of an image, if there is one.
    pub fn on_answer(self, answer: Result<Option<String>, String>) -> (step: GoogleStep)
        ensures
            step@ == after_google_search(self@, answer_text(answer)),
    {
        proof {
            use_type_invariant(&self);
        }
        match answer {
            Ok(Some(url)) => GoogleStep::Download(GoogleDownload { run: self.run, url }),
            Ok(None) => GoogleStep::Pause(
                GooglePause { run: self.run.enter("google_no_result", None, None) },
            ),
            Err(e) => {
                let mut status = "google_search_failed: ".to_owned();
                status.append(&e);
                GoogleStep::Pause(GooglePause { run: self.run.enter(&status, None, None) })
            },
        }
    }
}

impl GoogleDownload {
    #[verifier::type_invariant]
    spec fn valid(self) -> bool {
        self.run.at_entry()
    }

    /// The URL to download.
    pub fn url(&self) -> (out: &String)
        ensures
            out@ == self@.1,
    {
        &self.url
    }

    /// Where to save the image.
    pub fn photo(&self) -> (out: PhotoFile)
        ensures
            out.dir@ == safe_name(self@.0.missing[self@.0.next as int].team),
            out.file@ == photo_name(
                self@.0.missing[self@.0.next as int].player,
                extension(lowercase(self@.1)),
            ),
    {
        proof {
            use_type_invariant(self);
        }
        let entry = &self.run.missing[self.run.next];
        photo_file(&entry.team, &entry.player, guess_extension(&self.url))
    }

    /// Takes the outcome of the download: the path of the saved image, or why there is none.
    pub fn on_outcome(self, outcome: Result<String, String>) -> (step: GoogleStep)
        ensures
            step@ == after_google_download(self@.0, self@.1, outcome_text(outcome)),
    {
        proof {
            use_type_invariant(&self);
        }
        let run = match outcome {
            Ok(path) => self.run.enter("found_via_google", Some(self.url), Some(path)),
            Err(e) => {
                let mut status = "google_download_failed: ".to_owned();
                status.append(&e);
                self.run.enter(&status, Some(self.url), None)
            },
        };
        GoogleStep::Pause(GooglePause { run })
    }
}

impl GooglePause {
    #[verifier::type_invariant]
    spec fn valid(self) -> bool {
        self.run.wf()
    }

    /// How long to wait.
    pub fn millis(&self) -> (out: u64)
        ensures
            out == GOOGLE_DELAY_MS,
            out == 8_000,
    {
        GOOGLE_DELAY_MS
    }

    /// Goes on after the wait.
    pub fn resume(self) -> (step: GoogleStep)
        ensures
            step@ == at_next(self@),
    {
        proof {
            use_type_invariant(&self);
        }
        self.run.to_next()
    }
}

/// What a run is told.
pub enum GoogleEvent {
    /// The paths of the photos at hand that are on disk.
    Existing(Seq<Option<Seq<char>>>),
    /// The answer to a search.
    Answered(Result<Option<Seq<char>>, Seq<char>>),
    /// The outcome of a download.
    Downloaded(Result<Seq<char>, Seq<char>>),
    /// The wait is over.
    Resumed,
}

/// Whether the event is the one that the run waits for.
pub open spec fn awaits(step: GoogleStepView, event: GoogleEvent) -> bool {
    match (step, event) {
        (GoogleStepView::Check(_), GoogleEvent::Existing(_)) => true,
        (GoogleStepView::Search(_), GoogleEvent::Answered(_)) => true,
        (GoogleStepView::Download(_, _), GoogleEvent::Downloaded(_)) => true,
        (GoogleStepView::Pause(_), GoogleEvent::Resumed) => true,
        _ => false,
    }
}

/// Where the run stands after an event; other events than the awaited one change nothing.
pub open spec fn react(step: GoogleStepView, event: GoogleEvent) -> GoogleStepView {
    match (step, event) {
        (GoogleStepView::Check(run), GoogleEvent::Existing(paths)) => after_google_check(
            run,
            paths,
        ),
        (GoogleStepView::Search(run), GoogleEvent::Answered(answer)) => after_google_search(
            run,
            answer,
        ),
        (
            GoogleStepView::Download(run, url),
            GoogleEvent::Downloaded(outcome),
        ) => after_google_download(run, url, outcome),
        (GoogleStepView::Pause(run), GoogleEvent::Resumed) => at_next(run),
        _ => step,
    }
}

/// Where a run over a list stands after a sequence of events.
pub open spec fn google_after(
    missing: Seq<MissingView>,
    report: Seq<RecordView>,
    events: Seq<GoogleEvent>,
) -> GoogleStepView
    decreases events.len(),
{
    if events.len() == 0 {
        google_start(missing, report)
    } else {
        react(google_after(missing, report, events.drop_last()), events.last())
    }
}

/// The run that stands at a step.
pub open spec fn run_at(step: GoogleStepView) -> GoogleView {
    match step {
        GoogleStepView::Check(run) => run,
        GoogleStepView::Search(run) => run,
        GoogleStepView::Download(run, _) => run,
        GoogleStepView::Pause(run) => run,
        GoogleStepView::Done(run) => run,
    }
}

/// The team and player that an entry is about.
pub open spec fn key_of(entry: MissingView) -> (Seq<char>, Seq<char>) {
    (entry.team, entry.player)
}

/// Whether one of the first `upto` entries is about the given player.
pub open spec fn is_listed(
    missing: Seq<MissingView>,
    upto: nat,
    key: (Seq<char>, Seq<char>),
) -> bool {
    exists|j: int| 0 <= j < upto && key_of(#[trigger] missing[j]) == key
}

/// Whether a record tells how the image search for its player went: its photo is there, with
/// its path, or the status says what failed.
pub open spec fn tells_search(record: RecordView) -> bool {
    ||| record.saved_path is Some && (record.status == found() || record.status
        == found_via_google())
    ||| record.status == "google_no_result"@
    ||| "google_search_failed: "@.is_prefix_of(record.status)
    ||| "google_download_failed: "@.is_prefix_of(record.status)
}

/// Whether the first record about a player tells how the image search for the player went.
pub open spec fn is_told(report: Seq<RecordView>, key: (Seq<char>, Seq<char>)) -> bool {
    &&& keys(report).index_of_first(key) matches Some(i)
    &&& 0 <= i < report.len()
    &&& tells_search(report[i])
}

/// What holds of a run at every step: the records that were there stay in place, about their
/// players and with their page titles; those about players that were not reached stay as they
/// were; whatever was added is about an entry of the list; and each entry that was reached
/// has a record that tells how the search went.
pub open spec fn is_faithful(
    missing: Seq<MissingView>,
    report: Seq<RecordView>,
    run: GoogleView,
) -> bool {
    &&& run.missing == missing
    &&& run.improved <= run.next <= missing.len()
    &&& report.len() <= run.report.len()
    &&& forall|i: int|
        0 <= i < report.len() ==> {
            &&& (#[trigger] run.report[i]).team == report[i].team
            &&& run.report[i].player == report[i].player
            &&& run.report[i].wikipedia_title == report[i].wikipedia_title
            &&& is_listed(missing, run.next, (report[i].team, report[i].player))
                || run.report[i] == report[i]
        }
    &&& forall|i: int|
        report.len() <= i < run.report.len() ==> is_listed(
            missing,
            run.next,
            ((#[trigger] run.report[i]).team, run.report[i].player),
        )
    &&& forall|j: int| 0 <= j < run.next ==> is_told(run.report, key_of(#[trigger] missing[j]))
    &&& keys(report).no_duplicates() ==> keys(run.report).no_duplicates()
}

/// Whether there is an entry at hand wherever a step needs one.
pub open spec fn is_placed(step: GoogleStepView) -> bool {
    let run = run_at(step);
    match step {
        GoogleStepView::Pause(_) => true,
        GoogleStepView::Done(_) => run.next == run.missing.len(),
        _ => run.next < run.missing.len(),
    }
}

/// Whatever a run over a list is told, it changes nothing but the records of players on the
/// list, keeps one record per player where there was one, and leaves each entry that it
/// reached with a record that tells how the search went.
pub proof fn google_is_faithful(
    missing: Seq<MissingView>,
    report: Seq<RecordView>,
    events: Seq<GoogleEvent>,
)
    ensures
        is_faithful(missing, report, run_at(google_after(missing, report, events))),
        is_placed(google_after(missing, report, events)),
    decreases events.len(),
{
    if events.len() > 0 {
        google_is_faithful(missing, report, events.drop_last());
        failures_tell();
        match (google_after(missing, report, events.drop_last()), events.last()) {
            (GoogleStepView::Check(run), GoogleEvent::Existing(paths)) => {
                match first_path(paths) {
                    Some(path) => {
                        entered(missing, report, run, found(), None, Some(path));
                    },
                    None => {},
                }
            },
            (GoogleStepView::Search(run), GoogleEvent::Answered(answer)) => {
                match answer {
                    Ok(Some(_)) => {},
                    Ok(None) => {
                        entered(missing, report, run, "google_no_result"@, None, None);
                    },
                    Err(e) => {
                        entered(missing, report, run, "google_search_failed: "@ + e, None, None);
                    },
                }
            },
            (GoogleStepView::Download(run, url), GoogleEvent::Downloaded(outcome)) => {
                match outcome {
                    Ok(path) => {
                        entered(missing, report, run, found_via_google(), Some(url), Some(path));
                    },
                    Err(e) => {
                        entered(
                            missing,
                            report,
                            run,
                            "google_download_failed: "@ + e,
                            Some(url),
                            None,
                        );
                    },
                }
            },
            _ => {},
        }
    }
}

proof fn failures_tell()
    ensures
        forall|e: Seq<char>|
            "google_search_failed: "@.is_prefix_of(#[trigger] ("google_search_failed: "@ + e)),
        forall|e: Seq<char>|
            "google_download_failed: "@.is_prefix_of(#[trigger] ("google_download_failed: "@ + e)),
{
    assert forall|e: Seq<char>|
        "google_search_failed: "@.is_prefix_of(#[trigger] ("google_search_failed: "@ + e)) by {
        let s = "google_search_failed: "@;
        assert((s + e).subrange(0, s.len() as int) =~= s);
    }
    assert forall|e: Seq<char>|
        "google_download_failed: "@.is_prefix_of(#[trigger] ("google_download_failed: "@ + e)) by {
        let s = "google_download_failed: "@;
        assert((s + e).subrange(0, s.len() as int) =~= s);
    }
}

/// Entering the outcome of the search for the entry at hand keeps a run faithful.
proof fn entered(
    missing: Seq<MissingView>,
    report: Seq<RecordView>,
    run: GoogleView,
    status: Seq<char>,
    image_url: Option<Seq<char>>,
    saved_path: Option<Seq<char>>,
)
    requires
        is_faithful(missing, report, run),
        run.next < missing.len(),
        saved_path is Some ==> status == found() || status == found_via_google(),
        saved_path is None ==> {
            ||| status == "google_no_result"@
            ||| "google_search_failed: "@.is_prefix_of(status)
            ||| "google_download_failed: "@.is_prefix_of(status)
        },
    ensures
        is_faithful(missing, report, with_result(run, status, image_url, saved_path)),
{
    let entry = missing[run.next as int];
    let key = key_of(entry);
    let after = with_result(run, status, image_url, saved_path);
    outcome_leaves_others(run.report, entry.team, entry.player, status, image_url, saved_path);
    outcome_is_entered(run.report, entry.team, entry.player, status, image_url, saved_path);
    keys(run.report).index_of_first_ensures(key);
    if keys(report).no_duplicates() {
        outcome_keeps_players_distinct(
            run.report,
            entry.team,
            entry.player,
            status,
            image_url,
            saved_path,
        );
    }
    assert(is_listed(missing, after.next, key)) by {
        assert(key_of(missing[run.next as int]) == key);
    }
    assert forall|k: (Seq<char>, Seq<char>)| is_listed(missing, run.next, k) implies is_listed(
        missing,
        after.next,
        k,
    ) by {
        let j = choose|j: int| 0 <= j < run.next && key_of(#[trigger] missing[j]) == k;
        assert(key_of(missing[j]) == k);
    }
    assert forall|i: int| 0 <= i < run.report.len() implies {
        &&& (#[trigger] after.report[i]).team == run.report[i].team
        &&& after.report[i].player == run.report[i].player
        &&& after.report[i].wikipedia_title == run.report[i].wikipedia_title
        &&& (run.report[i].team, run.report[i].player) == key || after.report[i] == run.report[i]
    } by {
        assert(keys(run.report)[i] == (run.report[i].team, run.report[i].player));
    }
    assert forall|j: int| 0 <= j < after.next implies is_told(
        after.report,
        key_of(#[trigger] missing[j]),
    ) by {
        if key_of(missing[j]) != key {
            assert(is_told(run.report, key_of(missing[j])));
            outcome_leaves_first_records(
                run.report,
                entry.team,
                entry.player,
                status,
                image_url,
                saved_path,
                key_of(missing[j]),
            );
        }
    }
}

/// After a run, every player on the list has a record that tells how the search went. Where
/// the record says that the photo is there, it has the path; else the player is on the list
/// of missing photos that is written for the report, as long as no missing record holds a
/// line feed.
pub proof fn every_entry_is_settled(
    missing: Seq<MissingView>,
    report: Seq<RecordView>,
    events: Seq<GoogleEvent>,
    j: int,
)
    requires
        google_after(missing, report, events) is Done,
        0 <= j < missing.len(),
        ({
            let after = run_at(google_after(missing, report, events)).report;
            forall|k: int|
                0 <= k < after.len() && is_missing(#[trigger] after[k], true) ==> is_one_line(
                    after[k],
                )
        }),
    ensures
        ({
            let after = run_at(google_after(missing, report, events)).report;
            &&& keys(after).index_of_first(key_of(missing[j])) matches Some(i)
            &&& 0 <= i < after.len()
            &&& tells_search(after[i])
            &&& if after[i].status == found() || after[i].status == found_via_google() {
                after[i].saved_path is Some
            } else {
                missing_entries(csv_text(after, true)).contains(listed(after[i]))
            }
        }),
{
    google_is_faithful(missing, report, events);
    let after = run_at(google_after(missing, report, events)).report;
    assert(is_told(after, key_of(missing[j])));
    list_holds_the_missing(after, true);
    let i = keys(after).index_of_first(key_of(missing[j]))->0;
    if after[i].status != found() && after[i].status != found_via_google() {
        assert(is_missing(after[i], true));
    }
    reveal_strlit("found");
    reveal_strlit("found_via_google");
    reveal_strlit("google_no_result");
    reveal_strlit("google_search_failed: ");
    reveal_strlit("google_download_failed: ");
    assert("found"@.len() == 5);
    assert("found_via_google"@.len() == 16);
    assert("google_search_failed: "@.len() == 22);
    assert("google_download_failed: "@.len() == 24);
    assert("google_no_result"@[0] == 'g');
    assert("found"@[0] == 'f');
    assert("found_via_google"@[0] == 'f');
}

/// How much a run still has to do at most.
pub open spec fn work_left(step: GoogleStepView) -> int {
    let run = run_at(step);
    let left = 4 * (run.missing.len() - run.next);
    match step {
        GoogleStepView::Check(_) => left,
        GoogleStepView::Search(_) => left - 1,
        GoogleStepView::Download(_, _) => left - 2,
        GoogleStepView::Pause(_) => left + 1,
        GoogleStepView::Done(_) => 0,
    }
}

/// Each awaited event brings a run nearer to its end: it is over after at most four events
/// for each entry of the list.
pub proof fn google_makes_progress(
    missing: Seq<MissingView>,
    report: Seq<RecordView>,
    events: Seq<GoogleEvent>,
    event: GoogleEvent,
)
    requires
        awaits(google_after(missing, report, events), event),
    ensures
        work_left(google_start(missing, report)) <= 4 * missing.len(),
        0 <= work_left(google_after(missing, report, events.push(event))) < work_left(
            google_after(missing, report, events),
        ),
{
    assert(events.push(event).drop_last() =~= events);
    google_is_faithful(missing, report, events);
    google_is_faithful(missing, report, events.push(event));
}

/// The first photo that is on disk settles the entry at hand, without a pause: its player is
/// `found` under that path, which counts, and no URL is entered. Where none is on disk, the
/// player is searched for, and nothing changes.
pub proof fn photo_on_disk_settles_entry(
    run: GoogleView,
    existing: Seq<Option<Seq<char>>>,
    at: int,
)
    ensures
        ({
            let entry = run.missing[run.next as int];
            let step = after_google_check(run, existing);
            &&& (0 <= at < existing.len() && existing[at] is Some && forall|i: int|
                0 <= i < at ==> (#[trigger] existing[i]) is None) ==> {
                &&& run_at(step).report == with_outcome(
                    run.report,
                    entry.team,
                    entry.player,
                    "found"@,
                    None,
                    existing[at],
                )
                &&& run_at(step).improved == run.improved + 1
                &&& run_at(step).next == run.next + 1
                &&& run_at(step).missing == run.missing
                &&& step is Check <==> run.next + 1 < run.missing.len()
                &&& step is Done <==> run.next + 1 >= run.missing.len()
            }
            &&& (forall|i: int| 0 <= i < existing.len() ==> (#[trigger] existing[i]) is None)
                ==> step == GoogleStepView::Search(run)
        }),
{
    if 0 <= at < existing.len() && existing[at] is Some && forall|i: int|
        0 <= i < at ==> (#[trigger] existing[i]) is None {
        earlier_paths_are_missing(existing, at);
    }
    first_path_is_of_the_paths(existing);
}

/// An image that the search found is downloaded next. No image, and an error of the search,
/// are entered under the entry's player, with neither a URL nor a path, and do not count; a
/// pause follows.
pub proof fn search_answer_is_entered(run: GoogleView, text: Seq<char>)
    ensures
        ({
            let entry = run.missing[run.next as int];
            &&& after_google_search(run, Ok(Some(text))) == GoogleStepView::Download(run, text)
            &&& after_google_search(run, Ok(None)) == GoogleStepView::Pause(
                GoogleView {
                    report: with_outcome(
                        run.report,
                        entry.team,
                        entry.player,
                        "google_no_result"@,
                        None,
                        None,
                    ),
                    next: run.next + 1,
                    ..run
                },
            )
            &&& after_google_search(run, Err(text)) == GoogleStepView::Pause(
                GoogleView {
                    report: with_outcome(
                        run.report,
                        entry.team,
                        entry.player,
                        "google_search_failed: "@ + text,
                        None,
                        None,
                    ),
                    next: run.next + 1,
                    ..run
                },
            )
        }),
{
}

/// A download is entered under the entry's player with its URL: as `found_via_google` with the
/// path, which counts, or as `google_download_failed: ` and why, which does not; a pause
/// follows.
pub proof fn search_download_is_entered(run: GoogleView, url: Seq<char>, text: Seq<char>)
    ensures
        ({
            let entry = run.missing[run.next as int];
            &&& after_google_download(run, url, Ok(text)) == GoogleStepView::Pause(
                GoogleView {
                    report: with_outcome(
                        run.report,
                        entry.team,
                        entry.player,
                        "found_via_google"@,
                        Some(url),
                        Some(text),
                    ),
                    next: run.next + 1,
                    improved: run.improved + 1,
                    ..run
                },
            )
            &&& after_google_download(run, url, Err(text)) == GoogleStepView::Pause(
                GoogleView {
                    report: with_outcome(
                        run.report,
                        entry.team,
                        entry.player,
                        "google_download_failed: "@ + text,
                        Some(url),
                        None,
                    ),
                    next: run.next + 1,
                    ..run
                },
            )
        }),
{
}

/// A run begins with the first entry of the list, with the report as it is and nothing
/// counted, takes the entries in turn, and is over behind the last.
pub proof fn entries_come_in_turn(
    missing: Seq<MissingView>,
    report: Seq<RecordView>,
    run: GoogleView,
)
    ensures
        run_at(google_start(missing, report)) == (GoogleView {
            missing,
            next: 0,
            report,
            improved: 0,
        }),
        missing.len() > 0 <==> google_start(missing, report) is Check,
        missing.len() == 0 <==> google_start(missing, report) is Done,
        run.next < run.missing.len() ==> at_next(run) == GoogleStepView::Check(run),
        run.next >= run.missing.len() ==> at_next(run) == GoogleStepView::Done(run),
{
}

/// A player is searched by name, team and sport, with spaces between them.
pub proof fn image_query_names_team_and_sport(player: Seq<char>, team: Seq<char>)
    ensures
        image_query(player, team) == player + seq![' '] + team + " rugby"@,
{
    reveal_strlit(" ");
    assert(" "@ =~= seq![' ']);
}

/// Photos are looked for as `jpg`, `jpeg`, `png` and `webp`, in this order.
pub proof fn four_extensions_are_known()
    ensures
        known_extensions().len() == 4,
        known_extensions()[0] == "jpg"@,
        known_extensions()[1] == "jpeg"@,
        known_extensions()[2] == "png"@,
        known_extensions()[3] == "webp"@,
{
}

/// A finished run is shown as it is.
pub proof fn report_shows_what_it_holds(report: GoogleReport)
    ensures
        report@.missing == missing_views(report.missing@),
        report@.report == records(report.report@),
        report@.improved == report.improved,
        GoogleStep::Done(report)@ == GoogleStepView::Done(report@),
{
}

} // verus!
