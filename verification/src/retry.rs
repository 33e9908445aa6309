//! Trying again where a photo is missing: a run over the records of a report.

use crate::lookup::{
    download_failed_status, error_status, failed_is_not_found, lookup_text, outcome_text,
    PageSearch,
};
use crate::names::{
    extension, extensions_are_tried_once, extensions_to_try, first_of, first_path,
    first_path_is_of_the_paths, guess_extension, lowercase, path_texts, photo_candidates,
    photo_file, photo_name, safe_name, saved_extension_is_tried, PhotoFile,
};
use crate::report::{
    found, found_via_google, is_download_failed, is_lookup_error, records,
    status_is_download_failed, status_is_lookup_error, PlayerResult, RecordView,
};
use crate::text::same_text;
use vstd::prelude::*;

verus! {

/// The pause between two players of a retry run, in milliseconds. It is longer than that of
/// an ordinary run, to stay well under the rate limits of the image server.
pub const RETRY_DELAY_MS: u64 = 15_000;

/// Whether a record is worth another try: its download or its lookup failed. A player without
/// a page or without an image has none to find the second time.
pub open spec fn is_actionable(record: RecordView) -> bool {
    is_download_failed(record.status) || is_lookup_error(record.status)
}

/// How many of the first `upto` records are worth another try.
pub open spec fn actionable_count(entries: Seq<RecordView>, upto: nat) -> nat
    decreases upto,
{
    if upto == 0 {
        0
    } else {
        actionable_count(entries, (upto - 1) as nat) + if is_actionable(entries[upto - 1]) {
            1nat
        } else {
            0nat
        }
    }
}

/// The position of the first record from `from` on that is worth another try, or the end.
pub open spec fn next_actionable(entries: Seq<RecordView>, from: nat) -> nat
    decreases entries.len() - from,
{
    if from >= entries.len() || is_actionable(entries[from as int]) {
        from
    } else {
        next_actionable(entries, from + 1)
    }
}

/// A retry run: the records as they stand, the position of the one at hand, how many became
/// `found`, and how many were worth another try at the start.
#[verifier::ext_equal]
pub struct RetryView {
    pub entries: Seq<RecordView>,
    pub next: nat,
    pub improved: nat,
    pub total: nat,
}

/// Where a retry run stands, with the run itself.
pub enum RetryStepView {
    Check(RetryView),
    Download(RetryView),
    Lookup(RetryView),
    Pause(RetryView),
    Done(RetryView),
}

/// The run at the next record worth another try, or over where there is none.
pub open spec fn settled(run: RetryView) -> RetryStepView {
    let next = next_actionable(run.entries, run.next);
    if next < run.entries.len() {
        RetryStepView::Check(RetryView { next, ..run })
    } else {
        RetryStepView::Done(RetryView { next, ..run })
    }
}

/// The beginning of a run over a report.
pub open spec fn retry_start(entries: Seq<RecordView>) -> RetryStepView {
    settled(
        RetryView {
            entries,
            next: 0,
            improved: 0,
            total: actionable_count(entries, entries.len()),
        },
    )
}

/// The run behind the record at hand, which became the given one.
pub open spec fn with_entry(run: RetryView, entry: RecordView) -> RetryView {
    RetryView {
        entries: run.entries.update(run.next as int, entry),
        next: run.next + 1,
        improved: run.improved + if entry.status == found() {
            1nat
        } else {
            0nat
        },
        ..run
    }
}

/// The record, now that its photo is saved under a path.
pub open spec fn as_found(entry: RecordView, path: Seq<char>) -> RecordView {
    RecordView { status: found(), saved_path: Some(path), ..entry }
}

/// The extensions under which to look for the photo of a record.
pub open spec fn likely_extensions(entry: RecordView) -> Seq<Seq<char>> {
    extensions_to_try(
        match entry.image_url {
            Some(url) => extension(lowercase(url)),
            None => "jpg"@,
        },
    )
}

/// Once it is known whether a photo of the player at hand is on disk already: if one is, the
/// record is `found` and the run goes on. If not, a failed download with a known URL is
/// downloaded again, one without is passed over, and a failed lookup is made again.
pub open spec fn after_check(run: RetryView, existing: Option<Seq<char>>) -> RetryStepView {
    let entry = run.entries[run.next as int];
    match existing {
        Some(path) => settled(with_entry(run, as_found(entry, path))),
        None => if !is_download_failed(entry.status) {
            RetryStepView::Lookup(run)
        } else if entry.image_url is Some {
            RetryStepView::Download(run)
        } else {
            settled(RetryView { next: run.next + 1, ..run })
        },
    }
}

/// Once the image at hand was downloaded again, or failed to.
pub open spec fn after_retried_download(
    run: RetryView,
    outcome: Result<Seq<char>, Seq<char>>,
) -> RetryStepView {
    let entry = run.entries[run.next as int];
    RetryStepView::Pause(
        with_entry(
            run,
            match outcome {
                Ok(path) => as_found(entry, path),
                Err(e) => RecordView { status: "download_failed: "@ + e, ..entry },
            },
        ),
    )
}

/// Once the player at hand was looked up again: the record takes what the lookup found, but
/// keeps its page title where the lookup has none.
pub open spec fn after_retried_lookup(
    run: RetryView,
    result: Result<RecordView, Seq<char>>,
) -> RetryStepView {
    let entry = run.entries[run.next as int];
    RetryStepView::Pause(
        with_entry(
            run,
            match result {
                Ok(r) => RecordView {
                    team: entry.team,
                    player: entry.player,
                    status: r.status,
                    wikipedia_title: if r.wikipedia_title is Some {
                        r.wikipedia_title
                    } else {
                        entry.wikipedia_title
                    },
                    image_url: r.image_url,
                    saved_path: r.saved_path,
                },
                Err(e) => RecordView { status: "error: "@ + e, ..entry },
            },
        ),
    )
}

/// Whether the record is worth another try.
pub fn actionable(record: &PlayerResult) -> (yes: bool)
    ensures
        yes == is_actionable(record@),
{
    status_is_download_failed(&record.status) || status_is_lookup_error(&record.status)
}

/// Counts the records that are worth another try.
pub fn count_actionable(entries: &Vec<PlayerResult>) -> (total: usize)
    ensures
        total == actionable_count(records(entries@), entries@.len()),
{
    let ghost all = records(entries@);
    let mut total: usize = 0;
    let mut i: usize = 0;
    while i < entries.len()
        invariant
            i <= entries@.len(),
            all == records(entries@),
            total == actionable_count(all, i as nat),
            total <= i,
        decreases entries@.len() - i,
    {
        assert(all[i as int] == entries@[i as int]@);
        if actionable(&entries[i]) {
            total = total + 1;
        }
        i = i + 1;
    }
    total
}

#[derive(Debug)]
struct RetryRun {
    entries: Vec<PlayerResult>,
    next: usize,
    improved: usize,
    total: usize,
}

impl RetryRun {
    spec fn model(self) -> RetryView {
        RetryView {
            entries: records(self.entries@),
            next: self.next as nat,
            improved: self.improved as nat,
            total: self.total as nat,
        }
    }

    spec fn wf(self) -> bool {
        self.improved <= self.next <= self.entries.len()
    }

    spec fn at_entry(self) -> bool {
        self.improved <= self.next < self.entries.len()
    }

    /// Moves on to the next record worth another try.
    fn settle(self) -> (step: RetryStep)
        requires
            self.wf(),
        ensures
            step@ == settled(self.model()),
    {
        let mut run = self;
        let ghost start = run.model();
        while run.next < run.entries.len() && !actionable(&run.entries[run.next])
            invariant
                run.wf(),
                run.model() == (RetryView { next: run.next as nat, ..start }),
                next_actionable(start.entries, run.next as nat) == next_actionable(
                    start.entries,
                    start.next,
                ),
            decreases run.entries@.len() - run.next,
        {
            assert(start.entries[run.next as int] == run.entries@[run.next as int]@);
            run.next = run.next + 1;
        }
        if run.next < run.entries.len() {
            assert(start.entries[run.next as int] == run.entries@[run.next as int]@);
            RetryStep::Check(RetryCheck { run })
        } else {
            RetryStep::Done(
                RetryReport { entries: run.entries, improved: run.improved, total: run.total },
            )
        }
    }
}

/// A retry run that waits to hear whether the photo at hand is on disk.
#[derive(Debug)]
pub struct RetryCheck {
    run: RetryRun,
}

/// A retry run that waits for the image at hand to be downloaded again.
#[derive(Debug)]
pub struct RetryDownload {
    run: RetryRun,
}

/// A retry run that waits for the player at hand to be looked up again.
#[derive(Debug)]
pub struct RetryLookup {
    run: RetryRun,
}

/// A retry run that rests between two players.
#[derive(Debug)]
pub struct RetryPause {
    run: RetryRun,
}

/// The records after a retry run, how many of them became `found`, and how many were worth
/// another try.
#[derive(Debug)]
pub struct RetryReport {
    pub entries: Vec<PlayerResult>,
    pub improved: usize,
    pub total: usize,
}

/// Where a retry run stands.
#[derive(Debug)]
pub enum RetryStep {
    /// See whether the photo is on disk already.
    Check(RetryCheck),
    /// Download the image again.
    Download(RetryDownload),
    /// Look the player up again.
    Lookup(RetryLookup),
    /// Wait before going on.
    Pause(RetryPause),
    /// The run is over.
    Done(RetryReport),
}

impl View for RetryCheck {
    type V = RetryView;

    closed spec fn view(&self) -> RetryView {
        self.run.model()
    }
}

impl View for RetryDownload {
    type V = RetryView;

    closed spec fn view(&self) -> RetryView {
        self.run.model()
    }
}

impl View for RetryLookup {
    type V = RetryView;

    closed spec fn view(&self) -> RetryView {
        self.run.model()
    }
}

impl View for RetryPause {
    type V = RetryView;

    closed spec fn view(&self) -> RetryView {
        self.run.model()
    }
}

impl View for RetryReport {
    type V = RetryView;

    open spec fn view(&self) -> RetryView {
        RetryView {
            entries: records(self.entries@),
            next: self.entries@.len(),
            improved: self.improved as nat,
            total: self.total as nat,
        }
    }
}

impl View for RetryStep {
    type V = RetryStepView;

    open spec fn view(&self) -> RetryStepView {
        match self {
            RetryStep::Check(s) => RetryStepView::Check(s@),
            RetryStep::Download(s) => RetryStepView::Download(s@),
            RetryStep::Lookup(s) => RetryStepView::Lookup(s@),
            RetryStep::Pause(s) => RetryStepView::Pause(s@),
            RetryStep::Done(s) => RetryStepView::Done(s@),
        }
    }
}

impl RetryStep {
    /// Begins a run over the records of a report.
    pub fn start(entries: Vec<PlayerResult>) -> (step: RetryStep)
        ensures
            step@ == retry_start(records(entries@)),
    {
        let total = count_actionable(&entries);
        RetryRun { entries, next: 0, improved: 0, total }.settle()
    }
}

impl RetryCheck {
    #[verifier::type_invariant]
    spec fn valid(self) -> bool {
        self.run.at_entry()
    }

    /// The record at hand.
    pub fn entry(&self) -> (out: &PlayerResult)
        ensures
            out@ == self@.entries[self@.next as int],
    {
        proof {
            use_type_invariant(self);
        }
        &self.run.entries[self.run.next]
    }

    /// The photos to look for on disk, one for each extension under which a photo can be
    /// saved: that of the URL first, where one is known, else a JPEG.
    pub fn photos(&self) -> (out: Vec<PhotoFile>)
        ensures
            ({
                let entry = self@.entries[self@.next as int];
                let exts = likely_extensions(entry);
                &&& out@.len() == exts.len()
                &&& forall|i: int|
                    0 <= i < out@.len() ==> {
                        &&& (#[trigger] out@[i]).dir@ == safe_name(entry.team)
                        &&& out@[i].file@ == photo_name(entry.player, exts[i])
                    }
            }),
    {
        let entry = self.entry();
        let first = match &entry.image_url {
            Some(url) => guess_extension(url),
            None => "jpg",
        };
        photo_candidates(&entry.team, &entry.player, first)
    }

    /// Takes, for each of the photos, its path where it is on disk.
    pub fn on_answer(self, existing: Vec<Option<String>>) -> (step: RetryStep)
        ensures
            step@ == after_check(self@, first_path(path_texts(existing@))),
    {
        proof {
            use_type_invariant(&self);
        }
        let mut run = self.run;
        let ghost before = run.model();
        let at: usize = run.next;
        assert(before.entries[at as int] == run.entries@[at as int]@);
        match first_of(existing) {
            Some(path) => {
                run.entries[at].status = "found".to_owned();
                run.entries[at].saved_path = Some(path);
                run.improved = run.improved + 1;
                run.next = at + 1;
                assert(run.model() =~= with_entry(
                    before,
                    as_found(before.entries[at as int], path@),
                ));
                run.settle()
            },
            None => if !status_is_download_failed(&run.entries[at].status) {
                RetryStep::Lookup(RetryLookup { run })
            } else if run.entries[at].image_url.is_some() {
                RetryStep::Download(RetryDownload { run })
            } else {
                run.next = at + 1;
                run.settle()
            },
        }
    }
}

impl RetryDownload {
    #[verifier::type_invariant]
    spec fn valid(self) -> bool {
        self.run.at_entry() && self.run.entries@[self.run.next as int].image_url is Some
    }

    /// The record at hand.
    pub fn entry(&self) -> (out: &PlayerResult)
        ensures
            out@ == self@.entries[self@.next as int],
    {
        proof {
            use_type_invariant(self);
        }
        &self.run.entries[self.run.next]
    }

    /// The URL to download.
    pub fn url(&self) -> (out: String)
        ensures
            Some(out@) == self@.entries[self@.next as int].image_url,
    {
        proof {
            use_type_invariant(self);
        }
        match &self.run.entries[self.run.next].image_url {
            Some(url) => url.clone(),
            None => String::new(),
        }
    }

    /// Where to save the image.
    pub fn photo(&self) -> (out: PhotoFile)
        ensures
            ({
                let entry = self@.entries[self@.next as int];
                &&& out.dir@ == safe_name(entry.team)
                &&& out.file@ == photo_name(entry.player, extension(lowercase(entry.image_url->0)))
            }),
    {
        let entry = self.entry();
        photo_file(&entry.team, &entry.player, guess_extension(&self.url()))
    }

    /// Takes the outcome of the download: the path of the saved image, or why there is none.
    pub fn on_outcome(self, outcome: Result<String, String>) -> (step: RetryStep)
        ensures
            step@ == after_retried_download(self@, outcome_text(outcome)),
    {
        proof {
            use_type_invariant(&self);
            failed_is_not_found();
        }
        let mut run = self.run;
        let ghost before = run.model();
        let at: usize = run.next;
        assert(before.entries[at as int] == run.entries@[at as int]@);
        match outcome {
            Ok(path) => {
                run.entries[at].status = "found".to_owned();
                run.entries[at].saved_path = Some(path);
                run.improved = run.improved + 1;
            },
            Err(e) => {
                run.entries[at].status = download_failed_status(&e);
            },
        }
        run.next = at + 1;
        assert(RetryStepView::Pause(run.model()) == after_retried_download(
            before,
            outcome_text(outcome),
        )) by {
            let entry = before.entries[at as int];
            let now = match outcome_text(outcome) {
                Ok(path) => as_found(entry, path),
                Err(e) => RecordView { status: "download_failed: "@ + e, ..entry },
            };
            assert(run.entries@[at as int]@ == now);
            assert(run.model() =~= with_entry(before, now));
        }
        RetryStep::Pause(RetryPause { run })
    }
}

/// Every failed download and every failed lookup is tried again, whatever the message; a
/// player without a page or without an image, and one whose photo is saved, never is.
pub proof fn failures_alone_are_tried_again(record: RecordView, message: Seq<char>)
    ensures
        record.status == "download_failed: "@ + message ==> is_actionable(record),
        record.status == "error: "@ + message ==> is_actionable(record),
        record.status == "no_wiki_page"@ ==> !is_actionable(record),
        record.status == "no_image"@ ==> !is_actionable(record),
        record.status == found() ==> !is_actionable(record),
        record.status == found_via_google() ==> !is_actionable(record),
{
    reveal_strlit("download_failed: ");
    reveal_strlit("download_failed");
    reveal_strlit("error: ");
    reveal_strlit("error:");
    reveal_strlit("no_wiki_page");
    reveal_strlit("no_image");
    reveal_strlit("found");
    reveal_strlit("found_via_google");
    assert("download_failed: "@.len() == 17);
    assert("download_failed"@.len() == 15);
    assert("error: "@.len() == 7);
    assert("error:"@.len() == 6);
    assert("download_failed"@[0] == 'd');
    assert("error:"@[0] == 'e');
    assert("no_wiki_page"@[0] == 'n');
    assert("no_image"@[0] == 'n');
    assert("found"@[0] == 'f');
    assert("found_via_google"@[0] == 'f');
    let failed = "download_failed: "@ + message;
    assert(failed.subrange(0, 15) =~= "download_failed"@);
    let error = "error: "@ + message;
    assert(error.subrange(0, 6) =~= "error:"@);
    let status = record.status;
    if is_download_failed(status) {
        assert(status.subrange(0, 15)[0] == status[0]);
    }
    if is_lookup_error(status) {
        assert(status.subrange(0, 6)[0] == status[0]);
    }
}

impl RetryLookup {
    #[verifier::type_invariant]
    spec fn valid(self) -> bool {
        self.run.at_entry()
    }

    /// The record at hand.
    pub fn entry(&self) -> (out: &PlayerResult)
        ensures
            out@ == self@.entries[self@.next as int],
    {
        proof {
            use_type_invariant(self);
        }
        &self.run.entries[self.run.next]
    }

    /// The lookup to make.
    pub fn lookup(&self) -> (out: PageSearch)
        ensures
            out.team@ == self@.entries[self@.next as int].team,
            out.player@ == self@.entries[self@.next as int].player,
    {
        let entry = self.entry();
        PageSearch::start(&entry.team, &entry.player)
    }

    /// Takes the result of the lookup: a record, or why there is none.
    pub fn on_result(self, result: Result<PlayerResult, String>) -> (step: RetryStep)
        ensures
            step@ == after_retried_lookup(self@, lookup_text(result)),
    {
        proof {
            use_type_invariant(&self);
            failed_is_not_found();
        }
        let mut run = self.run;
        let ghost before = run.model();
        let at: usize = run.next;
        assert(before.entries[at as int] == run.entries@[at as int]@);
        match result {
            Ok(r) => {
                if same_text(&r.status, "found") {
                    run.improved = run.improved + 1;
                }
                run.entries[at].status = r.status;
                if r.wikipedia_title.is_some() {
                    run.entries[at].wikipedia_title = r.wikipedia_title;
                }
                run.entries[at].image_url = r.image_url;
                run.entries[at].saved_path = r.saved_path;
            },
            Err(e) => {
                run.entries[at].status = error_status(&e);
            },
        }
        run.next = at + 1;
        assert(RetryStepView::Pause(run.model()) == after_retried_lookup(
            before,
            lookup_text(result),
        )) by {
            let now = run.entries@[at as int]@;
            assert(run.model() =~= with_entry(before, now));
        }
        RetryStep::Pause(RetryPause { run })
    }
}

impl RetryPause {
    #[verifier::type_invariant]
    spec fn valid(self) -> bool {
        self.run.wf()
    }

    /// How long to wait.
    pub fn millis(&self) -> (out: u64)
        ensures
            out == RETRY_DELAY_MS,
            out == 15_000,
    {
        RETRY_DELAY_MS
    }

    /// Goes on after the wait.
    pub fn resume(self) -> (step: RetryStep)
        ensures
            step@ == settled(self@),
    {
        proof {
            use_type_invariant(&self);
        }
        self.run.settle()
    }
}

/// What a retry run is told.
pub enum RetryEvent {
    /// The path of a photo of the player at hand, if one is on disk.
    Existing(Option<Seq<char>>),
    /// The outcome of a download.
    Downloaded(Result<Seq<char>, Seq<char>>),
    /// The result of a lookup.
    LookedUp(Result<RecordView, Seq<char>>),
    /// The wait is over.
    Resumed,
}

/// Whether the event is the one that the run waits for.
pub open spec fn awaits(step: RetryStepView, event: RetryEvent) -> bool {
    match (step, event) {
        (RetryStepView::Check(_), RetryEvent::Existing(_)) => true,
        (RetryStepView::Download(_), RetryEvent::Downloaded(_)) => true,
        (RetryStepView::Lookup(_), RetryEvent::LookedUp(_)) => true,
        (RetryStepView::Pause(_), RetryEvent::Resumed) => true,
        _ => false,
    }
}

/// Where the run stands after an event; other events than the awaited one change nothing.
pub open spec fn react(step: RetryStepView, event: RetryEvent) -> RetryStepView {
    match (step, event) {
        (RetryStepView::Check(run), RetryEvent::Existing(path)) => after_check(run, path),
        (RetryStepView::Download(run), RetryEvent::Downloaded(outcome)) => after_retried_download(
            run,
            outcome,
        ),
        (RetryStepView::Lookup(run), RetryEvent::LookedUp(result)) => after_retried_lookup(
            run,
            result,
        ),
        (RetryStepView::Pause(run), RetryEvent::Resumed) => settled(run),
        _ => step,
    }
}

/// Where a run over a report stands after a sequence of events.
pub open spec fn retry_after(
    entries: Seq<RecordView>,
    events: Seq<RetryEvent>,
) -> RetryStepView
    decreases events.len(),
{
    if events.len() == 0 {
        retry_start(entries)
    } else {
        react(retry_after(entries, events.drop_last()), events.last())
    }
}

/// The run that stands at a step.
pub open spec fn run_at(step: RetryStepView) -> RetryView {
    match step {
        RetryStepView::Check(run) => run,
        RetryStepView::Download(run) => run,
        RetryStepView::Lookup(run) => run,
        RetryStepView::Pause(run) => run,
        RetryStepView::Done(run) => run,
    }
}

/// How many of the first `upto` records were worth another try and are `found` now.
pub open spec fn recovered_count(
    before: Seq<RecordView>,
    now: Seq<RecordView>,
    upto: nat,
) -> nat
    decreases upto,
{
    if upto == 0 {
        0
    } else {
        recovered_count(before, now, (upto - 1) as nat) + if is_actionable(before[upto - 1])
            && now[upto - 1].status == found() {
            1nat
        } else {
            0nat
        }
    }
}

/// What holds of a run over a report at every step: each record stays about its player, a
/// record that is not worth another try and one that was not reached yet stays as it was,
/// and the counts are right.
pub open spec fn is_faithful(before: Seq<RecordView>, run: RetryView) -> bool {
    &&& run.entries.len() == before.len()
    &&& run.next <= before.len()
    &&& forall|i: int|
        0 <= i < before.len() ==> {
            &&& (#[trigger] run.entries[i]).team == before[i].team
            &&& run.entries[i].player == before[i].player
            &&& !is_actionable(before[i]) || i >= run.next ==> run.entries[i] == before[i]
        }
    &&& run.improved == recovered_count(before, run.entries, run.next)
    &&& run.total == actionable_count(before, before.len())
    &&& run.improved <= run.total
}

/// Whether a step is one that a run can stand at: unless it rests or is over, there is a
/// record worth another try at hand, and a run that is over has no record left.
pub open spec fn is_placed(step: RetryStepView) -> bool {
    let run = run_at(step);
    match step {
        RetryStepView::Pause(_) => true,
        RetryStepView::Done(_) => run.next == run.entries.len(),
        RetryStepView::Download(_) => {
            &&& run.next < run.entries.len()
            &&& is_download_failed(run.entries[run.next as int].status)
            &&& run.entries[run.next as int].image_url is Some
        },
        RetryStepView::Lookup(_) => {
            &&& run.next < run.entries.len()
            &&& is_lookup_error(run.entries[run.next as int].status)
        },
        RetryStepView::Check(_) => {
            &&& run.next < run.entries.len()
            &&& is_actionable(run.entries[run.next as int])
        },
    }
}

/// Whatever a run over a report is told, it keeps to the records that are worth another try:
/// all others, among them players without a page or an image and photos already found, stay
/// as they were; every record stays about its player; and the run counts those that became
/// `found`. Nothing is downloaded but a failed download, and no one looked up but after a
/// failed lookup.
pub proof fn retry_is_faithful(entries: Seq<RecordView>, events: Seq<RetryEvent>)
    ensures
        is_faithful(entries, run_at(retry_after(entries, events))),
        is_placed(retry_after(entries, events)),
    decreases events.len(),
{
    if events.len() == 0 {
        counts_are_bounded(entries, entries, 0);
        settled_is_faithful(
            entries,
            RetryView {
                entries,
                next: 0,
                improved: 0,
                total: actionable_count(entries, entries.len()),
            },
        );
    } else {
        retry_is_faithful(entries, events.drop_last());
        let step = retry_after(entries, events.drop_last());
        failed_is_not_found();
        match (step, events.last()) {
            (RetryStepView::Check(run), RetryEvent::Existing(path)) => {
                checked_is_faithful(entries, run, path);
            },
            (RetryStepView::Download(run), RetryEvent::Downloaded(outcome)) => {
                let entry = run.entries[run.next as int];
                entered_is_faithful(
                    entries,
                    run,
                    match outcome {
                        Ok(path) => as_found(entry, path),
                        Err(e) => RecordView { status: "download_failed: "@ + e, ..entry },
                    },
                );
            },
            (RetryStepView::Lookup(run), RetryEvent::LookedUp(result)) => {
                let after = run_at(after_retried_lookup(run, result));
                let now = after.entries[run.next as int];
                assert(after =~= with_entry(run, now));
                entered_is_faithful(entries, run, now);
            },
            (RetryStepView::Pause(run), RetryEvent::Resumed) => {
                settled_is_faithful(entries, run);
            },
            _ => {},
        }
    }
}

proof fn not_both_failed_and_found(status: Seq<char>)
    requires
        is_download_failed(status),
    ensures
        status != found(),
{
    reveal_strlit("found");
    reveal_strlit("download_failed");
    assert("found"@.len() == 5);
    assert("download_failed"@.len() == 15);
}

proof fn counts_are_bounded(before: Seq<RecordView>, now: Seq<RecordView>, upto: nat)
    requires
        upto <= before.len(),
    ensures
        recovered_count(before, now, upto) <= actionable_count(before, upto),
        actionable_count(before, upto) <= actionable_count(before, before.len()),
{
    count_grows(before, upto, before.len());
    recovered_is_actionable(before, now, upto);
}

proof fn count_grows(before: Seq<RecordView>, from: nat, to: nat)
    requires
        from <= to,
    ensures
        actionable_count(before, from) <= actionable_count(before, to),
    decreases to,
{
    if from < to {
        count_grows(before, from, (to - 1) as nat);
    }
}

proof fn recovered_is_actionable(before: Seq<RecordView>, now: Seq<RecordView>, upto: nat)
    ensures
        recovered_count(before, now, upto) <= actionable_count(before, upto),
    decreases upto,
{
    if upto > 0 {
        recovered_is_actionable(before, now, (upto - 1) as nat);
    }
}

proof fn recovered_keeps(
    before: Seq<RecordView>,
    now: Seq<RecordView>,
    later: Seq<RecordView>,
    upto: nat,
)
    requires
        forall|i: int| 0 <= i < upto ==> now[i] == later[i],
    ensures
        recovered_count(before, now, upto) == recovered_count(before, later, upto),
    decreases upto,
{
    if upto > 0 {
        recovered_keeps(before, now, later, (upto - 1) as nat);
    }
}

/// Entering a record for the same player keeps a run faithful.
proof fn entered_is_faithful(before: Seq<RecordView>, run: RetryView, entry: RecordView)
    requires
        is_faithful(before, run),
        run.next < before.len(),
        is_actionable(run.entries[run.next as int]),
        entry.team == run.entries[run.next as int].team,
        entry.player == run.entries[run.next as int].player,
    ensures
        is_faithful(before, with_entry(run, entry)),
{
    let after = with_entry(run, entry);
    let at = run.next as int;
    assert(run.entries[at] == before[at]);
    recovered_keeps(before, run.entries, after.entries, run.next);
    assert(after.improved == recovered_count(before, after.entries, after.next));
    counts_are_bounded(before, after.entries, after.next);
    assert forall|i: int| 0 <= i < before.len() implies {
        &&& (#[trigger] after.entries[i]).team == before[i].team
        &&& after.entries[i].player == before[i].player
        &&& !is_actionable(before[i]) || i >= after.next ==> after.entries[i] == before[i]
    } by {
        assert(run.entries[i].team == before[i].team);
    }
}

/// Moving on to the next record worth another try keeps a run faithful.
proof fn settled_is_faithful(before: Seq<RecordView>, run: RetryView)
    requires
        is_faithful(before, run),
    ensures
        is_faithful(before, run_at(settled(run))),
        is_placed(settled(run)),
        run_at(settled(run)).next >= run.next,
    decreases before.len() - run.next,
{
    if run.next < before.len() && !is_actionable(run.entries[run.next as int]) {
        let on = RetryView { next: run.next + 1, ..run };
        assert(run.entries[run.next as int] == before[run.next as int]);
        counts_are_bounded(before, run.entries, on.next);
        assert(is_faithful(before, on));
        settled_is_faithful(before, on);
    }
}

/// Hearing whether the photo at hand is on disk keeps a run faithful, and settles the record
/// at hand unless it is to be downloaded or looked up.
proof fn checked_is_faithful(before: Seq<RecordView>, run: RetryView, existing: Option<Seq<char>>)
    requires
        is_faithful(before, run),
        is_placed(RetryStepView::Check(run)),
    ensures
        ({
            let step = after_check(run, existing);
            &&& is_faithful(before, run_at(step))
            &&& is_placed(step)
            &&& step is Download || step is Lookup || run_at(step).next > run.next
            &&& step is Download || step is Lookup ==> run_at(step) == run
            &&& !(step is Pause)
        }),
{
    let entry = run.entries[run.next as int];
    match existing {
        Some(path) => {
            entered_is_faithful(before, run, as_found(entry, path));
            settled_is_faithful(before, with_entry(run, as_found(entry, path)));
        },
        None => {
            if is_download_failed(entry.status) && entry.image_url is None {
                not_both_failed_and_found(entry.status);
                entered_is_faithful(before, run, entry);
                assert(run.entries.update(run.next as int, entry) =~= run.entries);
                settled_is_faithful(before, RetryView { next: run.next + 1, ..run });
            }
        },
    }
}

/// A player whose photo is on disk, under whatever name a photo can be saved, is skipped:
/// once the run hears of it, the record says `found`, with the path of a photo that is there,
/// and neither a download nor a lookup follows for it.
pub proof fn saved_player_is_skipped(
    entries: Seq<RecordView>,
    events: Seq<RetryEvent>,
    existing: Seq<Option<Seq<char>>>,
    url: Seq<char>,
)
    requires
        retry_after(entries, events) is Check,
        ({
            let run = run_at(retry_after(entries, events));
            let exts = likely_extensions(run.entries[run.next as int]);
            &&& existing.len() == exts.len()
            &&& forall|i: int|
                0 <= i < exts.len() && exts[i] == extension(lowercase(url)) ==> (
                #[trigger] existing[i]) is Some
        }),
    ensures
        ({
            let run = run_at(retry_after(entries, events));
            let step = after_check(run, first_path(existing));
            &&& step is Check || step is Done
            &&& run_at(step).next > run.next
            &&& run_at(step).entries[run.next as int].status == found()
            &&& run_at(step).entries[run.next as int].saved_path is Some
            &&& existing.contains(run_at(step).entries[run.next as int].saved_path)
        }),
{
    retry_is_faithful(entries, events);
    let run = run_at(retry_after(entries, events));
    let entry = run.entries[run.next as int];
    let exts = likely_extensions(entry);
    saved_extension_is_tried(
        lowercase(url),
        match entry.image_url {
            Some(url) => extension(lowercase(url)),
            None => "jpg"@,
        },
    );
    let i = choose|i: int| 0 <= i < exts.len() && exts[i] == extension(lowercase(url));
    assert(existing[i] is Some);
    first_path_is_of_the_paths(existing);
    checked_is_faithful(entries, run, first_path(existing));
}

/// How much a run still has to do at most.
pub open spec fn work_left(step: RetryStepView) -> int {
    let run = run_at(step);
    let left = 3 * (run.entries.len() - run.next);
    match step {
        RetryStepView::Check(_) => left,
        RetryStepView::Download(_) => left - 1,
        RetryStepView::Lookup(_) => left - 1,
        RetryStepView::Pause(_) => left + 1,
        RetryStepView::Done(_) => 0,
    }
}

/// Each awaited event brings a run nearer to its end: it is over after at most three events
/// for each record of the report.
pub proof fn retry_makes_progress(
    entries: Seq<RecordView>,
    events: Seq<RetryEvent>,
    event: RetryEvent,
)
    requires
        awaits(retry_after(entries, events), event),
    ensures
        work_left(retry_start(entries)) <= 3 * entries.len(),
        0 <= work_left(retry_after(entries, events.push(event))) < work_left(
            retry_after(entries, events),
        ),
{
    let step = retry_after(entries, events);
    assert(events.push(event).drop_last() =~= events);
    retry_is_faithful(entries, Seq::empty());
    retry_is_faithful(entries, events);
    retry_is_faithful(entries, events.push(event));
    match (step, event) {
        (RetryStepView::Check(run), RetryEvent::Existing(path)) => {
            checked_is_faithful(entries, run, path);
        },
        (RetryStepView::Pause(run), RetryEvent::Resumed) => {
            settled_is_faithful(entries, run);
        },
        _ => {},
    }
}

/// A record is tried again exactly where its status begins with `download_failed` or with
/// `error:`.
pub proof fn tried_again_by_first_letters(record: RecordView)
    ensures
        is_actionable(record) <==> "download_failed"@.is_prefix_of(record.status)
            || "error:"@.is_prefix_of(record.status),
{
}

/// The records worth another try are counted one by one.
pub proof fn failures_are_counted(entries: Seq<RecordView>, upto: nat)
    ensures
        actionable_count(entries, 0) == 0,
        "download_failed"@.is_prefix_of(entries[upto as int].status) || "error:"@.is_prefix_of(
            entries[upto as int].status,
        ) ==> actionable_count(entries, upto + 1) == actionable_count(entries, upto) + 1,
        !"download_failed"@.is_prefix_of(entries[upto as int].status) && !"error:"@.is_prefix_of(
            entries[upto as int].status,
        ) ==> actionable_count(entries, upto + 1) == actionable_count(entries, upto),
{
}

/// A run moves on to the nearest record whose status begins with `download_failed` or with
/// `error:`, over none of them, and is over where there is none. Moving on changes no record
/// and no count.
pub proof fn run_moves_to_next_failure(run: RetryView)
    ensures
        ({
            let step = settled(run);
            let now = run_at(step);
            &&& now == (RetryView { next: now.next, ..run })
            &&& now.next >= run.next
            &&& forall|i: int|
                run.next <= i < now.next ==> {
                    &&& !"download_failed"@.is_prefix_of((#[trigger] run.entries[i]).status)
                    &&& !"error:"@.is_prefix_of(run.entries[i].status)
                }
            &&& now.next < run.entries.len() ==> {
                &&& step is Check
                &&& "download_failed"@.is_prefix_of(run.entries[now.next as int].status)
                    || "error:"@.is_prefix_of(run.entries[now.next as int].status)
            }
            &&& now.next >= run.entries.len() ==> step is Done
        }),
{
    next_is_nearest(run.entries, run.next);
}

proof fn next_is_nearest(entries: Seq<RecordView>, from: nat)
    ensures
        next_actionable(entries, from) >= from,
        next_actionable(entries, from) < entries.len() ==> is_actionable(
            entries[next_actionable(entries, from) as int],
        ),
        forall|i: int|
            from <= i < next_actionable(entries, from) ==> !is_actionable(#[trigger] entries[i]),
    decreases entries.len() - from,
{
    if from < entries.len() && !is_actionable(entries[from as int]) {
        next_is_nearest(entries, from + 1);
    }
}

/// A run begins with the records as they are, none of them improved.
pub proof fn run_begins_at_first_failure(entries: Seq<RecordView>)
    ensures
        ({
            let step = retry_start(entries);
            let now = run_at(step);
            &&& now.entries == entries
            &&& now.improved == 0
            &&& now.total == actionable_count(entries, entries.len())
            &&& forall|i: int|
                0 <= i < now.next ==> {
                    &&& !"download_failed"@.is_prefix_of((#[trigger] entries[i]).status)
                    &&& !"error:"@.is_prefix_of(entries[i].status)
                }
            &&& now.next < entries.len() <==> step is Check
            &&& now.next >= entries.len() <==> step is Done
            &&& now.next < entries.len() ==> "download_failed"@.is_prefix_of(
                entries[now.next as int].status,
            ) || "error:"@.is_prefix_of(entries[now.next as int].status)
        }),
{
    let total = actionable_count(entries, entries.len());
    run_moves_to_next_failure(RetryView { entries, next: 0, improved: 0, total });
}

/// A photo that is on disk already settles the record at hand: it becomes `found`, with the
/// path, and counts; its other fields stay, and so does every other record. The run moves on
/// without a pause to the nearest record that is to be tried again.
pub proof fn photo_on_disk_settles_record(run: RetryView, path: Seq<char>)
    requires
        run.next < run.entries.len(),
    ensures
        ({
            let at = run.next as int;
            let step = after_check(run, Some(path));
            let now = run_at(step);
            &&& step is Check || step is Done
            &&& now.entries.len() == run.entries.len()
            &&& forall|i: int|
                0 <= i < run.entries.len() && i != at ==> #[trigger] now.entries[i]
                    == run.entries[i]
            &&& now.entries[at].status == "found"@
            &&& now.entries[at].saved_path == Some(path)
            &&& now.entries[at].team == run.entries[at].team
            &&& now.entries[at].player == run.entries[at].player
            &&& now.entries[at].wikipedia_title == run.entries[at].wikipedia_title
            &&& now.entries[at].image_url == run.entries[at].image_url
            &&& now.improved == run.improved + 1
            &&& now.total == run.total
            &&& now.next > at
            &&& step is Check <==> now.next < run.entries.len()
            &&& forall|i: int|
                at < i < now.next ==> {
                    &&& !"download_failed"@.is_prefix_of((#[trigger] now.entries[i]).status)
                    &&& !"error:"@.is_prefix_of(now.entries[i].status)
                }
        }),
{
    run_moves_to_next_failure(
        with_entry(run, as_found(run.entries[run.next as int], path)),
    );
}

/// Where no photo is on disk, the status of the record at hand decides: one that begins with
/// `download_failed` is downloaded again where its URL is known, and else passed over as it
/// is; any other is looked up again.
pub proof fn missing_photo_is_tried_by_status(run: RetryView)
    ensures
        ({
            let entry = run.entries[run.next as int];
            let failed = "download_failed"@.is_prefix_of(entry.status);
            let step = after_check(run, None);
            &&& !failed ==> step == RetryStepView::Lookup(run)
            &&& failed && entry.image_url is Some ==> step == RetryStepView::Download(run)
            &&& failed && entry.image_url is None ==> {
                &&& step is Check || step is Done
                &&& run_at(step).entries == run.entries
                &&& run_at(step).improved == run.improved
                &&& run_at(step).total == run.total
                &&& run_at(step).next > run.next
                &&& step is Check <==> run_at(step).next < run.entries.len()
                &&& forall|i: int|
                    run.next < i < run_at(step).next ==> {
                        &&& !"download_failed"@.is_prefix_of((#[trigger] run.entries[i]).status)
                        &&& !"error:"@.is_prefix_of(run.entries[i].status)
                    }
            }
        }),
{
    run_moves_to_next_failure(RetryView { next: run.next + 1, ..run });
}

/// After a repeated lookup that ended with a record, the status, the URL and the path of the
/// player's entry are those of that record, whatever they are, and so is the page title where
/// the record has one. The entry stays about its player, counts as improved exactly where the
/// record says `found`, and every other entry stays as it was.
pub proof fn repeated_lookup_replaces_entry(run: RetryView, r: RecordView)
    requires
        run.next < run.entries.len(),
    ensures
        after_retried_lookup(run, Ok(r)) matches RetryStepView::Pause(now) && {
            let at = run.next as int;
            &&& now.entries.len() == run.entries.len()
            &&& forall|i: int|
                0 <= i < run.entries.len() && i != at ==> #[trigger] now.entries[i]
                    == run.entries[i]
            &&& now.entries[at].status == r.status
            &&& now.entries[at].image_url == r.image_url
            &&& now.entries[at].saved_path == r.saved_path
            &&& r.wikipedia_title is Some ==> now.entries[at].wikipedia_title
                == r.wikipedia_title
            &&& r.wikipedia_title is None ==> now.entries[at].wikipedia_title
                == run.entries[at].wikipedia_title
            &&& now.entries[at].team == run.entries[at].team
            &&& now.entries[at].player == run.entries[at].player
            &&& r.status == "found"@ ==> now.improved == run.improved + 1
            &&& r.status != "found"@ ==> now.improved == run.improved
            &&& now.next == run.next + 1
            &&& now.total == run.total
        },
{
}

/// After a repeated lookup that ended with an error, the status of the player's entry is
/// `error: ` and the message; everything else stays as it was.
pub proof fn repeated_lookup_error_is_entered(run: RetryView, message: Seq<char>)
    requires
        run.next < run.entries.len(),
    ensures
        after_retried_lookup(run, Err(message)) matches RetryStepView::Pause(now) && {
            let at = run.next as int;
            &&& now.entries == run.entries.update(
                at,
                RecordView { status: "error: "@ + message, ..run.entries[at] },
            )
            &&& now.improved == run.improved
            &&& now.next == run.next + 1
            &&& now.total == run.total
        },
{
    failed_is_not_found();
}

/// After a repeated download, the entry says `found` with the path, and counts, or
/// `download_failed: ` and why; everything else stays as it was.
pub proof fn repeated_download_is_entered(run: RetryView, text: Seq<char>)
    requires
        run.next < run.entries.len(),
    ensures
        after_retried_download(run, Ok(text)) matches RetryStepView::Pause(now) && {
            let at = run.next as int;
            &&& now.entries == run.entries.update(
                at,
                RecordView { status: "found"@, saved_path: Some(text), ..run.entries[at] },
            )
            &&& now.improved == run.improved + 1
            &&& now.next == run.next + 1
            &&& now.total == run.total
        },
        after_retried_download(run, Err(text)) matches RetryStepView::Pause(now) && {
            let at = run.next as int;
            &&& now.entries == run.entries.update(
                at,
                RecordView { status: "download_failed: "@ + text, ..run.entries[at] },
            )
            &&& now.improved == run.improved
            &&& now.next == run.next + 1
            &&& now.total == run.total
        },
{
    failed_is_not_found();
}

/// A record's photo is looked for under the extension of its URL first, or as a JPEG where
/// none is known, and then under each other extension of a saved photo.
pub proof fn likeliest_extension_comes_first(entry: RecordView)
    ensures
        entry.image_url matches Some(url) ==> likely_extensions(entry)[0] == extension(
            lowercase(url),
        ),
        entry.image_url is None ==> likely_extensions(entry)[0] == "jpg"@,
        likely_extensions(entry).no_duplicates(),
        likely_extensions(entry).contains("jpg"@),
        likely_extensions(entry).contains("png"@),
        likely_extensions(entry).contains("webp"@),
        likely_extensions(entry).contains("gif"@),
{
    extensions_are_tried_once(
        match entry.image_url {
            Some(url) => extension(lowercase(url)),
            None => "jpg"@,
        },
    );
}

/// A finished run is shown as it is.
pub proof fn report_shows_what_it_holds(report: RetryReport)
    ensures
        report@.entries == records(report.entries@),
        report@.improved == report.improved,
        report@.total == report.total,
        RetryStep::Done(report)@ == RetryStepView::Done(report@),
{
}

} // verus!
