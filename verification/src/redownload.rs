//! Downloading again what failed to download, straight from a report.

use crate::names::{
    extension, guess_extension, lowercase, photo_file, photo_name, photo_name_has_three_parts,
    safe_name, PhotoFile,
};
use crate::report::{is_download_failed, status_is_download_failed, text_of};
use vstd::prelude::*;

verus! {

/// The pause between two downloads, in milliseconds.
pub const REDOWNLOAD_DELAY_MS: u64 = 3_000;

/// What a report says of a player, as far as a second download needs it.
#[derive(Debug)]
pub struct ExistingResult {
    pub team: String,
    pub player: String,
    pub status: String,
    pub image_url: Option<String>,
}

/// What an [`ExistingResult`] holds, as text.
#[verifier::ext_equal]
pub struct ExistingView {
    pub team: Seq<char>,
    pub player: Seq<char>,
    pub status: Seq<char>,
    pub image_url: Option<Seq<char>>,
}

impl View for ExistingResult {
    type V = ExistingView;

    open spec fn view(&self) -> ExistingView {
        ExistingView {
            team: self.team@,
            player: self.player@,
            status: self.status@,
            image_url: text_of(self.image_url),
        }
    }
}

/// The entries of a report, as text.
pub open spec fn existing_views(entries: Seq<ExistingResult>) -> Seq<ExistingView> {
    Seq::new(entries.len(), |i: int| entries[i]@)
}

/// An image to download again, and where to save it.
#[derive(Debug)]
pub struct Redownload {
    pub team: String,
    pub player: String,
    pub url: String,
    pub photo: PhotoFile,
}

/// A [`Redownload`], as text.
#[verifier::ext_equal]
pub struct RedownloadView {
    pub team: Seq<char>,
    pub player: Seq<char>,
    pub url: Seq<char>,
    pub dir: Seq<char>,
    pub file: Seq<char>,
}

impl View for Redownload {
    type V = RedownloadView;

    open spec fn view(&self) -> RedownloadView {
        RedownloadView {
            team: self.team@,
            player: self.player@,
            url: self.url@,
            dir: self.photo.dir@,
            file: self.photo.file@,
        }
    }
}

/// The downloads of a list, as text.
pub open spec fn redownload_views(list: Seq<Redownload>) -> Seq<RedownloadView> {
    Seq::new(list.len(), |i: int| list[i]@)
}

/// Whether an entry's image is to be downloaded again: its download failed, and its URL is
/// known.
pub open spec fn is_due(entry: ExistingView) -> bool {
    is_download_failed(entry.status) && entry.image_url is Some
}

/// The download that an entry calls for.
pub open spec fn redownload_of(entry: ExistingView) -> RedownloadView {
    RedownloadView {
        team: entry.team,
        player: entry.player,
        url: entry.image_url->0,
        dir: safe_name(entry.team),
        file: photo_name(entry.player, extension(lowercase(entry.image_url->0))),
    }
}

/// What to download again, in the order of the report.
pub open spec fn due_downloads(entries: Seq<ExistingView>) -> Seq<RedownloadView> {
    entries.filter(|entry: ExistingView| is_due(entry)).map_values(
        |entry: ExistingView| redownload_of(entry),
    )
}

/// Lists what to download again, in the order of the report.
pub fn list_due(entries: Vec<ExistingResult>) -> (out: Vec<Redownload>)
    ensures
        redownload_views(out@) == due_downloads(existing_views(entries@)),
{
    let ghost all = existing_views(entries@);
    let ghost due = |entry: ExistingView| is_due(entry);
    let ghost task = |entry: ExistingView| redownload_of(entry);
    let mut out: Vec<Redownload> = Vec::new();
    proof {
        reveal(Seq::filter);
        assert(redownload_views(out@) =~= all.take(0).filter(due).map_values(task));
    }
    for entry in it: entries
        invariant
            it.seq() == entries@,
            all == existing_views(entries@),
            due == (|entry: ExistingView| is_due(entry)),
            task == (|entry: ExistingView| redownload_of(entry)),
            redownload_views(out@) == all.take(it.index() as int).filter(due).map_values(task),
    {
        let ghost at = it.index() as int;
        let ghost before = all.take(at).filter(due);
        let ghost seen = entry@;
        proof {
            reveal(Seq::filter);
            assert(all.take(at + 1).drop_last() =~= all.take(at));
            assert(all.take(at + 1).last() == entry@);
        }
        if status_is_download_failed(&entry.status) {
            match entry.image_url {
                Some(url) => {
                    let photo = photo_file(&entry.team, &entry.player, guess_extension(&url));
                    let next = Redownload { team: entry.team, player: entry.player, url, photo };
                    assert(next@ == redownload_of(seen));
                    let ghost listed = redownload_views(out@);
                    out.push(next);
                    assert(redownload_views(out@) =~= listed.push(next@));
                    assert(before.push(seen).map_values(task) =~= listed.push(task(seen)));
                },
                None => {},
            }
        }
    }
    assert(all.take(all.len() as int) =~= all);
    out
}

/// Where a run stands: at a download of the list, at rest before the next one with a line to
/// show, or at its end. It changes no report.
pub enum RedownloadStepView {
    Download { list: Seq<RedownloadView>, next: nat },
    Pause { list: Seq<RedownloadView>, next: nat, line: Seq<char> },
    Done,
}

/// The run at the given download of the list, or over where there is none.
pub open spec fn at_download(list: Seq<RedownloadView>, next: nat) -> RedownloadStepView {
    if next < list.len() {
        RedownloadStepView::Download { list, next }
    } else {
        RedownloadStepView::Done
    }
}

/// The line that tells how a download went.
pub open spec fn outcome_line(outcome: Result<(), Seq<char>>) -> Seq<char> {
    match outcome {
        Ok(()) => "  OK"@,
        Err(e) => "  FAILED: "@ + e,
    }
}

/// The outcome of a download, with its error as text.
pub open spec fn saved_or_error(outcome: Result<(), String>) -> Result<(), Seq<char>> {
    match outcome {
        Ok(()) => Ok(()),
        Err(e) => Err(e@),
    }
}

/// Where a run stands once a download of the list ended, well or not.
pub open spec fn after_redownload(
    list: Seq<RedownloadView>,
    next: nat,
    outcome: Result<(), Seq<char>>,
) -> RedownloadStepView {
    RedownloadStepView::Pause { list, next: next + 1, line: outcome_line(outcome) }
}

/// A run that waits for an image to be downloaded again.
#[derive(Debug)]
pub struct RedownloadTask {
    list: Vec<Redownload>,
    next: usize,
}

/// A run that rests after a download.
#[derive(Debug)]
pub struct RedownloadPause {
    list: Vec<Redownload>,
    next: usize,
    line: String,
}

/// Where a run stands.
#[derive(Debug)]
pub enum RedownloadStep {
    /// Download the image again.
    Download(RedownloadTask),
    /// Show how the download went, and wait before going on.
    Pause(RedownloadPause),
    /// The run is over.
    Done,
}

impl View for RedownloadTask {
    type V = (Seq<RedownloadView>, nat);

    closed spec fn view(&self) -> (Seq<RedownloadView>, nat) {
        (redownload_views(self.list@), self.next as nat)
    }
}

impl View for RedownloadPause {
    type V = (Seq<RedownloadView>, nat, Seq<char>);

    closed spec fn view(&self) -> (Seq<RedownloadView>, nat, Seq<char>) {
        (redownload_views(self.list@), self.next as nat, self.line@)
    }
}

impl View for RedownloadStep {
    type V = RedownloadStepView;

    open spec fn view(&self) -> RedownloadStepView {
        match self {
            RedownloadStep::Download(s) => RedownloadStepView::Download { list: s@.0, next: s@.1 },
            RedownloadStep::Pause(s) => RedownloadStepView::Pause {
                list: s@.0,
                next: s@.1,
                line: s@.2,
            },
            RedownloadStep::Done => RedownloadStepView::Done,
        }
    }
}

fn to_download(list: Vec<Redownload>, next: usize) -> (step: RedownloadStep)
    ensures
        step@ == at_download(redownload_views(list@), next as nat),
{
    if next < list.len() {
        RedownloadStep::Download(RedownloadTask { list, next })
    } else {
        RedownloadStep::Done
    }
}

/// Begins a run over the images of a report that failed to download.
pub fn redownload_failed_images(entries: Vec<ExistingResult>) -> (step: RedownloadStep)
    ensures
        step@ == at_download(due_downloads(existing_views(entries@)), 0),
{
    to_download(list_due(entries), 0)
}

impl RedownloadTask {
    #[verifier::type_invariant]
    spec fn valid(self) -> bool {
        self.next < self.list.len()
    }

    /// The download at hand.
    pub fn task(&self) -> (out: &Redownload)
        ensures
            out@ == self@.0[self@.1 as int],
    {
        proof {
            use_type_invariant(self);
        }
        &self.list[self.next]
    }

    /// The line that announces the download.
    pub fn line(&self) -> (out: String)
        ensures
            out@ == "Retrying "@ + self@.0[self@.1 as int].player + " ("@
                + self@.0[self@.1 as int].team + ")"@,
    {
        let task = self.task();
        let mut out = "Retrying ".to_owned();
        out.append(&task.player);
        out.append(" (");
        out.append(&task.team);
        out.append(")");
        out
    }

    /// Takes the outcome of the download.
    pub fn on_outcome(self, outcome: Result<(), String>) -> (step: RedownloadStep)
        ensures
            step@ == after_redownload(self@.0, self@.1, saved_or_error(outcome)),
    {
        proof {
            use_type_invariant(&self);
        }
        let line = match outcome {
            Ok(()) => "  OK".to_owned(),
            Err(e) => {
                let mut line = "  FAILED: ".to_owned();
                line.append(&e);
                line
            },
        };
        RedownloadStep::Pause(RedownloadPause { list: self.list, next: self.next + 1, line })
    }
}

impl RedownloadPause {
    /// The line that tells how the download went.
    pub fn line(&self) -> (out: &String)
        ensures
            out@ == self@.2,
    {
        &self.line
    }

    /// How long to wait.
    pub fn millis(&self) -> (out: u64)
        ensures
            out == REDOWNLOAD_DELAY_MS,
            out == 3_000,
    {
        REDOWNLOAD_DELAY_MS
    }

    /// Goes on after the wait.
    pub fn resume(self) -> (step: RedownloadStep)
        ensures
            step@ == at_download(self@.0, self@.1),
    {
        to_download(self.list, self.next)
    }
}

/// The run behind the pause that it rests at.
pub open spec fn resumed(step: RedownloadStepView) -> RedownloadStepView {
    match step {
        RedownloadStepView::Pause { list, next, .. } => at_download(list, next),
        other => other,
    }
}

/// Where a run over a list stands, behind the pause, after downloads with the given outcomes.
pub open spec fn redownload_after(
    list: Seq<RedownloadView>,
    outcomes: Seq<Result<(), Seq<char>>>,
) -> RedownloadStepView
    decreases outcomes.len(),
{
    if outcomes.len() == 0 {
        at_download(list, 0)
    } else {
        match redownload_after(list, outcomes.drop_last()) {
            RedownloadStepView::Download { list, next } => resumed(
                after_redownload(list, next, outcomes.last()),
            ),
            other => other,
        }
    }
}

/// Every image on the list is tried once, in order, whatever became of those before it; after
/// the last one the run is over.
pub proof fn every_image_is_tried(
    list: Seq<RedownloadView>,
    outcomes: Seq<Result<(), Seq<char>>>,
)
    requires
        outcomes.len() <= list.len(),
    ensures
        redownload_after(list, outcomes) == at_download(list, outcomes.len()),
    decreases outcomes.len(),
{
    if outcomes.len() > 0 {
        every_image_is_tried(list, outcomes.drop_last());
    }
}

/// An entry whose status begins with `download_failed` and whose URL is known is downloaded
/// again from that URL, into the directory of its team, under the player's safe name and the
/// extension of the URL; any other entry is left out. The order of the report stays.
pub proof fn failed_downloads_are_due(entries: Seq<ExistingView>, entry: ExistingView)
    ensures
        due_downloads(Seq::empty()).len() == 0,
        "download_failed"@.is_prefix_of(entry.status) && entry.image_url is Some
            ==> due_downloads(entries.push(entry)) == due_downloads(entries).push(
            RedownloadView {
                team: entry.team,
                player: entry.player,
                url: entry.image_url->0,
                dir: safe_name(entry.team),
                file: safe_name(entry.player) + seq!['.'] + extension(
                    lowercase(entry.image_url->0),
                ),
            },
        ),
        !"download_failed"@.is_prefix_of(entry.status) || entry.image_url is None
            ==> due_downloads(entries.push(entry)) == due_downloads(entries),
{
    let due = |entry: ExistingView| is_due(entry);
    let task = |entry: ExistingView| redownload_of(entry);
    reveal(Seq::filter);
    assert(entries.push(entry).drop_last() =~= entries);
    if is_due(entry) {
        photo_name_has_three_parts(entry.player, extension(lowercase(entry.image_url->0)));
        assert(entries.filter(due).push(entry).map_values(task) =~= entries.filter(due).map_values(
            task,
        ).push(task(entry)));
    }
}

/// After each download comes a pause with a line that says `OK`, or `FAILED` and why; then
/// comes the next download of the list, and behind the last the run is over.
pub proof fn downloads_come_in_turn(list: Seq<RedownloadView>, next: nat, message: Seq<char>)
    ensures
        after_redownload(list, next, Ok(())) == (RedownloadStepView::Pause {
            list,
            next: next + 1,
            line: "  OK"@,
        }),
        after_redownload(list, next, Err(message)) == (RedownloadStepView::Pause {
            list,
            next: next + 1,
            line: "  FAILED: "@ + message,
        }),
        next < list.len() ==> at_download(list, next) == (RedownloadStepView::Download {
            list,
            next,
        }),
        next >= list.len() ==> at_download(list, next) == RedownloadStepView::Done,
{
}

/// Entries, downloads and outcomes are shown as they are, in order.
pub proof fn redownloads_show_what_they_hold(
    entries: Seq<ExistingResult>,
    list: Seq<Redownload>,
    i: int,
    message: String,
)
    ensures
        existing_views(entries).len() == entries.len(),
        0 <= i < entries.len() ==> {
            &&& existing_views(entries)[i].team == entries[i].team@
            &&& existing_views(entries)[i].player == entries[i].player@
            &&& existing_views(entries)[i].status == entries[i].status@
            &&& existing_views(entries)[i].image_url == text_of(entries[i].image_url)
        },
        redownload_views(list).len() == list.len(),
        0 <= i < list.len() ==> {
            &&& redownload_views(list)[i].team == list[i].team@
            &&& redownload_views(list)[i].player == list[i].player@
            &&& redownload_views(list)[i].url == list[i].url@
            &&& redownload_views(list)[i].dir == list[i].photo.dir@
            &&& redownload_views(list)[i].file == list[i].photo.file@
        },
        saved_or_error(Ok(())) == Ok::<(), Seq<char>>(()),
        saved_or_error(Err(message)) == Err::<(), Seq<char>>(message@),
{
}

} // verus!
