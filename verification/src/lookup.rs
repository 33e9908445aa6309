//! Looking up one player: find the page, find its image, download the image.

use crate::names::{
    extension, guess_extension, lowercase, photo_file, photo_name, safe_name, PhotoFile,
};
use crate::report::{
    found, is_download_failed, is_lookup_error, text_of, PlayerResult, RecordView,
};
use vstd::prelude::*;

verus! {

/// An answer that is a text, nothing, or an error message.
pub open spec fn answer_text(answer: Result<Option<String>, String>) -> Result<
    Option<Seq<char>>,
    Seq<char>,
> {
    match answer {
        Ok(text) => Ok(text_of(text)),
        Err(e) => Err(e@),
    }
}

/// An answer that is a text or an error message.
pub open spec fn outcome_text(outcome: Result<String, String>) -> Result<Seq<char>, Seq<char>> {
    match outcome {
        Ok(text) => Ok(text@),
        Err(e) => Err(e@),
    }
}

/// A lookup's record, or the message of the error that ended it.
pub open spec fn lookup_text(result: Result<PlayerResult, String>) -> Result<
    RecordView,
    Seq<char>,
> {
    match result {
        Ok(record) => Ok(record@),
        Err(e) => Err(e@),
    }
}

/// A lookup that waits for the title of the player's page.
#[derive(Debug)]
pub struct PageSearch {
    pub team: String,
    pub player: String,
}

/// A lookup that waits for the main image of the player's page.
#[derive(Debug)]
pub struct ImageRequest {
    pub team: String,
    pub player: String,
    pub title: String,
}

/// A lookup that waits for the image to be saved.
#[derive(Debug)]
pub struct PhotoRequest {
    pub team: String,
    pub player: String,
    pub title: String,
    pub url: String,
}

/// Where a lookup stands.
#[derive(Debug)]
pub enum LookupStep {
    /// Search for the player's page.
    Search(PageSearch),
    /// Ask for the page's main image.
    Image(ImageRequest),
    /// Download the image.
    Download(PhotoRequest),
    /// The lookup is over, with a record or with an error.
    Done(Result<PlayerResult, String>),
}

/// A [`LookupStep`], as text.
pub enum LookupView {
    Search { team: Seq<char>, player: Seq<char> },
    Image { team: Seq<char>, player: Seq<char>, title: Seq<char> },
    Download { team: Seq<char>, player: Seq<char>, title: Seq<char>, url: Seq<char> },
    Done(Result<RecordView, Seq<char>>),
}

impl View for LookupStep {
    type V = LookupView;

    open spec fn view(&self) -> LookupView {
        match self {
            LookupStep::Search(s) => LookupView::Search { team: s.team@, player: s.player@ },
            LookupStep::Image(s) => LookupView::Image {
                team: s.team@,
                player: s.player@,
                title: s.title@,
            },
            LookupStep::Download(s) => LookupView::Download {
                team: s.team@,
                player: s.player@,
                title: s.title@,
                url: s.url@,
            },
            LookupStep::Done(result) => LookupView::Done(lookup_text(*result)),
        }
    }
}

/// The record of a lookup that ended with the given status.
pub open spec fn record(
    team: Seq<char>,
    player: Seq<char>,
    status: Seq<char>,
    wikipedia_title: Option<Seq<char>>,
    image_url: Option<Seq<char>>,
    saved_path: Option<Seq<char>>,
) -> RecordView {
    RecordView { team, player, status, wikipedia_title, image_url, saved_path }
}

/// Where a lookup stands once the search is answered.
pub open spec fn after_search(
    team: Seq<char>,
    player: Seq<char>,
    answer: Result<Option<Seq<char>>, Seq<char>>,
) -> LookupView {
    match answer {
        Ok(Some(title)) => LookupView::Image { team, player, title },
        Ok(None) => LookupView::Done(
            Ok(record(team, player, "no_wiki_page"@, None, None, None)),
        ),
        Err(e) => LookupView::Done(Err(e)),
    }
}

/// Where a lookup stands once the request for the page's image is answered.
pub open spec fn after_image(
    team: Seq<char>,
    player: Seq<char>,
    title: Seq<char>,
    answer: Result<Option<Seq<char>>, Seq<char>>,
) -> LookupView {
    match answer {
        Ok(Some(url)) => LookupView::Download { team, player, title, url },
        Ok(None) => LookupView::Done(
            Ok(record(team, player, "no_image"@, Some(title), None, None)),
        ),
        Err(e) => LookupView::Done(Err(e)),
    }
}

/// The record of a lookup whose download ended: saved under a path, or failed.
pub open spec fn after_download(
    team: Seq<char>,
    player: Seq<char>,
    title: Seq<char>,
    url: Seq<char>,
    outcome: Result<Seq<char>, Seq<char>>,
) -> RecordView {
    match outcome {
        Ok(path) => record(team, player, found(), Some(title), Some(url), Some(path)),
        Err(e) => record(
            team,
            player,
            "download_failed: "@ + e,
            Some(title),
            Some(url),
            None,
        ),
    }
}

/// What a player's page is searched by.
pub open spec fn page_query(player: Seq<char>) -> Seq<char> {
    player + " rugby union player"@
}

impl PageSearch {
    /// Begins the lookup of a player of a team.
    pub fn start(team: &str, player: &str) -> (out: PageSearch)
        ensures
            out.team@ == team@,
            out.player@ == player@,
    {
        PageSearch { team: team.to_owned(), player: player.to_owned() }
    }

    /// What to search for. Naming the sport tells players from other people of the name.
    pub fn query(&self) -> (out: String)
        ensures
            out@ == page_query(self.player@),
    {
        let mut out = self.player.clone();
        out.append(" rugby union player");
        out
    }

    /// Takes the answer to the search: the title of the best page, if there is one.
    pub fn on_answer(self, answer: Result<Option<String>, String>) -> (step: LookupStep)
        ensures
            step@ == after_search(self.team@, self.player@, answer_text(answer)),
    {
        match answer {
            Ok(Some(title)) => LookupStep::Image(
                ImageRequest { team: self.team, player: self.player, title },
            ),
            Ok(None) => LookupStep::Done(
                Ok(
                    PlayerResult {
                        team: self.team,
                        player: self.player,
                        status: "no_wiki_page".to_owned(),
                        wikipedia_title: None,
                        image_url: None,
                        saved_path: None,
                    },
                ),
            ),
            Err(e) => LookupStep::Done(Err(e)),
        }
    }
}

impl ImageRequest {
    /// Takes the answer to the request: the URL of the page's image, if it has one.
    pub fn on_answer(self, answer: Result<Option<String>, String>) -> (step: LookupStep)
        ensures
            step@ == after_image(self.team@, self.player@, self.title@, answer_text(answer)),
    {
        match answer {
            Ok(Some(url)) => LookupStep::Download(
                PhotoRequest { team: self.team, player: self.player, title: self.title, url },
            ),
            Ok(None) => LookupStep::Done(
                Ok(
                    PlayerResult {
                        team: self.team,
                        player: self.player,
                        status: "no_image".to_owned(),
                        wikipedia_title: Some(self.title),
                        image_url: None,
                        saved_path: None,
                    },
                ),
            ),
            Err(e) => LookupStep::Done(Err(e)),
        }
    }
}

/// The status of a record whose download failed with the given message.
pub fn download_failed_status(message: &str) -> (out: String)
    ensures
        out@ == "download_failed: "@ + message@,
{
    let mut out = "download_failed: ".to_owned();
    out.append(message);
    out
}

/// The status of a record whose lookup failed with the given message.
pub fn error_status(message: &str) -> (out: String)
    ensures
        out@ == "error: "@ + message@,
{
    let mut out = "error: ".to_owned();
    out.append(message);
    out
}

impl PhotoRequest {
    /// Where to save the image.
    pub fn photo(&self) -> (out: PhotoFile)
        ensures
            out.dir@ == safe_name(self.team@),
            out.file@ == photo_name(self.player@, extension(lowercase(self.url@))),
    {
        photo_file(&self.team, &self.player, guess_extension(&self.url))
    }

    /// Takes the outcome of the download: the path of the saved image, or why there is none.
    pub fn on_outcome(self, outcome: Result<String, String>) -> (out: PlayerResult)
        ensures
            out@ == after_download(
                self.team@,
                self.player@,
                self.title@,
                self.url@,
                outcome_text(outcome),
            ),
    {
        let (status, saved_path) = match outcome {
            Ok(path) => ("found".to_owned(), Some(path)),
            Err(e) => (download_failed_status(&e), None),
        };
        PlayerResult {
            team: self.team,
            player: self.player,
            status,
            wikipedia_title: Some(self.title),
            image_url: Some(self.url),
            saved_path,
        }
    }
}

/// The step behind a search, where that is where the lookup stands.
pub open spec fn with_search(
    step: LookupView,
    answer: Result<Option<Seq<char>>, Seq<char>>,
) -> LookupView {
    match step {
        LookupView::Search { team, player } => after_search(team, player, answer),
        other => other,
    }
}

/// The step behind an image request, where that is where the lookup stands.
pub open spec fn with_image(
    step: LookupView,
    answer: Result<Option<Seq<char>>, Seq<char>>,
) -> LookupView {
    match step {
        LookupView::Image { team, player, title } => after_image(team, player, title, answer),
        other => other,
    }
}

/// The step behind a download, where that is where the lookup stands.
pub open spec fn with_download(
    step: LookupView,
    outcome: Result<Seq<char>, Seq<char>>,
) -> LookupView {
    match step {
        LookupView::Download { team, player, title, url } => LookupView::Done(
            Ok(after_download(team, player, title, url, outcome)),
        ),
        other => other,
    }
}

/// Where the lookup of a player ends, given what each request in turn would be answered.
pub open spec fn lookup_ending(
    team: Seq<char>,
    player: Seq<char>,
    search: Result<Option<Seq<char>>, Seq<char>>,
    image: Result<Option<Seq<char>>, Seq<char>>,
    download: Result<Seq<char>, Seq<char>>,
) -> LookupView {
    with_download(
        with_image(with_search(LookupView::Search { team, player }, search), image),
        download,
    )
}

/// A lookup is over after one answer each, and it is the first request without a result that
/// decides: an error of the search or the image request is the lookup's error; else there is
/// a record of the player, with the page and the image that were found, and with a path
/// exactly where its status is `found`.
pub proof fn lookup_ends(
    team: Seq<char>,
    player: Seq<char>,
    search: Result<Option<Seq<char>>, Seq<char>>,
    image: Result<Option<Seq<char>>, Seq<char>>,
    download: Result<Seq<char>, Seq<char>>,
)
    ensures
        lookup_ending(team, player, search, image, download) matches LookupView::Done(result)
            && match result {
            Err(e) => search == Err::<Option<Seq<char>>, Seq<char>>(e) || (search matches Ok(
                Some(_),
            ) && image == Err::<Option<Seq<char>>, Seq<char>>(e)),
            Ok(r) => {
                &&& r.team == team
                &&& r.player == player
                &&& search == Ok::<Option<Seq<char>>, Seq<char>>(r.wikipedia_title)
                &&& r.wikipedia_title is Some ==> image == Ok::<Option<Seq<char>>, Seq<char>>(
                    r.image_url,
                )
                &&& r.wikipedia_title is None ==> r.image_url is None
                &&& r.image_url is None ==> r.saved_path is None
                &&& r.image_url is Some ==> (r.saved_path is Some <==> download is Ok)
                &&& r.saved_path matches Some(path) ==> download == Ok::<Seq<char>, Seq<char>>(
                    path,
                )
                &&& r.saved_path is Some <==> r.status == found()
                &&& is_download_failed(r.status) <==> r.image_url is Some && r.saved_path is None
                &&& !is_lookup_error(r.status)
            },
        },
{
    reveal_strlit("found");
    reveal_strlit("no_wiki_page");
    reveal_strlit("no_image");
    reveal_strlit("download_failed");
    reveal_strlit("download_failed: ");
    reveal_strlit("error:");
    let failed = "download_failed: "@;
    assert("found"@.len() == 5);
    assert("no_wiki_page"@.len() == 12);
    assert("no_image"@.len() == 8);
    assert("download_failed"@.len() == 15);
    assert(failed.len() == 17);
    assert("error:"@.len() == 6);
    if let Err(e) = download {
        assert((failed + e).subrange(0, 15) =~= "download_failed"@);
        assert((failed + e)[0] == 'd');
        assert("error:"@[0] == 'e');
        assert("error:"@ != (failed + e).subrange(0, 6)) by {
            assert((failed + e).subrange(0, 6)[0] == 'd');
        }
    }
    assert("no_wiki_page"@.subrange(0, 6)[0] == 'n');
    assert("no_image"@.subrange(0, 6)[0] == 'n');
}

/// A failure's status is never that of a saved photo, whatever the message.
pub proof fn failed_is_not_found()
    ensures
        forall|e: Seq<char>| #[trigger] ("download_failed: "@ + e) != found(),
        forall|e: Seq<char>| #[trigger] ("error: "@ + e) != found(),
{
    reveal_strlit("found");
    reveal_strlit("download_failed: ");
    reveal_strlit("error: ");
    assert("found"@[0] == 'f');
    assert("download_failed: "@.len() == 17);
    assert("error: "@.len() == 7);
    assert forall|e: Seq<char>| #[trigger] ("download_failed: "@ + e) != found() by {
        assert(("download_failed: "@ + e)[0] == 'd');
    }
    assert forall|e: Seq<char>| #[trigger] ("error: "@ + e) != found() by {
        assert(("error: "@ + e)[0] == 'e');
    }
}

/// What each answer leads to, one step at a time: a title leads to the request for that page's
/// image, a URL to the download of that image, no page and no image to a record that says so,
/// and an error of either request to that error.
pub proof fn answers_lead_on(
    team: Seq<char>,
    player: Seq<char>,
    title: Seq<char>,
    url: Seq<char>,
    message: Seq<char>,
)
    ensures
        after_search(team, player, Ok(Some(title))) == (LookupView::Image { team, player, title }),
        after_search(team, player, Ok(None)) == LookupView::Done(
            Ok(
                RecordView {
                    team,
                    player,
                    status: "no_wiki_page"@,
                    wikipedia_title: None,
                    image_url: None,
                    saved_path: None,
                },
            ),
        ),
        after_search(team, player, Err(message)) == LookupView::Done(Err(message)),
        after_image(team, player, title, Ok(Some(url))) == (LookupView::Download {
            team,
            player,
            title,
            url,
        }),
        after_image(team, player, title, Ok(None)) == LookupView::Done(
            Ok(
                RecordView {
                    team,
                    player,
                    status: "no_image"@,
                    wikipedia_title: Some(title),
                    image_url: None,
                    saved_path: None,
                },
            ),
        ),
        after_image(team, player, title, Err(message)) == LookupView::Done(Err(message)),
{
}

/// What is recorded of a download: the page and the image either way, and the path where it
/// was saved, or else why it was not.
pub proof fn download_is_recorded(
    team: Seq<char>,
    player: Seq<char>,
    title: Seq<char>,
    url: Seq<char>,
    path: Seq<char>,
    message: Seq<char>,
)
    ensures
        after_download(team, player, title, url, Ok(path)) == (RecordView {
            team,
            player,
            status: "found"@,
            wikipedia_title: Some(title),
            image_url: Some(url),
            saved_path: Some(path),
        }),
        after_download(team, player, title, url, Err(message)) == (RecordView {
            team,
            player,
            status: "download_failed: "@ + message,
            wikipedia_title: Some(title),
            image_url: Some(url),
            saved_path: None,
        }),
{
}

/// How a lookup ends, by its answers: no page, whatever the other answers would be; a page
/// without an image; an image that failed to download; or an image that was saved.
pub proof fn lookup_by_answers(
    team: Seq<char>,
    player: Seq<char>,
    title: Seq<char>,
    url: Seq<char>,
    image: Result<Option<Seq<char>>, Seq<char>>,
    download: Result<Seq<char>, Seq<char>>,
    text: Seq<char>,
)
    ensures
        lookup_ending(team, player, Err(text), image, download) == LookupView::Done(Err(text)),
        lookup_ending(team, player, Ok(None), image, download) == LookupView::Done(
            Ok(
                RecordView {
                    team,
                    player,
                    status: "no_wiki_page"@,
                    wikipedia_title: None,
                    image_url: None,
                    saved_path: None,
                },
            ),
        ),
        lookup_ending(team, player, Ok(Some(title)), Err(text), download) == LookupView::Done(
            Err(text),
        ),
        lookup_ending(team, player, Ok(Some(title)), Ok(None), download) == LookupView::Done(
            Ok(
                RecordView {
                    team,
                    player,
                    status: "no_image"@,
                    wikipedia_title: Some(title),
                    image_url: None,
                    saved_path: None,
                },
            ),
        ),
        lookup_ending(team, player, Ok(Some(title)), Ok(Some(url)), Err(text))
            == LookupView::Done(
            Ok(
                RecordView {
                    team,
                    player,
                    status: "download_failed: "@ + text,
                    wikipedia_title: Some(title),
                    image_url: Some(url),
                    saved_path: None,
                },
            ),
        ),
        lookup_ending(team, player, Ok(Some(title)), Ok(Some(url)), Ok(text)) == LookupView::Done(
            Ok(
                RecordView {
                    team,
                    player,
                    status: "found"@,
                    wikipedia_title: Some(title),
                    image_url: Some(url),
                    saved_path: Some(text),
                },
            ),
        ),
{
}

/// A player's page is searched by the player's name and the sport.
pub proof fn page_query_names_the_sport(player: Seq<char>)
    ensures
        page_query(player) == player + " rugby union player"@,
{
}

/// Answers are shown as they are.
pub proof fn answers_show_what_they_hold(text: String, record: PlayerResult)
    ensures
        answer_text(Ok(Some(text))) == Ok::<Option<Seq<char>>, Seq<char>>(Some(text@)),
        answer_text(Ok(None)) == Ok::<Option<Seq<char>>, Seq<char>>(None),
        answer_text(Err(text)) == Err::<Option<Seq<char>>, Seq<char>>(text@),
        outcome_text(Ok(text)) == Ok::<Seq<char>, Seq<char>>(text@),
        outcome_text(Err(text)) == Err::<Seq<char>, Seq<char>>(text@),
        lookup_text(Ok(record)) == Ok::<RecordView, Seq<char>>(record@),
        lookup_text(Err(text)) == Err::<RecordView, Seq<char>>(text@),
{
}

/// A step of a lookup is shown as it is.
pub proof fn lookup_steps_show_what_they_hold(
    search: PageSearch,
    image: ImageRequest,
    photo: PhotoRequest,
    record: PlayerResult,
    message: String,
)
    ensures
        LookupStep::Search(search)@ == (LookupView::Search {
            team: search.team@,
            player: search.player@,
        }),
        LookupStep::Image(image)@ == (LookupView::Image {
            team: image.team@,
            player: image.player@,
            title: image.title@,
        }),
        LookupStep::Download(photo)@ == (LookupView::Download {
            team: photo.team@,
            player: photo.player@,
            title: photo.title@,
            url: photo.url@,
        }),
        LookupStep::Done(Ok(record))@ == LookupView::Done(Ok(record@)),
        LookupStep::Done(Err(message))@ == LookupView::Done(Err(message@)),
{
}

} // verus!
