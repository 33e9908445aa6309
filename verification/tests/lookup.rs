use photo_scraper::lookup::{
    download_failed_status, error_status, ImageRequest, LookupStep, PageSearch, PhotoRequest,
};
use photo_scraper::report::PlayerResult;

fn start() -> PageSearch {
    PageSearch::start("New Zealand", "Ardie Savea")
}

fn image() -> ImageRequest {
    match start().on_answer(Ok(Some("Ardie Savea".to_string()))) {
        LookupStep::Image(step) => step,
        other => panic!("{:?}", other),
    }
}

fn photo(url: &str) -> PhotoRequest {
    match image().on_answer(Ok(Some(url.to_string()))) {
        LookupStep::Download(step) => step,
        other => panic!("{:?}", other),
    }
}

fn done(step: LookupStep) -> Result<PlayerResult, String> {
    match step {
        LookupStep::Done(result) => result,
        other => panic!("{:?}", other),
    }
}

#[test]
fn the_sport_is_searched_for() {
    assert_eq!(start().query(), "Ardie Savea rugby union player");
}

#[test]
fn a_player_may_have_no_page() {
    let record = done(start().on_answer(Ok(None))).unwrap();
    assert_eq!(record.team, "New Zealand");
    assert_eq!(record.player, "Ardie Savea");
    assert_eq!(record.status, "no_wiki_page");
    assert_eq!(record.wikipedia_title, None);
}

#[test]
fn a_page_may_have_no_image() {
    assert_eq!(image().title, "Ardie Savea");
    let record = done(image().on_answer(Ok(None))).unwrap();
    assert_eq!(record.status, "no_image");
    assert_eq!(record.wikipedia_title.as_deref(), Some("Ardie Savea"));
    assert_eq!(record.image_url, None);
}

#[test]
fn errors_end_a_lookup() {
    assert_eq!(done(start().on_answer(Err("timeout".to_string()))).unwrap_err(), "timeout");
    assert_eq!(done(image().on_answer(Err("no json".to_string()))).unwrap_err(), "no json");
}

#[test]
fn an_image_is_saved_under_its_name() {
    let step = photo("https://x.org/a.PNG");
    assert_eq!(step.photo().dir, "New_Zealand");
    assert_eq!(step.photo().file, "Ardie_Savea.png");
    let record = step.on_outcome(Ok("photos/x.png".to_string()));
    assert_eq!(record.status, "found");
    assert_eq!(record.image_url.as_deref(), Some("https://x.org/a.PNG"));
    assert_eq!(record.saved_path.as_deref(), Some("photos/x.png"));
}

#[test]
fn a_failed_download_is_recorded() {
    let record = photo("u").on_outcome(Err("HTTP".to_string()));
    assert_eq!(record.status, "download_failed: HTTP");
    assert_eq!(record.image_url.as_deref(), Some("u"));
    assert_eq!(record.wikipedia_title.as_deref(), Some("Ardie Savea"));
    assert_eq!(record.saved_path, None);
}

#[test]
fn failures_have_their_status() {
    assert_eq!(download_failed_status("x"), "download_failed: x");
    assert_eq!(error_status("x"), "error: x");
}
