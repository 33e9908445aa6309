use photo_scraper::download::{failure_message, Download, DownloadStep};

/// The waits before each further request, and how the download ended.
fn play(answers: &[(u16, Option<&str>)]) -> (Vec<u128>, Option<Result<(), String>>) {
    let mut download = Download::start();
    let mut waits = Vec::new();
    for (status, retry_after) in answers {
        match download.on_response(*status, *retry_after) {
            DownloadStep::Save => return (waits, Some(Ok(()))),
            DownloadStep::Retry { next, wait_ms } => {
                waits.push(wait_ms);
                download = next;
            }
            DownloadStep::GiveUp { message } => return (waits, Some(Err(message))),
        }
    }
    (waits, None)
}

#[test]
fn an_image_is_saved() {
    for status in [200, 204, 299] {
        assert_eq!(play(&[(status, None)]), (vec![], Some(Ok(()))));
    }
}

#[test]
fn other_answers_are_final() {
    let (waits, end) = play(&[(404, Some("7"))]);
    assert!(waits.is_empty());
    assert_eq!(end, Some(Err("HTTP status 404 Not Found (after retries)".to_string())));
    let (_, end) = play(&[(302, None)]);
    assert_eq!(end, Some(Err("HTTP status 302 Found (after retries)".to_string())));
    let (_, end) = play(&[(999, None)]);
    assert_eq!(
        end,
        Some(Err("HTTP status 999 <unknown status code> (after retries)".to_string())),
    );
}

#[test]
fn the_ladder_is_climbed() {
    let (waits, end) = play(&[(503, None); 6]);
    assert_eq!(waits, vec![30_000, 60_000, 120_000, 300_000, 600_000]);
    assert_eq!(
        end,
        Some(Err("HTTP status 503 Service Unavailable (after retries)".to_string())),
    );
    assert_eq!(play(&[(503, None); 5]).1, None);
}

#[test]
fn the_server_may_ask_for_a_wait() {
    assert_eq!(play(&[(429, Some("10")), (200, None)]), (vec![10_000], Some(Ok(()))));
    let (waits, end) = play(&[
        (429, Some("7")), (429, Some("soon")), (500, Some("9")), (429, Some("0")), (200, None),
    ]);
    assert_eq!(waits, vec![7_000, 60_000, 120_000, 0]);
    assert_eq!(end, Some(Ok(())));
    let (waits, _) =
        play(&[(429, Some("18446744073709551615")), (429, Some("18446744073709551616"))]);
    assert_eq!(waits, vec![18446744073709551615000, 60_000]);
}

#[test]
fn no_wait_follows_the_last_answer() {
    let (waits, end) = play(&[(429, Some("1")); 6]);
    assert_eq!(waits, vec![1_000; 5]);
    assert_eq!(
        end,
        Some(Err("HTTP status 429 Too Many Requests (after retries)".to_string())),
    );
}

#[test]
fn the_first_final_answer_decides() {
    let (waits, end) = play(&[(500, None), (429, None), (403, None), (200, None)]);
    assert_eq!(waits.len(), 2);
    assert_eq!(end, Some(Err("HTTP status 403 Forbidden (after retries)".to_string())));
}

#[test]
fn failures_name_the_status() {
    assert_eq!(failure_message("418 I'm a teapot"), "HTTP status 418 I'm a teapot (after retries)");
}
