use photo_scraper::redownload::{
    list_due, redownload_failed_images, ExistingResult, RedownloadStep,
};

fn entry(player: &str, status: &str, url: Option<&str>) -> ExistingResult {
    ExistingResult {
        team: "New Zealand".to_string(),
        player: player.to_string(),
        status: status.to_string(),
        image_url: url.map(str::to_string),
    }
}

#[test]
fn failed_downloads_are_listed() {
    let list = list_due(vec![
        entry("A", "found", Some("a")),
        entry("B B", "download_failed: x", Some("b.webp")),
        entry("C", "download_failed: x", None),
        entry("D", "error: x", Some("d")),
        entry("E", "download_failed", Some("e")),
    ]);
    assert_eq!(list.len(), 2);
    assert_eq!(list[0].team, "New Zealand");
    assert_eq!(list[0].player, "B B");
    assert_eq!(list[0].url, "b.webp");
    assert_eq!(list[0].photo.dir, "New_Zealand");
    assert_eq!(list[0].photo.file, "B_B.webp");
    assert_eq!(list[1].photo.file, "E.jpg");
    assert!(list_due(Vec::new()).is_empty());
}

#[test]
fn a_run_tries_every_image() {
    let mut step = redownload_failed_images(vec![
        entry("A", "download_failed: x", Some("a")),
        entry("B", "found", Some("b")),
        entry("C", "download_failed: x", Some("c")),
    ]);
    let mut seen = Vec::new();
    loop {
        step = match step {
            RedownloadStep::Download(download) => {
                seen.push(download.line());
                let fails = download.task().url == "a";
                download.on_outcome(if fails { Err("HTTP".to_string()) } else { Ok(()) })
            }
            RedownloadStep::Pause(pause) => {
                assert_eq!(pause.millis(), 3_000);
                seen.push(pause.line().clone());
                pause.resume()
            }
            RedownloadStep::Done => break,
        };
    }
    assert_eq!(
        seen,
        vec![
            "Retrying A (New Zealand)", "  FAILED: HTTP", "Retrying C (New Zealand)", "  OK",
        ],
    );
    assert!(matches!(redownload_failed_images(Vec::new()), RedownloadStep::Done));
}
