use photo_scraper::report::PlayerResult;
use photo_scraper::retry::{actionable, count_actionable, RetryReport, RetryStep};

fn record(player: &str, status: &str, title: Option<&str>, url: Option<&str>) -> PlayerResult {
    PlayerResult {
        team: "Fiji".to_string(),
        player: player.to_string(),
        status: status.to_string(),
        wikipedia_title: title.map(str::to_string),
        image_url: url.map(str::to_string),
        saved_path: None,
    }
}

fn finish(step: RetryStep) -> RetryReport {
    match step {
        RetryStep::Done(report) => report,
        other => panic!("{:?}", other),
    }
}

#[test]
fn only_failures_are_worth_another_try() {
    assert!(actionable(&record("A", "download_failed: x", None, None)));
    assert!(actionable(&record("A", "error: x", None, None)));
    for status in ["no_image", "no_wiki_page", "found", "google_download_failed: x", ""] {
        assert!(!actionable(&record("A", status, None, None)));
    }
    let entries = vec![
        record("A", "error: x", None, None),
        record("B", "found", None, None),
        record("C", "download_failed: y", None, None),
    ];
    assert_eq!(count_actionable(&entries), 2);
}

#[test]
fn a_run_without_failures_is_over() {
    let report = finish(RetryStep::start(vec![
        record("A", "no_image", None, None),
        record("B", "found", None, None),
    ]));
    assert_eq!((report.improved, report.total), (0, 0));
    assert_eq!(report.entries[0].status, "no_image");
    assert_eq!(finish(RetryStep::start(Vec::new())).entries.len(), 0);
}

#[test]
fn a_run_visits_the_failures() {
    let mut step = RetryStep::start(vec![
        record("Skip", "no_image", None, None),
        record("OnDisk", "download_failed: 1", None, Some("u.png")),
        record("NoUrl", "download_failed: 2", None, None),
        record("Again", "download_failed: 3", Some("T"), Some("v.gif")),
        record("Still", "download_failed: 4", None, Some("w")),
        record("Lookup", "error: 5", Some("Old"), None),
        record("Broken", "error: 6", Some("Old"), Some("x")),
    ]);
    let mut seen = Vec::new();
    loop {
        step = match step {
            RetryStep::Check(check) => {
                let player = check.entry().player.clone();
                let photos = check.photos();
                assert_eq!(photos.len(), 4);
                let mut paths = Vec::new();
                for (i, photo) in photos.iter().enumerate() {
                    assert_eq!(photo.dir, "Fiji");
                    let there = player == "OnDisk" && i >= 2;
                    paths.push(if there { Some(photo.file.clone()) } else { None });
                }
                seen.push(photos[0].file.clone());
                check.on_answer(paths)
            }
            RetryStep::Download(download) => {
                let player = download.entry().player.clone();
                seen.push(format!("{} -> {}", download.url(), download.photo().file));
                download.on_outcome(if player == "Again" {
                    Ok("p2".to_string())
                } else {
                    Err("HTTP".to_string())
                })
            }
            RetryStep::Lookup(lookup) => {
                let search = lookup.lookup();
                assert_eq!(search.team, "Fiji");
                assert_eq!(search.player, lookup.entry().player);
                seen.push(format!("look up {}", search.player));
                if search.player == "Lookup" {
                    let mut found = record("Lookup", "found", None, Some("y"));
                    found.saved_path = Some("p3".to_string());
                    lookup.on_result(Ok(found))
                } else {
                    lookup.on_result(Err("again".to_string()))
                }
            }
            RetryStep::Pause(pause) => {
                assert_eq!(pause.millis(), 15_000);
                seen.push("pause".to_string());
                pause.resume()
            }
            RetryStep::Done(report) => {
                assert_eq!((report.improved, report.total), (3, 6));
                let status: Vec<&str> = report.entries.iter().map(|e| e.status.as_str()).collect();
                assert_eq!(
                    status,
                    vec![
                        "no_image", "found", "download_failed: 2", "found",
                        "download_failed: HTTP", "found", "error: again",
                    ],
                );
                assert_eq!(report.entries[1].saved_path.as_deref(), Some("OnDisk.webp"));
                assert_eq!(report.entries[3].saved_path.as_deref(), Some("p2"));
                assert_eq!(report.entries[3].wikipedia_title.as_deref(), Some("T"));
                assert_eq!(report.entries[5].wikipedia_title.as_deref(), Some("Old"));
                assert_eq!(report.entries[5].image_url.as_deref(), Some("y"));
                assert_eq!(report.entries[5].saved_path.as_deref(), Some("p3"));
                assert_eq!(report.entries[6].image_url.as_deref(), Some("x"));
                break;
            }
        };
    }
    assert_eq!(
        seen,
        vec![
            "OnDisk.png", "NoUrl.jpg", "Again.gif", "v.gif -> Again.gif", "pause", "Still.jpg",
            "w -> Still.jpg", "pause", "Lookup.jpg", "look up Lookup", "pause", "Broken.jpg",
            "look up Broken", "pause",
        ],
    );
}

#[test]
fn a_saved_photo_is_recognised_under_any_extension() {
    for ext in ["jpg", "png", "webp", "gif"] {
        let step = RetryStep::start(vec![record("A B", "error: x", None, None)]);
        let check = match step {
            RetryStep::Check(check) => check,
            other => panic!("{:?}", other),
        };
        let names: Vec<String> = check.photos().iter().map(|p| p.file.clone()).collect();
        assert_eq!(names, vec!["A_B.jpg", "A_B.png", "A_B.webp", "A_B.gif"]);
        let on_disk = format!("A_B.{}", ext);
        let paths = names.into_iter().map(|n| if n == on_disk { Some(n) } else { None }).collect();
        let report = finish(check.on_answer(paths));
        assert_eq!(report.entries[0].status, "found");
        assert_eq!(report.entries[0].saved_path, Some(on_disk));
        assert_eq!((report.improved, report.total), (1, 1));
    }
}
