use photo_scraper::csv::{missing_csv_via_google, read_missing_csv};
use photo_scraper::google_retry::{GoogleLoad, GoogleStep};
use photo_scraper::report::PlayerResult;

#[test]
fn an_empty_list_calls_for_nothing() {
    assert!(GoogleLoad::plan(Vec::new()).is_none());
}

#[test]
fn a_run_settles_every_entry() {
    let missing = read_missing_csv(
        "team,player,status\nFiji,OnDisk,x\nFiji,Fine,x\nFiji,Fails,x\nFiji,None,x\nSamoa,Blocked,x\n",
    );
    let report = vec![
        PlayerResult {
            team: "Samoa".to_string(),
            player: "Fine".to_string(),
            status: "no_image".to_string(),
            wikipedia_title: None,
            image_url: None,
            saved_path: None,
        },
        PlayerResult {
            team: "Fiji".to_string(),
            player: "Fails".to_string(),
            status: "no_image".to_string(),
            wikipedia_title: Some("T".to_string()),
            image_url: None,
            saved_path: None,
        },
    ];
    let load = GoogleLoad::plan(missing).unwrap();
    assert_eq!(load.total(), 5);
    let mut step = load.start(report);
    let mut seen = Vec::new();
    loop {
        step = match step {
            GoogleStep::Check(check) => {
                seen.push(format!("{} {}", check.number(), check.entry().player));
                let files: Vec<String> =
                    check.photos().iter().map(|p| format!("{}/{}", p.dir, p.file)).collect();
                let name = check.entry().player.clone();
                let team = check.entry().team.clone();
                for (file, ext) in files.iter().zip(["jpg", "jpeg", "png", "webp"]) {
                    assert_eq!(file, &format!("{}/{}.{}", team, name, ext));
                }
                let on_disk = name == "OnDisk";
                check.on_answer(
                    files
                        .into_iter()
                        .enumerate()
                        .map(|(i, f)| if on_disk && i >= 2 { Some(f) } else { None })
                        .collect(),
                )
            }
            GoogleStep::Search(search) => {
                let query = search.query();
                seen.push(query.clone());
                search.on_answer(match query.as_str() {
                    "None Fiji rugby" => Ok(None),
                    "Blocked Samoa rugby" => Err("blocked".to_string()),
                    _ => Ok(Some("https://x.org/a.png".to_string())),
                })
            }
            GoogleStep::Download(download) => {
                let file = download.photo().file;
                seen.push(format!("{} -> {}", download.url(), file));
                download.on_outcome(if file == "Fine.png" {
                    Ok("p".to_string())
                } else {
                    Err("HTTP".to_string())
                })
            }
            GoogleStep::Pause(pause) => {
                assert_eq!(pause.millis(), 8_000);
                seen.push("pause".to_string());
                pause.resume()
            }
            GoogleStep::Done(done) => {
                assert_eq!(done.improved, 2);
                assert_eq!(done.missing.len(), 5);
                let lines: Vec<String> = done
                    .report
                    .iter()
                    .map(|r| format!("{}/{}/{}", r.team, r.player, r.status))
                    .collect();
                assert_eq!(
                    lines,
                    vec![
                        "Samoa/Fine/no_image", "Fiji/Fails/google_download_failed: HTTP",
                        "Fiji/OnDisk/found", "Fiji/Fine/found_via_google",
                        "Fiji/None/google_no_result", "Samoa/Blocked/google_search_failed: blocked",
                    ],
                );
                assert_eq!(done.report[1].wikipedia_title.as_deref(), Some("T"));
                assert_eq!(done.report[1].image_url.as_deref(), Some("https://x.org/a.png"));
                assert_eq!(done.report[2].saved_path.as_deref(), Some("Fiji/OnDisk.png"));
                assert_eq!(done.report[3].saved_path.as_deref(), Some("p"));
                let left = read_missing_csv(&missing_csv_via_google(&done.report));
                assert_eq!(left.len(), 4);
                assert_eq!(left[1].player, "Fails");
                break;
            }
        };
    }
    assert_eq!(
        seen,
        vec![
            "1 OnDisk", "2 Fine", "Fine Fiji rugby", "https://x.org/a.png -> Fine.png", "pause",
            "3 Fails", "Fails Fiji rugby", "https://x.org/a.png -> Fails.png", "pause", "4 None",
            "None Fiji rugby", "pause", "5 Blocked", "Blocked Samoa rugby", "pause",
        ],
    );
}
