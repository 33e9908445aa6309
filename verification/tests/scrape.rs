use photo_scraper::csv::{missing_csv, read_missing_csv};
use photo_scraper::lookup::LookupStep;
use photo_scraper::report::PlayerResult;
use photo_scraper::scrape::{select_teams, total_players, ScrapeStep, TeamEntry};

fn team(name: &str, players: &[&str]) -> TeamEntry {
    TeamEntry { name: name.to_string(), players: players.iter().map(|p| p.to_string()).collect() }
}

fn teams() -> Vec<TeamEntry> {
    vec![team("Fiji", &["A", "B", "C"]), team("Nauru", &[]), team("New Zealand", &["D", "E"])]
}

#[test]
fn teams_are_selected() {
    assert_eq!(select_teams(teams(), &None).unwrap().len(), 3);
    let one = select_teams(teams(), &Some("Nauru".to_string())).unwrap();
    assert_eq!(one.len(), 1);
    assert_eq!(one[0].name, "Nauru");
    assert!(select_teams(teams(), &Some("nauru".to_string())).is_none());
    assert!(select_teams(Vec::new(), &None).is_none());
}

#[test]
fn players_are_counted() {
    assert_eq!(total_players(&teams()), 5);
    assert_eq!(total_players(&Vec::new()), 0);
}

#[test]
fn a_run_covers_everyone() {
    let mut step = ScrapeStep::start(teams());
    let mut seen = Vec::new();
    loop {
        step = match step {
            ScrapeStep::Team(team) => {
                seen.push(format!("dir {}", team.dir()));
                team.enter()
            }
            ScrapeStep::Player(at) => {
                let search = at.lookup();
                let jpeg = at.jpeg();
                seen.push(format!("{} {} {}/{}", at.number(), search.player, jpeg.dir, jpeg.file));
                let result: Result<PlayerResult, String> = match search.player.as_str() {
                    "A" => Err("timeout".to_string()),
                    "B" => match search.on_answer(Ok(None)) {
                        LookupStep::Done(result) => result,
                        other => panic!("{:?}", other),
                    },
                    name => Ok(PlayerResult {
                        team: search.team.clone(),
                        player: name.to_string(),
                        status: "found".to_string(),
                        wikipedia_title: Some("T".to_string()),
                        image_url: Some("u".to_string()),
                        saved_path: Some("p".to_string()),
                    }),
                };
                let on_disk = if jpeg.file == "C.jpg" { Some("c".to_string()) } else { None };
                at.on_result(result, on_disk)
            }
            ScrapeStep::Pause(pause) => {
                assert_eq!(pause.millis(), 5_000);
                seen.push("pause".to_string());
                pause.resume()
            }
            ScrapeStep::Done(done) => {
                let lines: Vec<String> = done
                    .report
                    .iter()
                    .map(|r| format!("{}/{}/{}", r.team, r.player, r.status))
                    .collect();
                assert_eq!(
                    lines,
                    vec![
                        "Fiji/A/error: timeout", "Fiji/B/no_wiki_page", "Fiji/C/found",
                        "New Zealand/D/found", "New Zealand/E/found",
                    ],
                );
                assert_eq!(done.report[2].wikipedia_title, None);
                assert_eq!(done.report[2].saved_path.as_deref(), Some("c"));
                assert_eq!(done.report[3].wikipedia_title.as_deref(), Some("T"));
                assert_eq!(done.found, 2);
                assert_eq!(done.teams.len(), 3);
                let missing = read_missing_csv(&missing_csv(&done.report));
                assert_eq!(missing.len(), 2);
                assert_eq!(missing[0].player, "A");
                assert_eq!(missing[1].status, "no_wiki_page");
                break;
            }
        };
    }
    assert_eq!(
        seen,
        vec![
            "dir Fiji", "1 A Fiji/A.jpg", "pause", "2 B Fiji/B.jpg", "pause", "3 C Fiji/C.jpg",
            "pause", "dir Nauru", "dir New_Zealand", "4 D New_Zealand/D.jpg", "pause",
            "5 E New_Zealand/E.jpg", "pause",
        ],
    );
}
