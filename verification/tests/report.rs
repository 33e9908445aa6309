use photo_scraper::report::{
    read_report, record_of_fields, status_is_download_failed, status_is_lookup_error,
    update_report_entry, PlayerResult, RecordFields, ReportError,
};

fn record(team: &str, player: &str, status: &str) -> PlayerResult {
    PlayerResult {
        team: team.to_string(),
        player: player.to_string(),
        status: status.to_string(),
        wikipedia_title: Some("T".to_string()),
        image_url: Some("u".to_string()),
        saved_path: None,
    }
}

#[test]
fn the_first_record_of_a_player_is_updated() {
    let mut report = vec![
        record("Fiji", "A", "no_image"),
        record("Fiji", "B", "no_image"),
        record("Fiji", "B", "second"),
        record("Samoa", "B", "no_image"),
    ];
    update_report_entry(&mut report, "Fiji", "B", "found", None, Some("p".to_string()));
    assert_eq!(report.len(), 4);
    assert_eq!(report[1].status, "found");
    assert_eq!(report[1].image_url.as_deref(), Some("u"));
    assert_eq!(report[1].saved_path.as_deref(), Some("p"));
    assert_eq!(report[1].wikipedia_title.as_deref(), Some("T"));
    assert_eq!(report[0].status, "no_image");
    assert_eq!(report[2].status, "second");
    assert_eq!(report[3].status, "no_image");
    update_report_entry(&mut report, "Fiji", "B", "again", Some("v".to_string()), None);
    assert_eq!(report[1].status, "again");
    assert_eq!(report[1].image_url.as_deref(), Some("v"));
    assert_eq!(report[1].saved_path.as_deref(), Some("p"));
}

#[test]
fn an_unknown_player_is_added_once() {
    let mut report = vec![record("Fiji", "A", "found")];
    update_report_entry(&mut report, "Samoa", "A", "google_no_result", None, None);
    update_report_entry(&mut report, "Samoa", "A", "found", None, Some("q".to_string()));
    assert_eq!(report.len(), 2);
    assert_eq!(report[1].team, "Samoa");
    assert_eq!(report[1].player, "A");
    assert_eq!(report[1].status, "found");
    assert_eq!(report[1].wikipedia_title, None);
    assert_eq!(report[1].image_url, None);
    assert_eq!(report[1].saved_path.as_deref(), Some("q"));
}

#[test]
fn failures_are_told_apart() {
    assert!(status_is_download_failed("download_failed: HTTP status 429"));
    assert!(!status_is_download_failed("google_download_failed: x"));
    assert!(status_is_lookup_error("error: timeout"));
    assert!(!status_is_lookup_error("error"));
    assert!(!status_is_lookup_error("no_image"));
}

#[test]
fn reports_are_read_leniently() {
    let report = read_report(
        "[{\"team\":\"Fiji\",\"player\":\"Waisea \\u00e9\",\"status\":\"found\",\"wikipedia_title\":\"T\",\
         \"image_url\":null,\"saved_path\":\"p\"},{\"player\":7,\"image_url\":\"u\"},3,[\"team\"]]",
    )
    .unwrap();
    assert_eq!(report.len(), 4);
    assert_eq!(report[0].team, "Fiji");
    assert_eq!(report[0].player, "Waisea é");
    assert_eq!(report[0].status, "found");
    assert_eq!(report[0].wikipedia_title.as_deref(), Some("T"));
    assert_eq!(report[0].image_url, None);
    assert_eq!(report[0].saved_path.as_deref(), Some("p"));
    assert_eq!(report[1].team, "");
    assert_eq!(report[1].player, "");
    assert_eq!(report[1].image_url.as_deref(), Some("u"));
    assert_eq!(report[2].team, "");
    assert_eq!(report[3].team, "");
    assert!(read_report("[]").unwrap().is_empty());
}

#[test]
fn other_texts_are_no_report() {
    assert!(matches!(read_report("{}"), Err(ReportError::Json(_))));
    assert!(matches!(read_report(""), Err(ReportError::Json(_))));
    assert!(matches!(read_report("[1,]"), Err(ReportError::Json(_))));
}

#[test]
fn missing_fields_are_empty() {
    let out = record_of_fields(RecordFields {
        team: Some("Fiji".to_string()),
        player: None,
        status: None,
        wikipedia_title: None,
        image_url: Some("u".to_string()),
        saved_path: None,
    });
    assert_eq!(out.team, "Fiji");
    assert_eq!(out.player, "");
    assert_eq!(out.status, "");
    assert_eq!(out.image_url.as_deref(), Some("u"));
    assert_eq!(out.saved_path, None);
}
