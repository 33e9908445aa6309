use photo_scraper::csv::{missing_csv, missing_csv_via_google, parse_csv_line, read_missing_csv};
use photo_scraper::report::PlayerResult;

fn record(team: &str, player: &str, status: &str) -> PlayerResult {
    PlayerResult {
        team: team.to_string(),
        player: player.to_string(),
        status: status.to_string(),
        wikipedia_title: None,
        image_url: None,
        saved_path: None,
    }
}

#[test]
fn lines_are_split_into_fields() {
    assert_eq!(parse_csv_line("a,b,c"), vec!["a", "b", "c"]);
    assert_eq!(parse_csv_line("\"a,b\",c"), vec!["a,b", "c"]);
    assert_eq!(parse_csv_line("\"say \"\"hi\"\"\",x"), vec!["say \"hi\"", "x"]);
    assert_eq!(parse_csv_line(""), vec![""]);
    assert_eq!(parse_csv_line(","), vec!["", ""]);
    assert_eq!(parse_csv_line("a\"b\"c"), vec!["abc"]);
    assert_eq!(parse_csv_line("\"open,end"), vec!["open,end"]);
    assert_eq!(parse_csv_line("\"\""), vec![""]);
    assert_eq!(parse_csv_line("a\"\"b"), vec!["ab"]);
}

#[test]
fn quoted_fields_read_back() {
    let fields = ["a,b", "say \"hi\"", "", "\"\"", "x\ny"];
    let quoted: Vec<String> =
        fields.iter().map(|f| format!("\"{}\"", f.replace('"', "\"\""))).collect();
    assert_eq!(parse_csv_line(&quoted.join(",")), fields);
}

#[test]
fn a_comma_outside_quotes_parts_a_line() {
    for (a, b) in [("x", "y"), ("\"a,b\"", "c,\"d"), ("\"a\"\"b\"", ""), ("", "")] {
        let mut both = parse_csv_line(a);
        both.extend(parse_csv_line(b));
        assert_eq!(parse_csv_line(&format!("{},{}", a, b)), both);
    }
}

#[test]
fn missing_lists_are_read() {
    let list = read_missing_csv(
        "team,player,status\r\n\"Fiji\",\"A, B\",\"no_image\"\r\n\n   \nonly\n Samoa,C \nTonga,D,x,y",
    );
    assert_eq!(list.len(), 3);
    assert_eq!(list[0].team, "Fiji");
    assert_eq!(list[0].player, "A, B");
    assert_eq!(list[0].status, "no_image");
    assert_eq!(list[1].team, "Samoa");
    assert_eq!(list[1].player, "C");
    assert_eq!(list[1].status, "");
    assert_eq!(list[2].team, "Tonga");
    assert_eq!(list[2].status, "x");
}

#[test]
fn a_heading_alone_lists_no_one() {
    assert!(read_missing_csv("").is_empty());
    assert!(read_missing_csv("Fiji,A,no_image").is_empty());
    assert!(read_missing_csv("team,player,status\n").is_empty());
}

#[test]
fn missing_records_are_listed() {
    let report = vec![
        record("Fiji", "A", "found"),
        record("Fiji", "B \"Bee\"", "no_image"),
        record("Samoa", "C", "found_via_google"),
    ];
    assert_eq!(
        missing_csv(&report),
        "team,player,status\n\"Fiji\",\"B 'Bee'\",\"no_image\"\n\"Samoa\",\"C\",\"found_via_google\"\n",
    );
    assert_eq!(
        missing_csv_via_google(&report),
        "team,player,status\n\"Fiji\",\"B 'Bee'\",\"no_image\"\n",
    );
    assert_eq!(missing_csv(&Vec::new()), "team,player,status\n");
}

#[test]
fn lists_read_back() {
    let report = vec![
        record("Fiji, Islands", " A ", "error: \"x\", y"),
        record("Fiji", "B", "found"),
        record("", "", ""),
        record("Samoa", "C\r", "no_wiki_page"),
    ];
    let list = read_missing_csv(&missing_csv(&report));
    assert_eq!(list.len(), 3);
    assert_eq!(list[0].team, "Fiji, Islands");
    assert_eq!(list[0].player, " A ");
    assert_eq!(list[0].status, "error: 'x', y");
    assert_eq!(list[1].team, "");
    assert_eq!(list[1].player, "");
    assert_eq!(list[2].player, "C\r");
}
