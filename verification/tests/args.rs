use photo_scraper::args::{Args, Command, Mode};

fn parse(line: &[&str]) -> Command {
    Args::parse(&line.iter().map(|s| s.to_string()).collect())
}

fn run(line: &[&str]) -> Args {
    match parse(line) {
        Command::Run(args) => args,
        other => panic!("{:?}", other),
    }
}

#[test]
fn an_empty_line_has_defaults() {
    let args = run(&[]);
    assert_eq!(args.input, "squads.json");
    assert_eq!(args.out_dir, "photos");
    assert_eq!(args.thumb_size, 400);
    assert_eq!(args.team, None);
    assert!(!args.retry_failed && !args.retry_missing && !args.retry_google);
    assert_eq!(args.mode(), Mode::Scrape);
}

#[test]
fn settings_are_read() {
    let args = run(&[
        "--input", "a.json", "--out-dir", "b", "--thumb-size", "250", "--team", "Fiji",
        "--retry-failed", "--retry-missing", "--retry-google",
    ]);
    assert_eq!(args.input, "a.json");
    assert_eq!(args.out_dir, "b");
    assert_eq!(args.thumb_size, 250);
    assert_eq!(args.team.as_deref(), Some("Fiji"));
    assert!(args.retry_failed && args.retry_missing && args.retry_google);
    let short = run(&["-i", "--help", "-o", "x", "-o", "y"]);
    assert_eq!(short.input, "--help");
    assert_eq!(short.out_dir, "y");
}

#[test]
fn bad_sizes_fall_back() {
    assert_eq!(run(&["--thumb-size", "wide"]).thumb_size, 400);
    assert_eq!(run(&["--thumb-size", "-3"]).thumb_size, 400);
    assert_eq!(run(&["--thumb-size", "4294967296"]).thumb_size, 400);
    assert_eq!(run(&["--thumb-size", "4294967295"]).thumb_size, u32::MAX);
    assert_eq!(run(&["--thumb-size", "9", "--thumb-size", "x"]).thumb_size, 400);
}

#[test]
fn missing_values_are_passed_over() {
    assert_eq!(run(&["--input"]).input, "squads.json");
    assert_eq!(run(&["-o", "b", "--out-dir"]).out_dir, "b");
    assert_eq!(run(&["--thumb-size", "9", "--thumb-size"]).thumb_size, 9);
    assert_eq!(run(&["--team", "Fiji", "--team"]).team, None);
}

#[test]
fn help_and_unknown_arguments_stop() {
    assert!(matches!(parse(&["-h", "--bogus"]), Command::Help));
    assert!(matches!(parse(&["--team", "x", "--help"]), Command::Help));
    assert!(matches!(parse(&["--bogus", "-h"]), Command::Unknown(arg) if arg == "--bogus"));
    assert!(matches!(parse(&[""]), Command::Unknown(arg) if arg.is_empty()));
}

#[test]
fn one_mode_comes_first() {
    assert_eq!(run(&["--retry-missing"]).mode(), Mode::RetryMissing);
    assert_eq!(run(&["--retry-missing", "--retry-google"]).mode(), Mode::RetryGoogle);
    assert_eq!(
        run(&["--retry-missing", "--retry-google", "--retry-failed"]).mode(),
        Mode::RetryFailed,
    );
}
