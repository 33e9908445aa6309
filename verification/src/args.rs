//! The command line.

use crate::report::text_of;
use crate::text::{
    decimal, decimal_reads_back, parse_unsigned, same_text, texts, unsigned_value,
};
use vstd::prelude::*;

verus! {

/// What the command line asks for.
#[derive(Debug)]
pub struct Args {
    pub input: String,
    pub out_dir: String,
    pub thumb_size: u32,
    pub team: Option<String>,
    pub retry_failed: bool,
    pub retry_missing: bool,
    pub retry_google: bool,
}

/// What an [`Args`] holds, as text and numbers.
#[verifier::ext_equal]
pub struct ArgsView {
    pub input: Seq<char>,
    pub out_dir: Seq<char>,
    pub thumb_size: nat,
    pub team: Option<Seq<char>>,
    pub retry_failed: bool,
    pub retry_missing: bool,
    pub retry_google: bool,
}

impl View for Args {
    type V = ArgsView;

    open spec fn view(&self) -> ArgsView {
        ArgsView {
            input: self.input@,
            out_dir: self.out_dir@,
            thumb_size: self.thumb_size as nat,
            team: text_of(self.team),
            retry_failed: self.retry_failed,
            retry_missing: self.retry_missing,
            retry_google: self.retry_google,
        }
    }
}

/// How a command line was understood.
#[derive(Debug)]
pub enum Command {
    /// Run with these settings.
    Run(Args),
    /// Show the help text.
    Help,
    /// The first argument that is not known.
    Unknown(String),
}

/// What a [`Command`] holds, as text and numbers.
pub enum CommandView {
    Run(ArgsView),
    Help,
    Unknown(Seq<char>),
}

impl View for Command {
    type V = CommandView;

    open spec fn view(&self) -> CommandView {
        match self {
            Command::Run(args) => CommandView::Run(args@),
            Command::Help => CommandView::Help,
            Command::Unknown(arg) => CommandView::Unknown(arg@),
        }
    }
}

/// The settings of an empty command line.
pub open spec fn default_args() -> ArgsView {
    ArgsView {
        input: "squads.json"@,
        out_dir: "photos"@,
        thumb_size: 400,
        team: None,
        retry_failed: false,
        retry_missing: false,
        retry_google: false,
    }
}

/// The thumbnail width that an argument asks for: its number, or 400 where it is none that
/// fits.
pub open spec fn thumb_size_of(arg: Seq<char>) -> nat {
    match unsigned_value(arg) {
        Some(n) => if n <= u32::MAX {
            n
        } else {
            400
        },
        None => 400,
    }
}

/// How the remaining arguments are understood, given the settings so far. Reading stops at
/// the first request for help and at the first unknown argument. An option at the very end,
/// with its value missing, leaves its setting alone, but for `--team`, which then drops it.
pub open spec fn understood(rest: Seq<Seq<char>>, so_far: ArgsView) -> CommandView
    decreases rest.len(),
{
    if rest.len() == 0 {
        CommandView::Run(so_far)
    } else {
        let arg = rest[0];
        if arg == "--input"@ || arg == "-i"@ {
            if rest.len() > 1 {
                understood(rest.skip(2), ArgsView { input: rest[1], ..so_far })
            } else {
                CommandView::Run(so_far)
            }
        } else if arg == "--out-dir"@ || arg == "-o"@ {
            if rest.len() > 1 {
                understood(rest.skip(2), ArgsView { out_dir: rest[1], ..so_far })
            } else {
                CommandView::Run(so_far)
            }
        } else if arg == "--thumb-size"@ {
            if rest.len() > 1 {
                understood(
                    rest.skip(2),
                    ArgsView { thumb_size: thumb_size_of(rest[1]), ..so_far },
                )
            } else {
                CommandView::Run(so_far)
            }
        } else if arg == "--team"@ {
            if rest.len() > 1 {
                understood(rest.skip(2), ArgsView { team: Some(rest[1]), ..so_far })
            } else {
                CommandView::Run(ArgsView { team: None, ..so_far })
            }
        } else if arg == "--retry-failed"@ {
            understood(rest.skip(1), ArgsView { retry_failed: true, ..so_far })
        } else if arg == "--retry-missing"@ {
            understood(rest.skip(1), ArgsView { retry_missing: true, ..so_far })
        } else if arg == "--retry-google"@ {
            understood(rest.skip(1), ArgsView { retry_google: true, ..so_far })
        } else if arg == "-h"@ || arg == "--help"@ {
            CommandView::Help
        } else {
            CommandView::Unknown(arg)
        }
    }
}

fn parse_thumb_size(arg: &str) -> (size: u32)
    ensures
        size == thumb_size_of(arg@),
{
    match parse_unsigned(arg, u32::MAX as u64) {
        Some(n) => n as u32,
        None => 400,
    }
}

impl Args {
    /// Reads the command line, without the program's own name:
    ///
    /// - `--input <path>` or `-i <path>` (default: squads.json)
    /// - `--out-dir <path>` or `-o <path>` (default: photos)
    /// - `--thumb-size <px>` (default: 400)
    /// - `--team <name>` (optional; restrict to one team)
    /// - `--retry-failed`, `--retry-missing`, `--retry-google`
    /// - `-h` or `--help`
    pub fn parse(line: &Vec<String>) -> (out: Command)
        ensures
            out@ == understood(texts(line@), default_args()),
    {
        let ghost all = texts(line@);
        let mut args = Args {
            input: "squads.json".to_owned(),
            out_dir: "photos".to_owned(),
            thumb_size: 400,
            team: None,
            retry_failed: false,
            retry_missing: false,
            retry_google: false,
        };
        let mut i: usize = 0;
        assert(all.skip(0) =~= all);
        while i < line.len()
            invariant
                i <= line@.len(),
                all == texts(line@),
                understood(all, default_args()) == understood(all.skip(i as int), args@),
            decreases line@.len() - i,
        {
            let ghost rest = all.skip(i as int);
            let ghost before = args@;
            proof {
                assert(rest[0] == line@[i as int]@);
                assert(rest.skip(1) =~= all.skip(i + 1));
                if i + 1 < line@.len() {
                    assert(rest[1] == line@[i + 1]@);
                    assert(rest.skip(2) =~= all.skip(i + 2));
                }
            }
            let arg = &line[i];
            let has_value: bool = i + 1 < line.len();
            i = i + 1;
            if same_text(arg, "--input") || same_text(arg, "-i") {
                if !has_value {
                    return Command::Run(args);
                }
                args.input = line[i].clone();
                i = i + 1;
            } else if same_text(arg, "--out-dir") || same_text(arg, "-o") {
                if !has_value {
                    return Command::Run(args);
                }
                args.out_dir = line[i].clone();
                i = i + 1;
            } else if same_text(arg, "--thumb-size") {
                if !has_value {
                    return Command::Run(args);
                }
                args.thumb_size = parse_thumb_size(&line[i]);
                i = i + 1;
            } else if same_text(arg, "--team") {
                if !has_value {
                    args.team = None;
                    return Command::Run(args);
                }
                args.team = Some(line[i].clone());
                i = i + 1;
            } else if same_text(arg, "--retry-failed") {
                args.retry_failed = true;
            } else if same_text(arg, "--retry-missing") {
                args.retry_missing = true;
            } else if same_text(arg, "--retry-google") {
                args.retry_google = true;
            } else if same_text(arg, "-h") || same_text(arg, "--help") {
                return Command::Help;
            } else {
                return Command::Unknown(arg.clone());
            }
        }
        Command::Run(args)
    }
}

/// The arguments that ask for a flag, or none where it is not asked for.
pub open spec fn flag(on: bool, name: Seq<char>) -> Seq<Seq<char>> {
    if on {
        seq![name]
    } else {
        Seq::empty()
    }
}

/// A command line that asks for the given settings.
pub open spec fn command_line(args: ArgsView) -> Seq<Seq<char>> {
    seq!["--input"@, args.input] + (seq!["--out-dir"@, args.out_dir] + (seq![
        "--thumb-size"@,
        decimal(args.thumb_size),
    ] + ((match args.team {
        Some(team) => seq!["--team"@, team],
        None => Seq::empty(),
    }) + (flag(args.retry_failed, "--retry-failed"@) + (flag(
        args.retry_missing,
        "--retry-missing"@,
    ) + flag(args.retry_google, "--retry-google"@))))))
}

/// Whatever the settings, a command line that asks for them is understood as them.
pub proof fn settings_read_back(args: ArgsView)
    requires
        args.thumb_size <= u32::MAX,
    ensures
        understood(command_line(args), default_args()) == CommandView::Run(args),
{
    let google = flag(args.retry_google, "--retry-google"@);
    let missing = flag(args.retry_missing, "--retry-missing"@) + google;
    let failed = flag(args.retry_failed, "--retry-failed"@) + missing;
    let team = (match args.team {
        Some(team) => seq!["--team"@, team],
        None => Seq::empty(),
    }) + failed;
    let thumb = seq!["--thumb-size"@, decimal(args.thumb_size)] + team;
    let out = seq!["--out-dir"@, args.out_dir] + thumb;
    let all = seq!["--input"@, args.input] + out;
    let s0 = default_args();
    let s1 = ArgsView { input: args.input, ..s0 };
    let s2 = ArgsView { out_dir: args.out_dir, ..s1 };
    let s3 = ArgsView { thumb_size: args.thumb_size, ..s2 };
    let s4 = ArgsView { team: args.team, ..s3 };
    let s5 = ArgsView { retry_failed: args.retry_failed, ..s4 };
    let s6 = ArgsView { retry_missing: args.retry_missing, ..s5 };
    decimal_reads_back(args.thumb_size);
    options_differ();
    assert(all.skip(2) =~= out);
    assert(understood(all, s0) == understood(out, s1));
    assert(out.skip(2) =~= thumb);
    assert(understood(out, s1) == understood(thumb, s2));
    assert(thumb.skip(2) =~= team);
    assert(understood(thumb, s2) == understood(team, s3));
    if args.team is Some {
        assert(team.skip(2) =~= failed);
    } else {
        assert(team =~= failed);
    }
    assert(understood(team, s3) == understood(failed, s4));
    if args.retry_failed {
        assert(failed.skip(1) =~= missing);
    } else {
        assert(failed =~= missing);
    }
    assert(understood(failed, s4) == understood(missing, s5));
    if args.retry_missing {
        assert(missing.skip(1) =~= google);
    } else {
        assert(missing =~= google);
    }
    assert(understood(missing, s5) == understood(google, s6));
    if args.retry_google {
        assert(google.skip(1).len() == 0);
        assert(understood(google.skip(1), args) == CommandView::Run(args));
    }
}

proof fn options_differ()
    ensures
        "--out-dir"@ != "--input"@ && "--out-dir"@ != "-i"@,
        "--thumb-size"@ != "--input"@ && "--thumb-size"@ != "-i"@,
        "--thumb-size"@ != "--out-dir"@ && "--thumb-size"@ != "-o"@,
        "--team"@ != "--input"@ && "--team"@ != "-i"@,
        "--team"@ != "--out-dir"@ && "--team"@ != "-o"@,
        "--team"@ != "--thumb-size"@,
        "--retry-failed"@ != "--input"@ && "--retry-failed"@ != "-i"@,
        "--retry-failed"@ != "--out-dir"@ && "--retry-failed"@ != "-o"@,
        "--retry-failed"@ != "--thumb-size"@ && "--retry-failed"@ != "--team"@,
        "--retry-missing"@ != "--input"@ && "--retry-missing"@ != "-i"@,
        "--retry-missing"@ != "--out-dir"@ && "--retry-missing"@ != "-o"@,
        "--retry-missing"@ != "--thumb-size"@ && "--retry-missing"@ != "--team"@,
        "--retry-missing"@ != "--retry-failed"@,
        "--retry-google"@ != "--input"@ && "--retry-google"@ != "-i"@,
        "--retry-google"@ != "--out-dir"@ && "--retry-google"@ != "-o"@,
        "--retry-google"@ != "--thumb-size"@ && "--retry-google"@ != "--team"@,
        "--retry-google"@ != "--retry-failed"@ && "--retry-google"@ != "--retry-missing"@,
{
    reveal_strlit("-i");
    reveal_strlit("-o");
    reveal_strlit("--input");
    reveal_strlit("--out-dir");
    reveal_strlit("--thumb-size");
    reveal_strlit("--team");
    reveal_strlit("--retry-failed");
    reveal_strlit("--retry-missing");
    reveal_strlit("--retry-google");
    assert("-i"@.len() == 2);
    assert("-o"@.len() == 2);
    assert("--input"@.len() == 7);
    assert("--out-dir"@.len() == 9);
    assert("--thumb-size"@.len() == 12);
    assert("--team"@.len() == 6);
    assert("--retry-failed"@.len() == 14);
    assert("--retry-missing"@.len() == 15);
    assert("--retry-google"@.len() == 14);
    assert("--retry-google"@[8] == 'g');
    assert("--retry-failed"@[8] == 'f');
}

/// The four kinds of run.
#[derive(Debug, Clone, Copy, PartialEq, Eq, Structural)]
pub enum Mode {
    /// Download again what failed to download.
    RetryFailed,
    /// Search for the missing photos elsewhere.
    RetryGoogle,
    /// Try again where a download or a lookup failed.
    RetryMissing,
    /// Look up every player.
    Scrape,
}

impl Args {
    /// The kind of run that the settings ask for. Where they ask for several, `--retry-failed`
    /// comes first, then `--retry-google`, then `--retry-missing`.
    pub fn mode(&self) -> (mode: Mode)
        ensures
            mode == Mode::RetryFailed <==> self.retry_failed,
            mode == Mode::RetryGoogle <==> !self.retry_failed && self.retry_google,
            mode == Mode::RetryMissing <==> !self.retry_failed && !self.retry_google
                && self.retry_missing,
            mode == Mode::Scrape <==> !self.retry_failed && !self.retry_google
                && !self.retry_missing,
    {
        if self.retry_failed {
            Mode::RetryFailed
        } else if self.retry_google {
            Mode::RetryGoogle
        } else if self.retry_missing {
            Mode::RetryMissing
        } else {
            Mode::Scrape
        }
    }
}

/// Each option is followed by its value and sets its own setting to it, whatever was set
/// before and whatever comes behind. A thumbnail width that is no number below two to the
/// thirty-second counts as 400.
pub proof fn options_take_values(value: Seq<char>, rest: Seq<Seq<char>>, so_far: ArgsView)
    ensures
        understood(seq!["--input"@, value] + rest, so_far) == understood(
            rest,
            ArgsView { input: value, ..so_far },
        ),
        understood(seq!["-i"@, value] + rest, so_far) == understood(
            rest,
            ArgsView { input: value, ..so_far },
        ),
        understood(seq!["--out-dir"@, value] + rest, so_far) == understood(
            rest,
            ArgsView { out_dir: value, ..so_far },
        ),
        understood(seq!["-o"@, value] + rest, so_far) == understood(
            rest,
            ArgsView { out_dir: value, ..so_far },
        ),
        understood(seq!["--team"@, value] + rest, so_far) == understood(
            rest,
            ArgsView { team: Some(value), ..so_far },
        ),
        unsigned_value(value) matches Some(n) && n <= 4_294_967_295 ==> understood(
            seq!["--thumb-size"@, value] + rest,
            so_far,
        ) == understood(rest, ArgsView { thumb_size: unsigned_value(value)->0, ..so_far }),
        unsigned_value(value) is None || unsigned_value(value)->0 > 4_294_967_295 ==> understood(
            seq!["--thumb-size"@, value] + rest,
            so_far,
        ) == understood(rest, ArgsView { thumb_size: 400, ..so_far }),
{
    options_differ();
    short_options_differ();
    assert((seq!["--input"@, value] + rest).skip(2) =~= rest);
    assert((seq!["-i"@, value] + rest).skip(2) =~= rest);
    assert((seq!["--out-dir"@, value] + rest).skip(2) =~= rest);
    assert((seq!["-o"@, value] + rest).skip(2) =~= rest);
    assert((seq!["--team"@, value] + rest).skip(2) =~= rest);
    assert((seq!["--thumb-size"@, value] + rest).skip(2) =~= rest);
}

/// Each flag sets its own setting, whatever was set before and whatever comes behind.
pub proof fn flags_set_their_own(rest: Seq<Seq<char>>, so_far: ArgsView)
    ensures
        understood(seq!["--retry-failed"@] + rest, so_far) == understood(
            rest,
            ArgsView { retry_failed: true, ..so_far },
        ),
        understood(seq!["--retry-missing"@] + rest, so_far) == understood(
            rest,
            ArgsView { retry_missing: true, ..so_far },
        ),
        understood(seq!["--retry-google"@] + rest, so_far) == understood(
            rest,
            ArgsView { retry_google: true, ..so_far },
        ),
{
    options_differ();
    assert((seq!["--retry-failed"@] + rest).skip(1) =~= rest);
    assert((seq!["--retry-missing"@] + rest).skip(1) =~= rest);
    assert((seq!["--retry-google"@] + rest).skip(1) =~= rest);
}

/// A request for help is answered whatever stands around it, and so is the first argument that
/// is neither an option, a flag nor such a request: it is named as unknown.
pub proof fn reading_stops_at_help_and_unknown(
    arg: Seq<char>,
    rest: Seq<Seq<char>>,
    so_far: ArgsView,
)
    ensures
        understood(seq!["-h"@] + rest, so_far) == CommandView::Help,
        understood(seq!["--help"@] + rest, so_far) == CommandView::Help,
        arg != "--input"@ && arg != "-i"@ && arg != "--out-dir"@ && arg != "-o"@ && arg
            != "--thumb-size"@ && arg != "--team"@ && arg != "--retry-failed"@ && arg
            != "--retry-missing"@ && arg != "--retry-google"@ && arg != "-h"@ && arg != "--help"@
            ==> understood(seq![arg] + rest, so_far) == CommandView::Unknown(arg),
{
    short_options_differ();
    assert((seq!["-h"@] + rest)[0] == "-h"@);
    assert((seq!["--help"@] + rest)[0] == "--help"@);
    assert((seq![arg] + rest)[0] == arg);
}

/// At the end of the line the settings are those made so far. An option whose value is missing
/// there leaves them alone, but for `--team`, which drops the team.
pub proof fn line_ends_with_settings(so_far: ArgsView)
    ensures
        understood(Seq::empty(), so_far) == CommandView::Run(so_far),
        understood(seq!["--input"@], so_far) == CommandView::Run(so_far),
        understood(seq!["-i"@], so_far) == CommandView::Run(so_far),
        understood(seq!["--out-dir"@], so_far) == CommandView::Run(so_far),
        understood(seq!["-o"@], so_far) == CommandView::Run(so_far),
        understood(seq!["--thumb-size"@], so_far) == CommandView::Run(so_far),
        understood(seq!["--team"@], so_far) == CommandView::Run(ArgsView { team: None, ..so_far }),
{
    options_differ();
    short_options_differ();
}

/// Without arguments, the squads are read from `squads.json`, photos of width 400 go to
/// `photos`, every team is taken, and nothing is tried again.
pub proof fn settings_without_arguments()
    ensures
        understood(Seq::empty(), default_args()) matches CommandView::Run(args) && {
            &&& args.input == "squads.json"@
            &&& args.out_dir == "photos"@
            &&& args.thumb_size == 400
            &&& args.team is None
            &&& !args.retry_failed
            &&& !args.retry_missing
            &&& !args.retry_google
        },
{
}

/// Settings and commands are shown as they are.
pub proof fn settings_show_what_they_hold(args: Args, arg: String)
    ensures
        args@.input == args.input@,
        args@.out_dir == args.out_dir@,
        args@.thumb_size == args.thumb_size,
        args@.team == text_of(args.team),
        args@.retry_failed == args.retry_failed,
        args@.retry_missing == args.retry_missing,
        args@.retry_google == args.retry_google,
        Command::Run(args)@ == CommandView::Run(args@),
        Command::Help@ == CommandView::Help,
        Command::Unknown(arg)@ == CommandView::Unknown(arg@),
{
}

proof fn short_options_differ()
    ensures
        "-o"@ != "--input"@ && "-o"@ != "-i"@,
        "-h"@ != "--input"@ && "-h"@ != "-i"@ && "-h"@ != "--out-dir"@ && "-h"@ != "-o"@,
        "-h"@ != "--thumb-size"@ && "-h"@ != "--team"@ && "-h"@ != "--retry-failed"@,
        "-h"@ != "--retry-missing"@ && "-h"@ != "--retry-google"@,
        "--help"@ != "--input"@ && "--help"@ != "-i"@ && "--help"@ != "--out-dir"@,
        "--help"@ != "-o"@ && "--help"@ != "--thumb-size"@ && "--help"@ != "--team"@,
        "--help"@ != "--retry-failed"@ && "--help"@ != "--retry-missing"@,
        "--help"@ != "--retry-google"@,
{
    reveal_strlit("-i");
    reveal_strlit("-o");
    reveal_strlit("-h");
    reveal_strlit("--help");
    reveal_strlit("--input");
    reveal_strlit("--out-dir");
    reveal_strlit("--thumb-size");
    reveal_strlit("--team");
    reveal_strlit("--retry-failed");
    reveal_strlit("--retry-missing");
    reveal_strlit("--retry-google");
    assert("-i"@.len() == 2);
    assert("-i"@[1] == 'i');
    assert("-o"@[1] == 'o');
    assert("-h"@[1] == 'h');
    assert("-o"@.len() == 2);
    assert("-h"@.len() == 2);
    assert("--help"@.len() == 6);
    assert("--help"@[2] == 'h');
    assert("--team"@[2] == 't');
    assert("--input"@.len() == 7);
    assert("--out-dir"@.len() == 9);
    assert("--thumb-size"@.len() == 12);
    assert("--team"@.len() == 6);
    assert("--retry-failed"@.len() == 14);
    assert("--retry-missing"@.len() == 15);
    assert("--retry-google"@.len() == 14);
}

} // verus!
