//! The ordinary run: every player of every team is looked up once.

use crate::csv::{
    csv_text, is_missing, is_one_line, list_holds_the_missing, listed, missing_entries, MissingView,
};
use crate::lookup::{
    error_status, failed_is_not_found, lookup_ending, lookup_ends, lookup_text, record, LookupView,
    PageSearch,
};
use crate::names::{photo_file, photo_name, safe_name, sanitize_filename, PhotoFile};
use crate::report::{found, keys, records, text_of, PlayerResult, RecordView};
use crate::text::{same_text, texts};
use vstd::prelude::*;

verus! {

/// The pause between two players, in milliseconds.
pub const REQUEST_DELAY_MS: u64 = 5_000;

/// A team and the names of its players.
#[derive(Debug)]
pub struct TeamEntry {
    pub name: String,
    pub players: Vec<String>,
}

/// What a [`TeamEntry`] holds, as text.
#[verifier::ext_equal]
pub struct TeamView {
    pub name: Seq<char>,
    pub players: Seq<Seq<char>>,
}

impl View for TeamEntry {
    type V = TeamView;

    open spec fn view(&self) -> TeamView {
        TeamView { name: self.name@, players: texts(self.players@) }
    }
}

/// The teams of a list, as text.
pub open spec fn team_views(teams: Seq<TeamEntry>) -> Seq<TeamView> {
    Seq::new(teams.len(), |i: int| teams[i]@)
}

/// Whether a team is asked for: any is where no name is given, else the one of that name.
pub open spec fn is_wanted(team: TeamView, wanted: Option<Seq<char>>) -> bool {
    match wanted {
        Some(name) => team.name == name,
        None => true,
    }
}

/// The teams that are asked for, in order.
pub open spec fn wanted_teams(teams: Seq<TeamView>, wanted: Option<Seq<char>>) -> Seq<TeamView> {
    teams.filter(|team: TeamView| is_wanted(team, wanted))
}

/// Picks the teams that are asked for, in order. Where there is none, there is no run, and
/// no report is written.
pub fn select_teams(teams: Vec<TeamEntry>, wanted: &Option<String>) -> (out: Option<
    Vec<TeamEntry>,
>)
    ensures
        out is None <==> wanted_teams(team_views(teams@), text_of(*wanted)).len() == 0,
        out matches Some(picked) ==> team_views(picked@) == wanted_teams(
            team_views(teams@),
            text_of(*wanted),
        ),
{
    let ghost all = team_views(teams@);
    let ghost pick = |team: TeamView| is_wanted(team, text_of(*wanted));
    let mut out: Vec<TeamEntry> = Vec::new();
    proof {
        reveal(Seq::filter);
        assert(team_views(out@) =~= all.take(0).filter(pick));
    }
    for team in it: teams
        invariant
            it.seq() == teams@,
            all == team_views(teams@),
            pick == (|team: TeamView| is_wanted(team, text_of(*wanted))),
            team_views(out@) == all.take(it.index() as int).filter(pick),
    {
        let ghost at = it.index() as int;
        proof {
            reveal(Seq::filter);
            assert(all.take(at + 1).drop_last() =~= all.take(at));
            assert(all.take(at + 1).last() == team@);
        }
        let keep: bool = match wanted {
            Some(name) => same_text(&team.name, name),
            None => true,
        };
        if keep {
            let ghost before = team_views(out@);
            out.push(team);
            assert(team_views(out@) =~= before.push(team@));
        }
    }
    assert(all.take(all.len() as int) =~= all);
    assert(team_views(out@).len() == out@.len());
    if out.len() == 0 {
        None
    } else {
        Some(out)
    }
}

/// How many players the teams have together.
pub open spec fn player_count(teams: Seq<TeamView>) -> nat
    decreases teams.len(),
{
    if teams.len() == 0 {
        0
    } else {
        player_count(teams.drop_last()) + teams.last().players.len()
    }
}

/// Counts the players of the teams.
pub fn total_players(teams: &Vec<TeamEntry>) -> (total: u128)
    ensures
        total == player_count(team_views(teams@)),
{
    let ghost all = team_views(teams@);
    let mut total: u128 = 0;
    let mut i: usize = 0;
    while i < teams.len()
        invariant
            i <= teams@.len(),
            all == team_views(teams@),
            total == player_count(all.take(i as int)),
            total <= i * 0xffff_ffff_ffff_ffff,
        decreases teams@.len() - i,
    {
        assert(all.take(i + 1).drop_last() =~= all.take(i as int));
        assert(all.take(i + 1).last() == teams@[i as int]@);
        let count: usize = teams[i].players.len();
        total = total + count as u128;
        i = i + 1;
    }
    assert(all.take(i as int) =~= all);
    total
}

/// Each player of each team, in order, with the name of the team.
pub open spec fn roster(teams: Seq<TeamView>) -> Seq<(Seq<char>, Seq<char>)>
    decreases teams.len(),
{
    if teams.len() == 0 {
        Seq::empty()
    } else {
        roster(teams.drop_last()) + squad(teams.last(), teams.last().players.len() as int)
    }
}

/// The first players of a team, with the name of the team.
pub open spec fn squad(team: TeamView, upto: int) -> Seq<(Seq<char>, Seq<char>)> {
    Seq::new(upto as nat, |i: int| (team.name, team.players[i]))
}

/// A run: the teams, the team and the player at hand, the records so far, and how many
/// photos were found that were not on disk afterwards under a JPEG's name.
#[verifier::ext_equal]
pub struct ScrapeView {
    pub teams: Seq<TeamView>,
    pub team: nat,
    pub player: nat,
    pub report: Seq<RecordView>,
    pub found: nat,
}

/// Where a run stands, with the run itself.
pub enum ScrapeStepView {
    Team(ScrapeView),
    Player(ScrapeView),
    Pause(ScrapeView),
    Done(ScrapeView),
}

/// The run at the beginning of the team at hand, or over where there is none.
pub open spec fn at_team(run: ScrapeView) -> ScrapeStepView {
    if run.team < run.teams.len() {
        ScrapeStepView::Team(run)
    } else {
        ScrapeStepView::Done(run)
    }
}

/// The run at the player at hand, or at the next team where the team has no more.
pub open spec fn at_player(run: ScrapeView) -> ScrapeStepView {
    if run.player < run.teams[run.team as int].players.len() {
        ScrapeStepView::Player(run)
    } else {
        at_team(ScrapeView { team: run.team + 1, player: 0, ..run })
    }
}

/// The beginning of a run over teams.
pub open spec fn scrape_start(teams: Seq<TeamView>) -> ScrapeStepView {
    at_team(ScrapeView { teams, team: 0, player: 0, report: Seq::empty(), found: 0 })
}

/// The name of the team at hand.
pub open spec fn team_name(run: ScrapeView) -> Seq<char> {
    run.teams[run.team as int].name
}

/// The name of the player at hand.
pub open spec fn player_name(run: ScrapeView) -> Seq<char> {
    run.teams[run.team as int].players[run.player as int]
}

/// Once the player at hand was looked up, and it is known whether a JPEG of the player is on
/// disk. If it is, the record says `found`; else it is that of the lookup, or tells its error.
/// Either way a pause follows.
pub open spec fn after_lookup(
    run: ScrapeView,
    result: Result<RecordView, Seq<char>>,
    jpeg: Option<Seq<char>>,
) -> ScrapeStepView {
    let team = team_name(run);
    let player = player_name(run);
    let next = ScrapeView { player: run.player + 1, ..run };
    match jpeg {
        Some(path) => ScrapeStepView::Pause(
            ScrapeView {
                report: run.report.push(record(team, player, found(), None, None, Some(path))),
                ..next
            },
        ),
        None => ScrapeStepView::Pause(
            match result {
                Ok(r) => ScrapeView {
                    report: run.report.push(r),
                    found: run.found + if r.status == found() {
                        1nat
                    } else {
                        0nat
                    },
                    ..next
                },
                Err(e) => ScrapeView {
                    report: run.report.push(
                        record(team, player, "error: "@ + e, None, None, None),
                    ),
                    ..next
                },
            },
        ),
    }
}

#[derive(Debug)]
struct ScrapeRun {
    teams: Vec<TeamEntry>,
    team: usize,
    player: usize,
    report: Vec<PlayerResult>,
    found: usize,
}

impl ScrapeRun {
    spec fn model(self) -> ScrapeView {
        ScrapeView {
            teams: team_views(self.teams@),
            team: self.team as nat,
            player: self.player as nat,
            report: records(self.report@),
            found: self.found as nat,
        }
    }

    spec fn in_team(self) -> bool {
        &&& self.team < self.teams.len()
        &&& self.player <= self.teams@[self.team as int].players.len()
        &&& self.found <= self.report.len()
    }

    spec fn at_one(self) -> bool {
        &&& self.team < self.teams.len()
        &&& self.player < self.teams@[self.team as int].players.len()
        &&& self.found <= self.report.len()
    }

    fn to_team(self) -> (step: ScrapeStep)
        requires
            self.team <= self.teams.len(),
            self.player == 0,
            self.found <= self.report.len(),
        ensures
            step@ == at_team(self.model()),
    {
        if self.team < self.teams.len() {
            ScrapeStep::Team(ScrapeTeam { run: self })
        } else {
            let ghost run = self.model();
            let done = ScrapeReport { teams: self.teams, report: self.report, found: self.found };
            assert(done@ =~= run);
            ScrapeStep::Done(done)
        }
    }

    fn to_player(self) -> (step: ScrapeStep)
        requires
            self.in_team(),
        ensures
            step@ == at_player(self.model()),
    {
        let mut run = self;
        let ghost before = run.model();
        assert(before.teams[run.team as int] == run.teams@[run.team as int]@);
        if run.player < run.teams[run.team].players.len() {
            ScrapeStep::Player(ScrapePlayer { run })
        } else {
            run.team = run.team + 1;
            run.player = 0;
            run.to_team()
        }
    }
}

/// A run at the beginning of a team.
#[derive(Debug)]
pub struct ScrapeTeam {
    run: ScrapeRun,
}

/// A run that waits for a player to be looked up.
#[derive(Debug)]
pub struct ScrapePlayer {
    run: ScrapeRun,
}

/// A run that rests between two players.
#[derive(Debug)]
pub struct ScrapePause {
    run: ScrapeRun,
}

/// The teams and the records of a run that is over, and how many photos it found that were
/// not on disk afterwards under a JPEG's name.
#[derive(Debug)]
pub struct ScrapeReport {
    pub teams: Vec<TeamEntry>,
    pub report: Vec<PlayerResult>,
    pub found: usize,
}

/// Where a run stands.
#[derive(Debug)]
pub enum ScrapeStep {
    /// Make the team's directory.
    Team(ScrapeTeam),
    /// Look the player up.
    Player(ScrapePlayer),
    /// Wait before going on.
    Pause(ScrapePause),
    /// The run is over.
    Done(ScrapeReport),
}

impl View for ScrapeTeam {
    type V = ScrapeView;

    closed spec fn view(&self) -> ScrapeView {
        self.run.model()
    }
}

impl View for ScrapePlayer {
    type V = ScrapeView;

    closed spec fn view(&self) -> ScrapeView {
        self.run.model()
    }
}

impl View for ScrapePause {
    type V = ScrapeView;

    closed spec fn view(&self) -> ScrapeView {
        self.run.model()
    }
}

impl View for ScrapeReport {
    type V = ScrapeView;

    open spec fn view(&self) -> ScrapeView {
        ScrapeView {
            teams: team_views(self.teams@),
            team: self.teams@.len(),
            player: 0,
            report: records(self.report@),
            found: self.found as nat,
        }
    }
}

impl View for ScrapeStep {
    type V = ScrapeStepView;

    open spec fn view(&self) -> ScrapeStepView {
        match self {
            ScrapeStep::Team(s) => ScrapeStepView::Team(s@),
            ScrapeStep::Player(s) => ScrapeStepView::Player(s@),
            ScrapeStep::Pause(s) => ScrapeStepView::Pause(s@),
            ScrapeStep::Done(s) => ScrapeStepView::Done(s@),
        }
    }
}

impl ScrapeStep {
    /// Begins a run over teams.
    pub fn start(teams: Vec<TeamEntry>) -> (step: ScrapeStep)
        ensures
            step@ == scrape_start(team_views(teams@)),
    {
        let run = ScrapeRun { teams, team: 0, player: 0, report: Vec::new(), found: 0 };
        assert(records(run.report@) =~= Seq::empty());
        run.to_team()
    }
}

impl ScrapeTeam {
    #[verifier::type_invariant]
    spec fn valid(self) -> bool {
        self.run.in_team() && self.run.player == 0
    }

    /// The directory of the team's photos.
    pub fn dir(&self) -> (out: String)
        ensures
            out@ == safe_name(team_name(self@)),
    {
        proof {
            use_type_invariant(self);
        }
        sanitize_filename(&self.run.teams[self.run.team].name)
    }

    /// Goes on to the team's players.
    pub fn enter(self) -> (step: ScrapeStep)
        ensures
            step@ == at_player(self@),
    {
        proof {
            use_type_invariant(&self);
        }
        self.run.to_player()
    }
}

impl ScrapePlayer {
    #[verifier::type_invariant]
    spec fn valid(self) -> bool {
        self.run.at_one()
    }

    /// The place of the player at hand among all players, from one on.
    pub fn number(&self) -> (out: u128)
        ensures
            out == self@.report.len() + 1,
    {
        self.run.report.len() as u128 + 1
    }

    /// The lookup to make.
    pub fn lookup(&self) -> (out: PageSearch)
        ensures
            out.team@ == team_name(self@),
            out.player@ == player_name(self@),
    {
        proof {
            use_type_invariant(self);
        }
        let team = &self.run.teams[self.run.team];
        assert(texts(team.players@)[self.run.player as int]
            == team.players@[self.run.player as int]@);
        PageSearch::start(&team.name, &team.players[self.run.player])
    }

    /// The JPEG to look for on disk after the lookup.
    pub fn jpeg(&self) -> (out: PhotoFile)
        ensures
            out.dir@ == safe_name(team_name(self@)),
            out.file@ == photo_name(player_name(self@), "jpg"@),
    {
        let player = self.lookup();
        photo_file(&player.team, &player.player, "jpg")
    }

    /// Takes the result of the lookup, and the path of the player's JPEG where there is one.
    pub fn on_result(
        self,
        result: Result<PlayerResult, String>,
        jpeg: Option<String>,
    ) -> (step: ScrapeStep)
        ensures
            step@ == after_lookup(self@, lookup_text(result), text_of(jpeg)),
    {
        let at = self.lookup();
        proof {
            use_type_invariant(&self);
        }
        let mut run = self.run;
        let ghost before = run.model();
        run.player = run.player + 1;
        match jpeg {
            Some(path) => {
                let entry = PlayerResult {
                    team: at.team,
                    player: at.player,
                    status: "found".to_owned(),
                    wikipedia_title: None,
                    image_url: None,
                    saved_path: Some(path),
                };
                run.report.push(entry);
                assert(records(run.report@) =~= before.report.push(entry@));
                assert(run.report.len() == before.report.len() + 1);
            },
            None => {
                match result {
                    Ok(r) => {
                        let was_found: bool = same_text(&r.status, "found");
                        run.report.push(r);
                        assert(records(run.report@) =~= before.report.push(r@));
                        assert(run.report.len() == before.report.len() + 1);
                        if was_found {
                            run.found = run.found + 1;
                        }
                    },
                    Err(e) => {
                        let entry = PlayerResult {
                            team: at.team,
                            player: at.player,
                            status: error_status(&e),
                            wikipedia_title: None,
                            image_url: None,
                            saved_path: None,
                        };
                        run.report.push(entry);
                        assert(records(run.report@) =~= before.report.push(entry@));
                        assert(run.report.len() == before.report.len() + 1);
                    },
                }
            },
        }
        ScrapeStep::Pause(ScrapePause { run })
    }
}

impl ScrapePause {
    #[verifier::type_invariant]
    spec fn valid(self) -> bool {
        self.run.in_team()
    }

    /// How long to wait.
    pub fn millis(&self) -> (out: u64)
        ensures
            out == REQUEST_DELAY_MS,
            out == 5_000,
    {
        REQUEST_DELAY_MS
    }

    /// Goes on after the wait.
    pub fn resume(self) -> (step: ScrapeStep)
        ensures
            step@ == at_player(self@),
    {
        proof {
            use_type_invariant(&self);
        }
        self.run.to_player()
    }
}

/// What a run is told.
pub enum ScrapeEvent {
    /// The team's directory is there.
    Entered,
    /// What each request of the lookup would be answered, in turn, and the path of the
    /// player's JPEG where it is on disk afterwards.
    LookedUp {
        search: Result<Option<Seq<char>>, Seq<char>>,
        image: Result<Option<Seq<char>>, Seq<char>>,
        download: Result<Seq<char>, Seq<char>>,
        jpeg: Option<Seq<char>>,
    },
    /// The wait is over.
    Resumed,
}

/// Whether the event is the one that the run waits for.
pub open spec fn awaits(step: ScrapeStepView, event: ScrapeEvent) -> bool {
    match (step, event) {
        (ScrapeStepView::Team(_), ScrapeEvent::Entered) => true,
        (ScrapeStepView::Player(_), ScrapeEvent::LookedUp { .. }) => true,
        (ScrapeStepView::Pause(_), ScrapeEvent::Resumed) => true,
        _ => false,
    }
}

/// Where the run stands after an event; other events than the awaited one change nothing.
pub open spec fn react(step: ScrapeStepView, event: ScrapeEvent) -> ScrapeStepView {
    match (step, event) {
        (ScrapeStepView::Team(run), ScrapeEvent::Entered) => at_player(run),
        (
            ScrapeStepView::Player(run),
            ScrapeEvent::LookedUp { search, image, download, jpeg },
        ) => match lookup_ending(team_name(run), player_name(run), search, image, download) {
            LookupView::Done(result) => after_lookup(run, result, jpeg),
            _ => step,
        },
        (ScrapeStepView::Pause(run), ScrapeEvent::Resumed) => at_player(run),
        _ => step,
    }
}

/// Where a run over teams stands after a sequence of events.
pub open spec fn scrape_after(teams: Seq<TeamView>, events: Seq<ScrapeEvent>) -> ScrapeStepView
    decreases events.len(),
{
    if events.len() == 0 {
        scrape_start(teams)
    } else {
        react(scrape_after(teams, events.drop_last()), events.last())
    }
}

/// The run that stands at a step.
pub open spec fn run_at(step: ScrapeStepView) -> ScrapeView {
    match step {
        ScrapeStepView::Team(run) => run,
        ScrapeStepView::Player(run) => run,
        ScrapeStepView::Pause(run) => run,
        ScrapeStepView::Done(run) => run,
    }
}

/// The players that a run has behind it.
pub open spec fn passed(run: ScrapeView) -> Seq<(Seq<char>, Seq<char>)> {
    roster(run.teams.take(run.team as int)) + if run.team < run.teams.len() {
        squad(run.teams[run.team as int], run.player as int)
    } else {
        Seq::empty()
    }
}

/// How many records say `found`.
pub open spec fn found_count(report: Seq<RecordView>) -> nat
    decreases report.len(),
{
    if report.len() == 0 {
        0
    } else {
        found_count(report.drop_last()) + if report.last().status == found() {
            1nat
        } else {
            0nat
        }
    }
}

/// What holds of a run over teams at every step: there is one record for each player that
/// was passed, in order and about that player; a record has a path exactly where it says
/// `found`; and no more are counted as found than say so.
pub open spec fn is_complete(teams: Seq<TeamView>, step: ScrapeStepView) -> bool {
    let run = run_at(step);
    &&& run.teams == teams
    &&& keys(run.report) == passed(run)
    &&& forall|i: int|
        0 <= i < run.report.len() ==> ((#[trigger] run.report[i]).saved_path is Some
            <==> run.report[i].status == found())
    &&& run.found <= found_count(run.report)
    &&& match step {
        ScrapeStepView::Team(_) => run.team < teams.len() && run.player == 0,
        ScrapeStepView::Player(_) => run.team < teams.len() && run.player
            < teams[run.team as int].players.len(),
        ScrapeStepView::Pause(_) => run.team < teams.len() && run.player
            <= teams[run.team as int].players.len(),
        ScrapeStepView::Done(_) => run.team == teams.len() && run.player == 0,
    }
}

/// Whatever a run over teams is told, its report has one record for each player passed so
/// far, in order.
pub proof fn scrape_is_complete(teams: Seq<TeamView>, events: Seq<ScrapeEvent>)
    ensures
        is_complete(teams, scrape_after(teams, events)),
    decreases events.len(),
{
    if events.len() == 0 {
        let run = ScrapeView { teams, team: 0, player: 0, report: Seq::empty(), found: 0 };
        assert(teams.take(0).len() == 0);
        assert(keys(run.report) =~= passed(run));
    } else {
        scrape_is_complete(teams, events.drop_last());
        let step = scrape_after(teams, events.drop_last());
        match (step, events.last()) {
            (
                ScrapeStepView::Player(run),
                ScrapeEvent::LookedUp { search, image, download, jpeg },
            ) => {
                let team = team_name(run);
                let player = player_name(run);
                lookup_ends(team, player, search, image, download);
                failed_is_not_found();
                match lookup_ending(team, player, search, image, download) {
                    LookupView::Done(result) => {
                        let now = match jpeg {
                            Some(path) => record(team, player, found(), None, None, Some(path)),
                            None => match result {
                                Ok(r) => r,
                                Err(e) => record(team, player, "error: "@ + e, None, None, None),
                            },
                        };
                        let report = run.report.push(now);
                        let next = ScrapeView { player: run.player + 1, report, ..run };
                        assert(report.drop_last() =~= run.report);
                        assert(keys(report) =~= keys(run.report).push((team, player)));
                        assert(passed(next) =~= passed(run).push((team, player)));
                    },
                    _ => {},
                }
            },
            (ScrapeStepView::Team(run), ScrapeEvent::Entered) => {
                moved_on(teams, run);
            },
            (ScrapeStepView::Pause(run), ScrapeEvent::Resumed) => {
                moved_on(teams, run);
            },
            _ => {},
        }
    }
}

/// Moving on to the next player or team keeps a run complete.
proof fn moved_on(teams: Seq<TeamView>, run: ScrapeView)
    requires
        is_complete(teams, ScrapeStepView::Pause(run)),
    ensures
        is_complete(teams, at_player(run)),
{
    let team = teams[run.team as int];
    if run.player == team.players.len() {
        let next = ScrapeView { team: run.team + 1, player: 0, ..run };
        assert(teams.take(run.team as int + 1).drop_last() =~= teams.take(run.team as int));
        assert(passed(next) =~= passed(run));
    }
}

/// Between any two players the run rests: a lookup is always followed by a pause.
pub proof fn lookup_is_followed_by_pause(
    teams: Seq<TeamView>,
    events: Seq<ScrapeEvent>,
    event: ScrapeEvent,
)
    requires
        scrape_after(teams, events) is Player,
        awaits(scrape_after(teams, events), event),
    ensures
        scrape_after(teams, events.push(event)) is Pause,
{
    assert(events.push(event).drop_last() =~= events);
    match (scrape_after(teams, events), event) {
        (
            ScrapeStepView::Player(run),
            ScrapeEvent::LookedUp { search, image, download, jpeg },
        ) => {
            lookup_ends(team_name(run), player_name(run), search, image, download);
        },
        _ => {},
    }
}

/// A run that is over has one record for each player of each team, in order, and no other.
pub proof fn finished_report_covers_roster(teams: Seq<TeamView>, events: Seq<ScrapeEvent>)
    requires
        scrape_after(teams, events) is Done,
    ensures
        keys(run_at(scrape_after(teams, events)).report) == roster(teams),
        run_at(scrape_after(teams, events)).report.len() == player_count(teams),
{
    scrape_is_complete(teams, events);
    let run = run_at(scrape_after(teams, events));
    assert(teams.take(teams.len() as int) =~= teams);
    assert(passed(run) =~= roster(teams));
    roster_len(teams);
}

proof fn roster_len(teams: Seq<TeamView>)
    ensures
        roster(teams).len() == player_count(teams),
    decreases teams.len(),
{
    if teams.len() > 0 {
        roster_len(teams.drop_last());
    }
}

/// Every miss is on the list: after a run, a player of a team is on the list of missing
/// photos, with the status of its record, exactly where that record does not say `found`,
/// as long as no missing record holds a line feed.
pub proof fn every_miss_is_listed(teams: Seq<TeamView>, events: Seq<ScrapeEvent>, i: int)
    requires
        scrape_after(teams, events) is Done,
        0 <= i < roster(teams).len(),
        ({
            let report = run_at(scrape_after(teams, events)).report;
            forall|k: int|
                0 <= k < report.len() && is_missing(#[trigger] report[k], false) ==> is_one_line(
                    report[k],
                )
        }),
    ensures
        ({
            let report = run_at(scrape_after(teams, events)).report;
            let list = missing_entries(csv_text(report, false));
            &&& (report[i].team, report[i].player) == roster(teams)[i]
            &&& report[i].status != found() ==> list.contains(listed(report[i]))
            &&& forall|entry: MissingView| #[trigger]
                list.contains(entry) ==> exists|k: int|
                    {
                        &&& 0 <= k < report.len()
                        &&& is_missing(#[trigger] report[k], false)
                        &&& listed(report[k]) == entry
                    }
        }),
{
    let report = run_at(scrape_after(teams, events)).report;
    finished_report_covers_roster(teams, events);
    assert(keys(report)[i] == (report[i].team, report[i].player));
    list_holds_the_missing(report, false);
    if report[i].status != found() {
        assert(is_missing(report[i], false));
    }
}

/// How much the teams from one on take at most.
pub open spec fn teams_left(teams: Seq<TeamView>, from: nat) -> nat
    decreases teams.len() - from,
{
    if from >= teams.len() {
        0
    } else {
        1 + 2 * teams[from as int].players.len() + teams_left(teams, from + 1)
    }
}

/// How much a run still has to do at most.
pub open spec fn work_left(step: ScrapeStepView) -> int {
    let run = run_at(step);
    let players = 2 * (run.teams[run.team as int].players.len() - run.player) + teams_left(
        run.teams,
        run.team + 1,
    );
    match step {
        ScrapeStepView::Team(_) => players + 1,
        ScrapeStepView::Player(_) => players,
        ScrapeStepView::Pause(_) => players + 1,
        ScrapeStepView::Done(_) => 0,
    }
}

/// Each awaited event brings a run nearer to its end.
pub proof fn scrape_makes_progress(
    teams: Seq<TeamView>,
    events: Seq<ScrapeEvent>,
    event: ScrapeEvent,
)
    requires
        awaits(scrape_after(teams, events), event),
    ensures
        0 <= work_left(scrape_after(teams, events.push(event))) < work_left(
            scrape_after(teams, events),
        ),
{
    assert(events.push(event).drop_last() =~= events);
    scrape_is_complete(teams, events);
    scrape_is_complete(teams, events.push(event));
    match (scrape_after(teams, events), event) {
        (
            ScrapeStepView::Player(run),
            ScrapeEvent::LookedUp { search, image, download, jpeg },
        ) => {
            lookup_ends(team_name(run), player_name(run), search, image, download);
        },
        _ => {},
    }
}

/// Where no JPEG is on disk and the lookup ended with a record, that record is added to the
/// report as it is, in every field, and counted exactly where it says `found`. The run goes on
/// to the next player of the team, and nothing else changes.
pub proof fn lookup_is_entered_as_it_is(run: ScrapeView, r: RecordView)
    ensures
        after_lookup(run, Ok(r), None) matches ScrapeStepView::Pause(next) && {
            &&& next.report.len() == run.report.len() + 1
            &&& forall|i: int|
                0 <= i < run.report.len() ==> #[trigger] next.report[i] == run.report[i]
            &&& next.report.last() == r
            &&& r.status == "found"@ ==> next.found == run.found + 1
            &&& r.status != "found"@ ==> next.found == run.found
            &&& next.player == run.player + 1
            &&& next.team == run.team
            &&& next.teams == run.teams
        },
{
}

/// Where no JPEG is on disk and the lookup ended with an error, the record added to the report
/// is about the player at hand and says `error: ` and the message.
pub proof fn lookup_error_is_entered(run: ScrapeView, message: Seq<char>)
    ensures
        after_lookup(run, Err(message), None) matches ScrapeStepView::Pause(next) && {
            &&& next.report == run.report.push(
                RecordView {
                    team: run.teams[run.team as int].name,
                    player: run.teams[run.team as int].players[run.player as int],
                    status: "error: "@ + message,
                    wikipedia_title: None,
                    image_url: None,
                    saved_path: None,
                },
            )
            &&& next.found == run.found
            &&& next.player == run.player + 1
            &&& next.team == run.team
            &&& next.teams == run.teams
        },
{
}

/// Where a JPEG of the player is on disk, the record added to the report says `found` with the
/// JPEG's path, whatever the lookup ended with, and is not counted.
pub proof fn jpeg_on_disk_is_entered(
    run: ScrapeView,
    result: Result<RecordView, Seq<char>>,
    path: Seq<char>,
)
    ensures
        after_lookup(run, result, Some(path)) matches ScrapeStepView::Pause(next) && {
            &&& next.report == run.report.push(
                RecordView {
                    team: run.teams[run.team as int].name,
                    player: run.teams[run.team as int].players[run.player as int],
                    status: "found"@,
                    wikipedia_title: None,
                    image_url: None,
                    saved_path: Some(path),
                },
            )
            &&& next.found == run.found
            &&& next.player == run.player + 1
            &&& next.team == run.team
            &&& next.teams == run.teams
        },
{
}

/// What the report says of a player, by the answers to the requests of the lookup, where no
/// JPEG is on disk: `no_wiki_page` exactly where the search found no page; `no_image` with the
/// page's title where the page had no image; `download_failed` with the title and the URL where
/// the download failed; `found` with the title, the URL and the path where it did not; and the
/// error where one of the two requests failed.
pub proof fn player_is_recorded_by_answers(
    run: ScrapeView,
    search: Result<Option<Seq<char>>, Seq<char>>,
    image: Result<Option<Seq<char>>, Seq<char>>,
    download: Result<Seq<char>, Seq<char>>,
)
    ensures
        ({
            let told = ScrapeEvent::LookedUp { search, image, download, jpeg: None };
            let report = run_at(react(ScrapeStepView::Player(run), told)).report;
            let now = report.last();
            let title = search->Ok_0;
            let url = image->Ok_0;
            &&& report.len() == run.report.len() + 1
            &&& report.drop_last() == run.report
            &&& now.team == run.teams[run.team as int].name
            &&& now.player == run.teams[run.team as int].players[run.player as int]
            &&& now.status == "no_wiki_page"@ <==> search is Ok && title is None
            &&& search is Ok && title is None ==> now.wikipedia_title is None && now.image_url
                is None && now.saved_path is None
            &&& search is Ok && title is Some && image is Ok ==> now.wikipedia_title == title
                && now.image_url == url
            &&& search is Ok && title is Some && image is Ok && url is None ==> now.status
                == "no_image"@ && now.saved_path is None
            &&& search is Ok && title is Some && image is Ok && url is Some ==> match download {
                Ok(path) => now.status == "found"@ && now.saved_path == Some(path),
                Err(e) => now.status == "download_failed: "@ + e && now.saved_path is None,
            }
            &&& search matches Err(e) ==> now.status == "error: "@ + e
            &&& search is Ok && title is Some ==> (image matches Err(e) ==> now.status
                == "error: "@ + e)
            &&& search is Err || (title is Some && image is Err) ==> now.wikipedia_title is None
                && now.image_url is None && now.saved_path is None
        }),
{
    let team = run.teams[run.team as int].name;
    let player = run.teams[run.team as int].players[run.player as int];
    let told = ScrapeEvent::LookedUp { search, image, download, jpeg: None };
    lookup_ends(team, player, search, image, download);
    statuses_differ();
    assert(run_at(react(ScrapeStepView::Player(run), told)).report.drop_last() =~= run.report);
}

proof fn statuses_differ()
    ensures
        "no_image"@ != "no_wiki_page"@,
        "found"@ != "no_wiki_page"@,
        forall|e: Seq<char>| #[trigger] ("download_failed: "@ + e) != "no_wiki_page"@,
        forall|e: Seq<char>| #[trigger] ("error: "@ + e) != "no_wiki_page"@,
{
    reveal_strlit("no_image");
    reveal_strlit("found");
    reveal_strlit("no_wiki_page");
    reveal_strlit("download_failed: ");
    reveal_strlit("error: ");
    assert("no_image"@.len() == 8);
    assert("found"@.len() == 5);
    assert("no_wiki_page"@.len() == 12);
    assert("no_wiki_page"@[0] == 'n');
    assert forall|e: Seq<char>| #[trigger] ("download_failed: "@ + e) != "no_wiki_page"@ by {
        assert(("download_failed: "@ + e)[0] == 'd');
    }
    assert forall|e: Seq<char>| #[trigger] ("error: "@ + e) != "no_wiki_page"@ by {
        assert(("error: "@ + e)[0] == 'e');
    }
}

/// A run begins with the first team and nothing recorded, takes the players of a team in turn,
/// and after the last goes on to the next team; behind the last team it is over.
pub proof fn players_come_in_turn(teams: Seq<TeamView>, run: ScrapeView)
    ensures
        run_at(scrape_start(teams)) == (ScrapeView {
            teams,
            team: 0,
            player: 0,
            report: Seq::empty(),
            found: 0,
        }),
        teams.len() > 0 <==> scrape_start(teams) is Team,
        teams.len() == 0 <==> scrape_start(teams) is Done,
        run.player < run.teams[run.team as int].players.len() ==> at_player(run)
            == ScrapeStepView::Player(run),
        run.player >= run.teams[run.team as int].players.len() ==> {
            &&& run_at(at_player(run)) == (ScrapeView { team: run.team + 1, player: 0, ..run })
            &&& run.team + 1 < run.teams.len() <==> at_player(run) is Team
            &&& run.team + 1 >= run.teams.len() <==> at_player(run) is Done
        },
        team_name(run) == run.teams[run.team as int].name,
        player_name(run) == run.teams[run.team as int].players[run.player as int],
{
}

/// Without a name every team is asked for; with one, each team of exactly that name, and the
/// order stays.
pub proof fn teams_are_picked_by_name(
    teams: Seq<TeamView>,
    team: TeamView,
    wanted: Option<Seq<char>>,
)
    ensures
        wanted_teams(teams, None) == teams,
        wanted_teams(Seq::empty(), wanted) == Seq::<TeamView>::empty(),
        wanted is Some && team.name == wanted->0 ==> wanted_teams(teams.push(team), wanted)
            == wanted_teams(teams, wanted).push(team),
        wanted is Some && team.name != wanted->0 ==> wanted_teams(teams.push(team), wanted)
            == wanted_teams(teams, wanted),
{
    reveal(Seq::filter);
    assert(teams.push(team).drop_last() =~= teams);
    no_name_wants_all(teams);
}

proof fn no_name_wants_all(teams: Seq<TeamView>)
    ensures
        wanted_teams(teams, None) == teams,
    decreases teams.len(),
{
    reveal(Seq::filter);
    if teams.len() > 0 {
        no_name_wants_all(teams.drop_last());
        assert(teams =~= teams.drop_last().push(teams.last()));
    } else {
        assert(wanted_teams(teams, None) =~= teams);
    }
}

/// The players of the teams, and their number, grow by the players of each further team.
pub proof fn teams_add_up(teams: Seq<TeamView>, team: TeamView)
    ensures
        player_count(Seq::empty()) == 0,
        player_count(teams.push(team)) == player_count(teams) + team.players.len(),
        roster(Seq::empty()).len() == 0,
        roster(teams.push(team)) == roster(teams) + team.players.map_values(
            |player: Seq<char>| (team.name, player),
        ),
{
    assert(teams.push(team).drop_last() =~= teams);
    assert(squad(team, team.players.len() as int) =~= team.players.map_values(
        |player: Seq<char>| (team.name, player),
    ));
}

/// Teams are shown as they are, in order.
pub proof fn team_views_show_the_teams(teams: Seq<TeamEntry>, i: int)
    requires
        0 <= i < teams.len(),
    ensures
        team_views(teams).len() == teams.len(),
        team_views(teams)[i].name == teams[i].name@,
        team_views(teams)[i].players.len() == teams[i].players@.len(),
        forall|k: int|
            0 <= k < teams[i].players@.len() ==> team_views(teams)[i].players[k]
                == (#[trigger] teams[i].players@[k])@,
{
}

/// A finished run is shown as it is.
pub proof fn report_shows_what_it_holds(report: ScrapeReport)
    ensures
        report@.teams == team_views(report.teams@),
        report@.report == records(report.report@),
        report@.found == report.found,
        ScrapeStep::Done(report)@ == ScrapeStepView::Done(report@),
{
}

} // verus!
