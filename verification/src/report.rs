//! The report: one record per player, with the outcome of the search for a photo.

use crate::text::{same_text, starts_with};
use vstd::prelude::*;

verus! {

/// The outcome of the search for one player's photo.
#[derive(Debug)]
pub struct PlayerResult {
    pub team: String,
    pub player: String,
    pub status: String,
    pub wikipedia_title: Option<String>,
    pub image_url: Option<String>,
    pub saved_path: Option<String>,
}

/// What a [`PlayerResult`] holds, as text.
#[verifier::ext_equal]
pub struct RecordView {
    pub team: Seq<char>,
    pub player: Seq<char>,
    pub status: Seq<char>,
    pub wikipedia_title: Option<Seq<char>>,
    pub image_url: Option<Seq<char>>,
    pub saved_path: Option<Seq<char>>,
}

impl View for PlayerResult {
    type V = RecordView;

    open spec fn view(&self) -> RecordView {
        RecordView {
            team: self.team@,
            player: self.player@,
            status: self.status@,
            wikipedia_title: text_of(self.wikipedia_title),
            image_url: text_of(self.image_url),
            saved_path: text_of(self.saved_path),
        }
    }
}

/// The text of an optional string.
pub open spec fn text_of(s: Option<String>) -> Option<Seq<char>> {
    match s {
        Some(s) => Some(s@),
        None => None,
    }
}

/// The records of a report, as text.
pub open spec fn records(report: Seq<PlayerResult>) -> Seq<RecordView> {
    Seq::new(report.len(), |i: int| report[i]@)
}

/// The team and player that each record of a report is about.
pub open spec fn keys(report: Seq<RecordView>) -> Seq<(Seq<char>, Seq<char>)> {
    Seq::new(report.len(), |i: int| (report[i].team, report[i].player))
}

/// A report once an outcome for one player is entered: the first record about the player
/// takes the new status, and the new URL and path where there are any; where no record is
/// about the player, one is added at the end.
pub open spec fn with_outcome(
    report: Seq<RecordView>,
    team: Seq<char>,
    player: Seq<char>,
    status: Seq<char>,
    image_url: Option<Seq<char>>,
    saved_path: Option<Seq<char>>,
) -> Seq<RecordView> {
    match keys(report).index_of_first((team, player)) {
        Some(i) => report.update(
            i,
            RecordView {
                status,
                image_url: if image_url is Some {
                    image_url
                } else {
                    report[i].image_url
                },
                saved_path: if saved_path is Some {
                    saved_path
                } else {
                    report[i].saved_path
                },
                ..report[i]
            },
        ),
        None => report.push(
            RecordView { team, player, status, wikipedia_title: None, image_url, saved_path },
        ),
    }
}

/// Enters an outcome for one player into the report.
pub fn update_report_entry(
    report: &mut Vec<PlayerResult>,
    team: &str,
    player: &str,
    status: &str,
    image_url: Option<String>,
    saved_path: Option<String>,
)
    ensures
        records(final(report)@) == with_outcome(
            records(old(report)@),
            team@,
            player@,
            status@,
            text_of(image_url),
            text_of(saved_path),
        ),
{
    let ghost before = records(report@);
    let ghost wanted = (team@, player@);
    let mut i: usize = 0;
    while i < report.len()
        invariant
            i <= report@.len(),
            report@ == old(report)@,
            before == records(report@),
            wanted == (team@, player@),
            forall|k: int| 0 <= k < i ==> keys(before)[k] != wanted,
        decreases report@.len() - i,
    {
        if same_text(&report[i].team, team) && same_text(&report[i].player, player) {
            proof {
                keys(before).index_of_first_ensures(wanted);
                assert(keys(before)[i as int] == wanted);
            }
            report[i].status = status.to_owned();
            if image_url.is_some() {
                report[i].image_url = image_url;
            }
            if saved_path.is_some() {
                report[i].saved_path = saved_path;
            }
            assert(records(report@) =~= with_outcome(
                before,
                team@,
                player@,
                status@,
                text_of(image_url),
                text_of(saved_path),
            ));
            return;
        }
        assert(keys(before)[i as int] != wanted);
        i = i + 1;
    }
    proof {
        keys(before).index_of_first_ensures(wanted);
    }
    report.push(
        PlayerResult {
            team: team.to_owned(),
            player: player.to_owned(),
            status: status.to_owned(),
            wikipedia_title: None,
            image_url,
            saved_path,
        },
    );
    assert(records(report@) =~= with_outcome(
        before,
        team@,
        player@,
        status@,
        text_of(image_url),
        text_of(saved_path),
    ));
}

/// Entering an outcome leaves every record about another player as it was, in its place,
/// and changes no record's team, player or page title.
pub proof fn outcome_leaves_others(
    report: Seq<RecordView>,
    team: Seq<char>,
    player: Seq<char>,
    status: Seq<char>,
    image_url: Option<Seq<char>>,
    saved_path: Option<Seq<char>>,
)
    ensures
        ({
            let after = with_outcome(report, team, player, status, image_url, saved_path);
            &&& report.len() <= after.len() <= report.len() + 1
            &&& keys(report) == keys(after).take(report.len() as int)
            &&& forall|i: int|
                0 <= i < report.len() ==> {
                    &&& (#[trigger] after[i]).wikipedia_title == report[i].wikipedia_title
                    &&& keys(report)[i] != (team, player) ==> after[i] == report[i]
                }
        }),
{
    keys(report).index_of_first_ensures((team, player));
    let after = with_outcome(report, team, player, status, image_url, saved_path);
    assert(keys(report) =~= keys(after).take(report.len() as int));
}

/// Entering an outcome leaves each record that was there about its player.
proof fn outcome_keeps_keys(
    report: Seq<RecordView>,
    team: Seq<char>,
    player: Seq<char>,
    status: Seq<char>,
    image_url: Option<Seq<char>>,
    saved_path: Option<Seq<char>>,
)
    ensures
        ({
            let after = with_outcome(report, team, player, status, image_url, saved_path);
            forall|k: int| 0 <= k < report.len() ==> keys(after)[k] == keys(report)[k]
        }),
{
    let after = with_outcome(report, team, player, status, image_url, saved_path);
    outcome_leaves_others(report, team, player, status, image_url, saved_path);
    assert forall|k: int| 0 <= k < report.len() implies keys(after)[k] == keys(report)[k] by {
        assert(keys(after).take(report.len() as int)[k] == keys(report)[k]);
    }
}

/// After an outcome is entered, the first record about the player has the new status, and
/// the new URL and path where they were given.
pub proof fn outcome_is_entered(
    report: Seq<RecordView>,
    team: Seq<char>,
    player: Seq<char>,
    status: Seq<char>,
    image_url: Option<Seq<char>>,
    saved_path: Option<Seq<char>>,
)
    ensures
        ({
            let after = with_outcome(report, team, player, status, image_url, saved_path);
            &&& keys(after).index_of_first((team, player)) matches Some(i)
            &&& 0 <= i < after.len()
            &&& after[i].team == team
            &&& after[i].player == player
            &&& after[i].status == status
            &&& image_url is Some ==> after[i].image_url == image_url
            &&& saved_path is Some ==> after[i].saved_path == saved_path
        }),
{
    let after = with_outcome(report, team, player, status, image_url, saved_path);
    let key = (team, player);
    keys(report).index_of_first_ensures(key);
    keys(after).index_of_first_ensures(key);
    outcome_leaves_others(report, team, player, status, image_url, saved_path);
    outcome_keeps_keys(report, team, player, status, image_url, saved_path);
    match keys(report).index_of_first(key) {
        Some(i) => {
            assert(keys(after)[i] == key);
        },
        None => {
            assert(keys(after)[report.len() as int] == key);
        },
    }
}

/// Entering an outcome for one player leaves the first record about another as it was.
pub proof fn outcome_leaves_first_records(
    report: Seq<RecordView>,
    team: Seq<char>,
    player: Seq<char>,
    status: Seq<char>,
    image_url: Option<Seq<char>>,
    saved_path: Option<Seq<char>>,
    other: (Seq<char>, Seq<char>),
)
    requires
        other != (team, player),
    ensures
        ({
            let after = with_outcome(report, team, player, status, image_url, saved_path);
            &&& keys(after).index_of_first(other) == keys(report).index_of_first(other)
            &&& keys(report).index_of_first(other) matches Some(i) ==> after[i] == report[i]
        }),
{
    let after = with_outcome(report, team, player, status, image_url, saved_path);
    keys(report).index_of_first_ensures((team, player));
    keys(report).index_of_first_ensures(other);
    keys(after).index_of_first_ensures(other);
    outcome_leaves_others(report, team, player, status, image_url, saved_path);
    outcome_keeps_keys(report, team, player, status, image_url, saved_path);
    match keys(report).index_of_first(other) {
        Some(i) => {
            assert(keys(after)[i] == other);
        },
        None => {
            assert forall|k: int| 0 <= k < after.len() implies keys(after)[k] != other by {
                if k < report.len() {
                    assert(keys(report).contains(keys(report)[k]));
                }
            }
        },
    }
}

/// A report with at most one record per player keeps at most one record per player.
pub proof fn outcome_keeps_players_distinct(
    report: Seq<RecordView>,
    team: Seq<char>,
    player: Seq<char>,
    status: Seq<char>,
    image_url: Option<Seq<char>>,
    saved_path: Option<Seq<char>>,
)
    requires
        keys(report).no_duplicates(),
    ensures
        keys(
            with_outcome(report, team, player, status, image_url, saved_path),
        ).no_duplicates(),
{
    let after = with_outcome(report, team, player, status, image_url, saved_path);
    keys(report).index_of_first_ensures((team, player));
    outcome_leaves_others(report, team, player, status, image_url, saved_path);
    outcome_keeps_keys(report, team, player, status, image_url, saved_path);
}

/// The status of a player whose photo is saved.
pub open spec fn found() -> Seq<char> {
    "found"@
}

/// The status of a player whose photo was saved from an image search.
pub open spec fn found_via_google() -> Seq<char> {
    "found_via_google"@
}

/// Whether the status says that an image was located and its download failed.
pub open spec fn is_download_failed(status: Seq<char>) -> bool {
    "download_failed"@.is_prefix_of(status)
}

/// Whether the status says that the lookup itself failed.
pub open spec fn is_lookup_error(status: Seq<char>) -> bool {
    "error:"@.is_prefix_of(status)
}

/// Whether the status says that a download failed.
pub fn status_is_download_failed(status: &str) -> (yes: bool)
    ensures
        yes == is_download_failed(status@),
{
    starts_with(status, "download_failed")
}

/// Whether the status says that a lookup failed.
pub fn status_is_lookup_error(status: &str) -> (yes: bool)
    ensures
        yes == is_lookup_error(status@),
{
    starts_with(status, "error:")
}

/// A JSON syntax or shape error, as the JSON parser reports it.
#[verifier::external_type_specification]
#[verifier::external_body]
pub struct JsonErrorSpec(serde_json::Error);

/// The array that `serde_json::from_str` reads from a text as a `Vec` of JSON values, each
/// element given by its members that are strings; `None` where it reads no array.
pub uninterp spec fn json_string_members(text: Seq<char>) -> Option<
    Seq<Map<Seq<char>, Seq<char>>>,
>;

/// Whether a row holds the string members of a JSON value under the given names, in order.
pub open spec fn members_of(
    row: Seq<Option<String>>,
    value: Map<Seq<char>, Seq<char>>,
    names: Seq<&str>,
) -> bool {
    &&& row.len() == names.len()
    &&& forall|j: int| 0 <= j < row.len() ==> text_of(#[trigger] row[j]) == value.get(names[j]@)
}

/// Calls `serde_json::from_str` for a `Vec<serde_json::Value>`, and on each element indexing
/// by name and `Value::as_str`. It gives one row per element, in order, with one field per
/// name: the element's member of that name where that is a string, and nothing where it is
/// missing, not a string, or the element no object. An error comes exactly where the text is
/// not a JSON array.
#[verifier::external_body]
fn json_members(text: &str, names: &Vec<&str>) -> (out: Result<
    Vec<Vec<Option<String>>>,
    serde_json::Error,
>)
    ensures
        out is Ok <==> json_string_members(text@) is Some,
        out matches Ok(rows) ==> {
            &&& rows@.len() == json_string_members(text@)->0.len()
            &&& forall|i: int|
                0 <= i < rows@.len() ==> members_of(
                    #[trigger] rows@[i]@,
                    json_string_members(text@)->0[i],
                    names@,
                )
        },
{
    let values: Vec<serde_json::Value> = serde_json::from_str(text)?;
    let member = |value: &serde_json::Value, name: &str| value[name].as_str().map(str::to_string);
    Ok(values.iter().map(|v| names.iter().map(|name| member(v, name)).collect()).collect())
}

/// The members of a report's JSON object that make up a record, where they are strings.
#[derive(Debug)]
pub struct RecordFields {
    pub team: Option<String>,
    pub player: Option<String>,
    pub status: Option<String>,
    pub wikipedia_title: Option<String>,
    pub image_url: Option<String>,
    pub saved_path: Option<String>,
}

/// The text, or the empty text where there is none.
pub open spec fn or_empty(text: Option<Seq<char>>) -> Seq<char> {
    match text {
        Some(text) => text,
        None => Seq::empty(),
    }
}

/// The record that a set of fields stands for: the first three are empty where missing.
pub open spec fn record_view(
    team: Option<Seq<char>>,
    player: Option<Seq<char>>,
    status: Option<Seq<char>>,
    wikipedia_title: Option<Seq<char>>,
    image_url: Option<Seq<char>>,
    saved_path: Option<Seq<char>>,
) -> RecordView {
    RecordView {
        team: or_empty(team),
        player: or_empty(player),
        status: or_empty(status),
        wikipedia_title,
        image_url,
        saved_path,
    }
}

/// The record that a report's JSON object stands for.
pub open spec fn record_of_object(object: Map<Seq<char>, Seq<char>>) -> RecordView {
    record_view(
        object.get("team"@),
        object.get("player"@),
        object.get("status"@),
        object.get("wikipedia_title"@),
        object.get("image_url"@),
        object.get("saved_path"@),
    )
}

fn string_or_empty(s: Option<String>) -> (out: String)
    ensures
        out@ == or_empty(text_of(s)),
{
    match s {
        Some(s) => s,
        None => String::new(),
    }
}

/// Makes a record of a report's fields.
pub fn record_of_fields(fields: RecordFields) -> (out: PlayerResult)
    ensures
        out@ == record_view(
            text_of(fields.team),
            text_of(fields.player),
            text_of(fields.status),
            text_of(fields.wikipedia_title),
            text_of(fields.image_url),
            text_of(fields.saved_path),
        ),
{
    PlayerResult {
        team: string_or_empty(fields.team),
        player: string_or_empty(fields.player),
        status: string_or_empty(fields.status),
        wikipedia_title: fields.wikipedia_title,
        image_url: fields.image_url,
        saved_path: fields.saved_path,
    }
}

/// Why a report could not be read.
#[derive(Debug)]
pub enum ReportError {
    /// The text is not a JSON array.
    Json(serde_json::Error),
}

/// Reads a report from its JSON text, taking from each element what is there: a member that
/// is missing or not a string counts as absent.
pub fn read_report(text: &str) -> (out: Result<Vec<PlayerResult>, ReportError>)
    ensures
        out is Ok <==> json_string_members(text@) is Some,
        out matches Ok(report) ==> records(report@) == json_string_members(text@)->0.map_values(
            |object: Map<Seq<char>, Seq<char>>| record_of_object(object),
        ),
{
    let mut names: Vec<&str> = Vec::new();
    names.push("team");
    names.push("player");
    names.push("status");
    names.push("wikipedia_title");
    names.push("image_url");
    names.push("saved_path");
    let rows = match json_members(text, &names) {
        Ok(rows) => rows,
        Err(e) => return Err(ReportError::Json(e)),
    };
    let ghost objects = json_string_members(text@)->0;
    let mut report: Vec<PlayerResult> = Vec::new();
    let mut i: usize = 0;
    while i < rows.len()
        invariant
            i <= rows@.len(),
            rows@.len() == objects.len(),
            report@.len() == i,
            names@.len() == 6,
            names@[0]@ == "team"@,
            names@[1]@ == "player"@,
            names@[2]@ == "status"@,
            names@[3]@ == "wikipedia_title"@,
            names@[4]@ == "image_url"@,
            names@[5]@ == "saved_path"@,
            forall|k: int|
                0 <= k < rows@.len() ==> members_of(#[trigger] rows@[k]@, objects[k], names@),
            forall|k: int|
                0 <= k < report@.len() ==> #[trigger] report@[k]@ == record_of_object(objects[k]),
        decreases rows@.len() - i,
    {
        let row = &rows[i];
        assert(members_of(row@, objects[i as int], names@));
        report.push(
            record_of_fields(
                RecordFields {
                    team: copied(&row[0]),
                    player: copied(&row[1]),
                    status: copied(&row[2]),
                    wikipedia_title: copied(&row[3]),
                    image_url: copied(&row[4]),
                    saved_path: copied(&row[5]),
                },
            ),
        );
        i = i + 1;
    }
    assert(records(report@) =~= objects.map_values(
        |object: Map<Seq<char>, Seq<char>>| record_of_object(object),
    ));
    Ok(report)
}

fn copied(s: &Option<String>) -> (out: Option<String>)
    ensures
        text_of(out) == text_of(*s),
{
    match s {
        Some(s) => Some(s.clone()),
        None => None,
    }
}

/// An outcome for a player whom the report knows, by the first record of the player's team and
/// name: that record takes the status, and the URL and the path only where they are given; its
/// page title stays, and so does every other record.
pub proof fn known_player_takes_outcome(
    report: Seq<RecordView>,
    at: int,
    status: Seq<char>,
    image_url: Option<Seq<char>>,
    saved_path: Option<Seq<char>>,
)
    requires
        0 <= at < report.len(),
        forall|i: int|
            0 <= i < at ==> (#[trigger] report[i]).team != report[at].team || report[i].player
                != report[at].player,
    ensures
        ({
            let old_record = report[at];
            let after = with_outcome(
                report,
                old_record.team,
                old_record.player,
                status,
                image_url,
                saved_path,
            );
            &&& after.len() == report.len()
            &&& forall|i: int|
                0 <= i < report.len() && i != at ==> #[trigger] after[i] == report[i]
            &&& after[at].team == old_record.team
            &&& after[at].player == old_record.player
            &&& after[at].status == status
            &&& after[at].wikipedia_title == old_record.wikipedia_title
            &&& image_url is Some ==> after[at].image_url == image_url
            &&& image_url is None ==> after[at].image_url == old_record.image_url
            &&& saved_path is Some ==> after[at].saved_path == saved_path
            &&& saved_path is None ==> after[at].saved_path == old_record.saved_path
        }),
{
    let key = (report[at].team, report[at].player);
    keys(report).index_of_first_ensures(key);
    assert(keys(report)[at] == key);
}

/// An outcome for a player of whom the report has no record: one is added at the end, with
/// just what is given and no page title.
pub proof fn new_player_is_added(
    report: Seq<RecordView>,
    team: Seq<char>,
    player: Seq<char>,
    status: Seq<char>,
    image_url: Option<Seq<char>>,
    saved_path: Option<Seq<char>>,
)
    requires
        forall|i: int|
            0 <= i < report.len() ==> (#[trigger] report[i]).team != team || report[i].player
                != player,
    ensures
        with_outcome(report, team, player, status, image_url, saved_path) == report.push(
            RecordView { team, player, status, wikipedia_title: None, image_url, saved_path },
        ),
{
    keys(report).index_of_first_ensures((team, player));
    if keys(report).contains((team, player)) {
        let i = choose|i: int| 0 <= i < keys(report).len() && keys(report)[i] == (team, player);
        assert(report[i].team == team);
    }
}

/// What a JSON object says of a player: each field by its own name, the first three empty
/// where they are missing.
pub proof fn object_gives_fields_by_name(object: Map<Seq<char>, Seq<char>>)
    ensures
        ({
            let r = record_of_object(object);
            &&& object.dom().contains("team"@) ==> r.team == object["team"@]
            &&& !object.dom().contains("team"@) ==> r.team.len() == 0
            &&& object.dom().contains("player"@) ==> r.player == object["player"@]
            &&& !object.dom().contains("player"@) ==> r.player.len() == 0
            &&& object.dom().contains("status"@) ==> r.status == object["status"@]
            &&& !object.dom().contains("status"@) ==> r.status.len() == 0
            &&& object.dom().contains("wikipedia_title"@) ==> r.wikipedia_title == Some(
                object["wikipedia_title"@],
            )
            &&& !object.dom().contains("wikipedia_title"@) ==> r.wikipedia_title is None
            &&& object.dom().contains("image_url"@) ==> r.image_url == Some(object["image_url"@])
            &&& !object.dom().contains("image_url"@) ==> r.image_url is None
            &&& object.dom().contains("saved_path"@) ==> r.saved_path == Some(
                object["saved_path"@],
            )
            &&& !object.dom().contains("saved_path"@) ==> r.saved_path is None
        }),
{
}

/// A record's fields are taken over as they are, the first three empty where they are missing.
pub proof fn fields_are_taken_over(
    team: Option<Seq<char>>,
    player: Option<Seq<char>>,
    status: Option<Seq<char>>,
    wikipedia_title: Option<Seq<char>>,
    image_url: Option<Seq<char>>,
    saved_path: Option<Seq<char>>,
)
    ensures
        ({
            let r = record_view(team, player, status, wikipedia_title, image_url, saved_path);
            &&& team matches Some(text) ==> r.team == text
            &&& team is None ==> r.team.len() == 0
            &&& player matches Some(text) ==> r.player == text
            &&& player is None ==> r.player.len() == 0
            &&& status matches Some(text) ==> r.status == text
            &&& status is None ==> r.status.len() == 0
            &&& r.wikipedia_title == wikipedia_title
            &&& r.image_url == image_url
            &&& r.saved_path == saved_path
        }),
{
}

/// The statuses that call for another try, by their first letters.
pub proof fn failures_by_first_letters(status: Seq<char>)
    ensures
        is_download_failed(status) <==> exists|rest: Seq<char>|
            #[trigger] ("download_failed"@ + rest) == status,
        is_lookup_error(status) <==> exists|rest: Seq<char>|
            #[trigger] ("error:"@ + rest) == status,
        found() == "found"@,
        found_via_google() == "found_via_google"@,
{
    let failed = "download_failed"@;
    let error = "error:"@;
    if is_download_failed(status) {
        assert(failed + status.skip(failed.len() as int) =~= status);
    }
    if exists|rest: Seq<char>| #[trigger] (failed + rest) == status {
        let rest = choose|rest: Seq<char>| #[trigger] (failed + rest) == status;
        assert((failed + rest).subrange(0, failed.len() as int) =~= failed);
    }
    if is_lookup_error(status) {
        assert(error + status.skip(error.len() as int) =~= status);
    }
    if exists|rest: Seq<char>| #[trigger] (error + rest) == status {
        let rest = choose|rest: Seq<char>| #[trigger] (error + rest) == status;
        assert((error + rest).subrange(0, error.len() as int) =~= error);
    }
}

/// Records are shown as they are, in order.
pub proof fn records_show_the_report(report: Seq<PlayerResult>, i: int)
    requires
        0 <= i < report.len(),
    ensures
        records(report).len() == report.len(),
        records(report)[i].team == report[i].team@,
        records(report)[i].player == report[i].player@,
        records(report)[i].status == report[i].status@,
        records(report)[i].wikipedia_title == text_of(report[i].wikipedia_title),
        records(report)[i].image_url == text_of(report[i].image_url),
        records(report)[i].saved_path == text_of(report[i].saved_path),
        text_of(None) is None,
        forall|s: String| #[trigger] text_of(Some(s)) == Some(s@),
{
}

} // verus!
