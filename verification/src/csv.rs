//! The list of missing photos, kept as comma-separated lines.

use crate::report::{found, found_via_google, records, PlayerResult, RecordView};
use crate::text::{
    chars_of, replace_char, replaced, same_text, slice_text, texts, trim_bounds, trimmed,
};
use vstd::prelude::*;

verus! {

/// The fields on a line, given the characters still to read, whether they stand inside
/// quotes, and what the current field holds so far. Commas outside quotes end a field. A
/// quote opens or closes a quoted stretch, but two quotes in a row inside one are a quote
/// character of the field.
pub open spec fn fields_from(rest: Seq<char>, quoted: bool, current: Seq<char>) -> Seq<Seq<char>>
    decreases rest.len(),
{
    if rest.len() == 0 {
        seq![current]
    } else if rest[0] == '"' {
        if quoted && rest.len() > 1 && rest[1] == '"' {
            fields_from(rest.skip(2), true, current.push('"'))
        } else {
            fields_from(rest.skip(1), !quoted, current)
        }
    } else if rest[0] == ',' && !quoted {
        seq![current] + fields_from(rest.skip(1), false, Seq::empty())
    } else {
        fields_from(rest.skip(1), quoted, current.push(rest[0]))
    }
}

/// The fields on a line.
pub open spec fn csv_fields(line: Seq<char>) -> Seq<Seq<char>> {
    fields_from(line, false, Seq::empty())
}

/// Splits a line into its fields.
pub fn parse_csv_line(line: &str) -> (fields: Vec<String>)
    ensures
        texts(fields@) == csv_fields(line@),
{
    let chars = chars_of(line);
    let mut fields: Vec<String> = Vec::new();
    let mut current = String::new();
    let mut in_quotes: bool = false;
    let mut i: usize = 0;
    assert(line@.skip(0) =~= line@);
    assert(texts(fields@) + csv_fields(line@) =~= csv_fields(line@));
    while i < chars.len()
        invariant
            i <= chars@.len(),
            chars@ == line@,
            csv_fields(line@) == texts(fields@) + fields_from(
                line@.skip(i as int),
                in_quotes,
                current@,
            ),
        decreases chars@.len() - i,
    {
        let c = chars[i];
        let ghost rest = line@.skip(i as int);
        assert(rest.skip(1) =~= line@.skip(i + 1));
        if c == '"' {
            if in_quotes && i + 1 < chars.len() && chars[i + 1] == '"' {
                assert(rest.skip(2) =~= line@.skip(i + 2));
                current.push('"');
                i = i + 2;
            } else {
                in_quotes = !in_quotes;
                i = i + 1;
            }
        } else if c == ',' && !in_quotes {
            let ghost before = texts(fields@);
            fields.push(current);
            assert(texts(fields@) =~= before.push(current@));
            assert(before + (seq![current@] + fields_from(rest.skip(1), false, Seq::empty()))
                =~= texts(fields@) + fields_from(rest.skip(1), false, Seq::empty()));
            current = String::new();
            i = i + 1;
        } else {
            current.push(c);
            i = i + 1;
        }
    }
    let ghost before = texts(fields@);
    fields.push(current);
    assert(texts(fields@) =~= before + seq![current@]);
    fields
}

/// How many quotes a text holds.
pub open spec fn quote_count(s: Seq<char>) -> nat
    decreases s.len(),
{
    if s.len() == 0 {
        0
    } else {
        quote_count(s.skip(1)) + if s[0] == '"' {
            1nat
        } else {
            0nat
        }
    }
}

/// A comma behind an even number of quotes parts a line: its fields are those before the
/// comma, followed by those behind it.
pub proof fn comma_parts_fields(a: Seq<char>, b: Seq<char>)
    requires
        quote_count(a) % 2 == 0,
    ensures
        csv_fields(a + seq![','] + b) == csv_fields(a) + csv_fields(b),
{
    comma_parts(a, b, false, Seq::empty());
}

proof fn comma_parts(a: Seq<char>, b: Seq<char>, quoted: bool, current: Seq<char>)
    requires
        quote_count(a) % 2 == (if quoted {
            1nat
        } else {
            0nat
        }),
    ensures
        fields_from(a + seq![','] + b, quoted, current) == fields_from(a, quoted, current)
            + csv_fields(b),
    decreases a.len(),
{
    let line = a + seq![','] + b;
    if a.len() == 0 {
        assert(line.skip(1) =~= b);
    } else {
        assert(line.skip(1) =~= a.skip(1) + seq![','] + b);
        if a[0] == '"' {
            if quoted && a.len() > 1 && a[1] == '"' {
                assert(a.skip(1).skip(1) =~= a.skip(2));
                assert(line.skip(2) =~= a.skip(2) + seq![','] + b);
                comma_parts(a.skip(2), b, true, current.push('"'));
            } else {
                comma_parts(a.skip(1), b, !quoted, current);
            }
        } else if a[0] == ',' && !quoted {
            comma_parts(a.skip(1), b, false, Seq::empty());
            let rest = fields_from(a.skip(1), false, Seq::empty());
            assert(seq![current] + (rest + csv_fields(b)) =~= seq![current] + rest + csv_fields(
                b,
            ));
        } else {
            comma_parts(a.skip(1), b, quoted, current.push(a[0]));
        }
    }
}

/// The text with every quote doubled.
pub open spec fn doubled(s: Seq<char>) -> Seq<char>
    decreases s.len(),
{
    if s.len() == 0 {
        Seq::empty()
    } else if s[0] == '"' {
        seq!['"', '"'] + doubled(s.skip(1))
    } else {
        seq![s[0]] + doubled(s.skip(1))
    }
}

/// A field in quotes, with the quotes inside it doubled.
pub open spec fn in_quotes(field: Seq<char>) -> Seq<char> {
    seq!['"'] + doubled(field) + seq!['"']
}

/// The line of the given fields: each in quotes, with commas between them.
pub open spec fn quoted_line(fields: Seq<Seq<char>>) -> Seq<char>
    decreases fields.len(),
{
    if fields.len() == 0 {
        Seq::empty()
    } else if fields.len() == 1 {
        in_quotes(fields[0])
    } else {
        in_quotes(fields[0]) + seq![','] + quoted_line(fields.drop_first())
    }
}

/// Fields written in quotes, with the quotes inside them doubled and commas between them, read
/// back as they were, whatever they hold.
pub proof fn quoted_fields_read_back(fields: Seq<Seq<char>>)
    requires
        fields.len() > 0,
    ensures
        csv_fields(quoted_line(fields)) == fields,
    decreases fields.len(),
{
    let first = fields[0];
    let none = Seq::<char>::empty();
    let head = in_quotes(first);
    assert(head.skip(1) =~= doubled(first) + seq!['"'] + none);
    inside_doubled(first, none, none);
    assert(none + first =~= first);
    assert(csv_fields(head) =~= seq![first]);
    if fields.len() == 1 {
        assert(fields =~= seq![first]);
    } else {
        let rest = fields.drop_first();
        quoted_fields_read_back(rest);
        doubled_quotes_are_even(first);
        comma_parts_fields(head, quoted_line(rest));
        assert(fields =~= seq![first] + rest);
    }
}

/// The number of quotes in two texts together.
proof fn quotes_add_up(a: Seq<char>, b: Seq<char>)
    ensures
        quote_count(a + b) == quote_count(a) + quote_count(b),
    decreases a.len(),
{
    if a.len() == 0 {
        assert(a + b =~= b);
    } else {
        assert((a + b).skip(1) =~= a.skip(1) + b);
        quotes_add_up(a.skip(1), b);
    }
}

proof fn doubled_quotes_are_even(field: Seq<char>)
    ensures
        quote_count(doubled(field)) % 2 == 0,
        quote_count(in_quotes(field)) % 2 == 0,
    decreases field.len(),
{
    let quote = seq!['"'];
    reveal_with_fuel(quote_count, 3);
    assert(quote.skip(1).len() == 0);
    if field.len() > 0 {
        let more = doubled(field.skip(1));
        doubled_quotes_are_even(field.skip(1));
        if field[0] == '"' {
            let pair = seq!['"', '"'];
            assert(pair.skip(1) =~= quote);
            quotes_add_up(pair, more);
        } else {
            assert(seq![field[0]].skip(1).len() == 0);
            quotes_add_up(seq![field[0]], more);
        }
    }
    quotes_add_up(quote + doubled(field), quote);
    quotes_add_up(quote, doubled(field));
}

/// Inside quotes, a field with its quotes doubled reads as the field, up to the closing quote.
proof fn inside_doubled(field: Seq<char>, tail: Seq<char>, current: Seq<char>)
    requires
        tail.len() > 0 ==> tail[0] != '"',
    ensures
        fields_from(doubled(field) + seq!['"'] + tail, true, current) == fields_from(
            tail,
            false,
            current + field,
        ),
    decreases field.len(),
{
    let rest = doubled(field) + seq!['"'] + tail;
    if field.len() == 0 {
        assert(rest.skip(1) =~= tail);
        assert(current + field =~= current);
    } else {
        let more = field.skip(1);
        inside_doubled(more, tail, current.push(field[0]));
        assert(current.push(field[0]) + more =~= current + field);
        if field[0] == '"' {
            assert(rest.skip(2) =~= doubled(more) + seq!['"'] + tail);
        } else {
            assert(rest.skip(1) =~= doubled(more) + seq!['"'] + tail);
        }
    }
}

/// A player on the list of missing photos.
#[derive(Debug)]
pub struct MissingEntry {
    pub team: String,
    pub player: String,
    pub status: String,
}

/// What a [`MissingEntry`] holds, as text.
#[verifier::ext_equal]
pub struct MissingView {
    pub team: Seq<char>,
    pub player: Seq<char>,
    pub status: Seq<char>,
}

impl View for MissingEntry {
    type V = MissingView;

    open spec fn view(&self) -> MissingView {
        MissingView { team: self.team@, player: self.player@, status: self.status@ }
    }
}

/// The entries of a list, as text.
pub open spec fn missing_views(entries: Seq<MissingEntry>) -> Seq<MissingView> {
    Seq::new(entries.len(), |i: int| entries[i]@)
}

/// The lines of a text: what stands between its line feeds.
pub open spec fn lines(text: Seq<char>) -> Seq<Seq<char>>
    decreases text.len(),
{
    proof {
        text.index_of_first_ensures('\n');
    }
    match text.index_of_first('\n') {
        None => seq![text],
        Some(end) => seq![text.take(end)] + lines(text.skip(end + 1)),
    }
}

/// The entry on a line, white space around it aside: none where the line is blank or has
/// fewer than two fields. A third field is the status, which is empty where it is missing.
pub open spec fn entry_on_line(line: Seq<char>) -> Option<MissingView> {
    let fields = csv_fields(trimmed(line));
    if trimmed(line).len() == 0 || fields.len() < 2 {
        None
    } else {
        Some(
            MissingView {
                team: fields[0],
                player: fields[1],
                status: if fields.len() > 2 {
                    fields[2]
                } else {
                    Seq::empty()
                },
            },
        )
    }
}

/// The entries on a run of lines, in order.
pub open spec fn entries_on_lines(lines: Seq<Seq<char>>) -> Seq<MissingView>
    decreases lines.len(),
{
    if lines.len() == 0 {
        Seq::empty()
    } else {
        let rest = entries_on_lines(lines.drop_first());
        match entry_on_line(lines.first()) {
            Some(entry) => seq![entry] + rest,
            None => rest,
        }
    }
}

/// The entries of a list of missing photos: those on the lines below its heading.
pub open spec fn missing_entries(text: Seq<char>) -> Seq<MissingView> {
    entries_on_lines(lines(text).drop_first())
}

/// Reads the entry on the line between two positions.
fn read_line(chars: &Vec<char>, start: usize, end: usize) -> (out: Option<MissingEntry>)
    requires
        start <= end <= chars@.len(),
    ensures
        out is Some == (entry_on_line(chars@.subrange(start as int, end as int)) is Some),
        out matches Some(entry) ==> Some(entry@) == entry_on_line(
            chars@.subrange(start as int, end as int),
        ),
{
    let bounds: (usize, usize) = trim_bounds(chars, start, end);
    if bounds.0 == bounds.1 {
        return None;
    }
    let line = slice_text(chars, bounds.0, bounds.1);
    let fields = parse_csv_line(&line);
    let ghost parts = texts(fields@);
    if fields.len() < 2 {
        return None;
    }
    let status = if fields.len() > 2 {
        assert(parts[2] == fields@[2]@);
        fields[2].clone()
    } else {
        String::new()
    };
    assert(parts[0] == fields@[0]@);
    assert(parts[1] == fields@[1]@);
    Some(MissingEntry { team: fields[0].clone(), player: fields[1].clone(), status })
}

/// The position of the first line feed at or behind `start`, or the end of the text.
fn line_end(chars: &Vec<char>, start: usize) -> (end: usize)
    requires
        start <= chars@.len(),
    ensures
        start <= end <= chars@.len(),
        end < chars@.len() ==> chars@.skip(start as int).index_of_first('\n') == Some(end - start),
        end == chars@.len() ==> chars@.skip(start as int).index_of_first('\n') is None,
{
    let ghost rest = chars@.skip(start as int);
    let mut end: usize = start;
    while end < chars.len() && chars[end] != '\n'
        invariant
            start <= end <= chars@.len(),
            forall|k: int| start <= k < end ==> chars@[k] != '\n',
        decreases chars@.len() - end,
    {
        end = end + 1;
    }
    proof {
        rest.index_of_first_ensures('\n');
        if end < chars@.len() {
            assert(rest[end - start] == '\n');
        }
    }
    end
}

/// Reads the list of missing photos: a heading, then one `team,player,status` line each.
pub fn read_missing_csv(text: &str) -> (out: Vec<MissingEntry>)
    ensures
        missing_views(out@) == missing_entries(text@),
{
    let chars = chars_of(text);
    let mut out: Vec<MissingEntry> = Vec::new();
    assert(text@.skip(0) =~= text@);
    let heading_end = line_end(&chars, 0);
    if heading_end == chars.len() {
        assert(lines(text@).drop_first() =~= Seq::empty());
        assert(missing_views(out@) =~= Seq::empty());
        return out;
    }
    let mut start: usize = heading_end + 1;
    proof {
        assert(lines(text@).drop_first() =~= lines(text@.skip(start as int)));
        assert(missing_views(out@) =~= Seq::empty());
        assert(missing_views(out@) + missing_entries(text@) =~= missing_entries(text@));
    }
    loop
        invariant
            start <= chars@.len(),
            chars@ == text@,
            missing_entries(text@) == missing_views(out@) + entries_on_lines(
                lines(text@.skip(start as int)),
            ),
        decreases chars@.len() - start,
    {
        let ghost rest = text@.skip(start as int);
        let end = line_end(&chars, start);
        let ghost line = text@.subrange(start as int, end as int);
        let ghost before = missing_views(out@);
        let ghost tail = if end < chars@.len() {
            entries_on_lines(lines(text@.skip(end + 1)))
        } else {
            Seq::empty()
        };
        proof {
            if end < chars@.len() {
                assert(rest.take(end - start) =~= line);
                assert(rest.skip(end - start + 1) =~= text@.skip(end + 1));
                assert(lines(rest).drop_first() =~= lines(text@.skip(end + 1)));
            } else {
                assert(rest =~= line);
                assert(lines(rest).drop_first() =~= Seq::empty());
            }
            assert(lines(rest).first() == line);
            assert(entries_on_lines(lines(rest).drop_first()) == tail);
        }
        match read_line(&chars, start, end) {
            Some(entry) => {
                out.push(entry);
                assert(missing_views(out@) =~= before.push(entry@));
                assert(before + (seq![entry@] + tail) =~= missing_views(out@) + tail);
            },
            None => {},
        }
        if end == chars.len() {
            assert(missing_views(out@) + tail =~= missing_views(out@));
            return out;
        }
        start = end + 1;
    }
}

/// Whether a record belongs on the list of missing photos: its status is not that of a saved
/// photo. Photos saved from an image search count as saved only where `via_google` is set.
pub open spec fn is_missing(record: RecordView, via_google: bool) -> bool {
    &&& record.status != found()
    &&& !(via_google && record.status == found_via_google())
}

/// The text with apostrophes for quotes.
pub open spec fn unquoted(s: Seq<char>) -> Seq<char> {
    replaced(s, '"', '\'')
}

/// The line on which a record is listed.
pub open spec fn csv_line(record: RecordView) -> Seq<char> {
    "\""@ + unquoted(record.team) + "\",\""@ + unquoted(record.player) + "\",\""@ + unquoted(
        record.status,
    ) + "\""@
}

/// The lines on which the missing records of a report are listed.
pub open spec fn csv_rows(report: Seq<RecordView>, via_google: bool) -> Seq<char>
    decreases report.len(),
{
    if report.len() == 0 {
        Seq::empty()
    } else {
        let rest = csv_rows(report.drop_first(), via_google);
        if is_missing(report.first(), via_google) {
            csv_line(report.first()) + "\n"@ + rest
        } else {
            rest
        }
    }
}

/// The list of a report's missing photos: a heading and the missing records' lines.
pub open spec fn csv_text(report: Seq<RecordView>, via_google: bool) -> Seq<char> {
    "team,player,status\n"@ + csv_rows(report, via_google)
}

fn write_line(record: &PlayerResult) -> (out: String)
    ensures
        out@ == csv_line(record@) + "\n"@,
{
    let mut out = "\"".to_owned();
    out.append(&replace_char(&record.team, '"', '\''));
    out.append("\",\"");
    out.append(&replace_char(&record.player, '"', '\''));
    out.append("\",\"");
    out.append(&replace_char(&record.status, '"', '\''));
    out.append("\"");
    out.append("\n");
    out
}

fn write_list(report: &Vec<PlayerResult>, via_google: bool) -> (out: String)
    ensures
        out@ == csv_text(records(report@), via_google),
{
    let ghost all = records(report@);
    let mut out = "team,player,status\n".to_owned();
    let mut i: usize = 0;
    assert(all.skip(0) =~= all);
    while i < report.len()
        invariant
            i <= report@.len(),
            all == records(report@),
            csv_text(all, via_google) == out@ + csv_rows(all.skip(i as int), via_google),
        decreases report@.len() - i,
    {
        let ghost rest = all.skip(i as int);
        let ghost tail = csv_rows(all.skip(i + 1), via_google);
        let ghost before = out@;
        assert(rest.drop_first() =~= all.skip(i + 1));
        assert(rest.first() == report@[i as int]@);
        let settled: bool = same_text(&report[i].status, "found") || (via_google && same_text(
            &report[i].status,
            "found_via_google",
        ));
        if !settled {
            out.append(&write_line(&report[i]));
            assert(before + (csv_line(rest.first()) + "\n"@ + tail) =~= out@ + tail);
        }
        i = i + 1;
    }
    assert(out@ + csv_rows(all.skip(i as int), via_google) =~= out@);
    out
}

/// Lists the records of a report whose status is not `found`.
pub fn missing_csv(report: &Vec<PlayerResult>) -> (out: String)
    ensures
        out@ == csv_text(records(report@), false),
{
    write_list(report, false)
}

/// Lists the records of a report whose status is neither `found` nor `found_via_google`.
pub fn missing_csv_via_google(report: &Vec<PlayerResult>) -> (out: String)
    ensures
        out@ == csv_text(records(report@), true),
{
    write_list(report, true)
}

/// Whether none of what is listed of a record holds a line feed.
pub open spec fn is_one_line(record: RecordView) -> bool {
    &&& !record.team.contains('\n')
    &&& !record.player.contains('\n')
    &&& !record.status.contains('\n')
}

/// What the list says of a record.
pub open spec fn listed(record: RecordView) -> MissingView {
    MissingView {
        team: unquoted(record.team),
        player: unquoted(record.player),
        status: unquoted(record.status),
    }
}

/// Reading a list that was written for a report gives back the report's missing records, in
/// order, with apostrophes for quotes, as long as no missing record holds a line feed.
pub proof fn list_reads_back(report: Seq<RecordView>, via_google: bool)
    requires
        forall|i: int|
            0 <= i < report.len() && is_missing(#[trigger] report[i], via_google) ==> is_one_line(
                report[i],
            ),
    ensures
        missing_entries(csv_text(report, via_google)) == report.filter(
            |record: RecordView| is_missing(record, via_google),
        ).map_values(|record: RecordView| listed(record)),
{
    let heading = "team,player,status"@;
    let rows = csv_rows(report, via_google);
    reveal_strlit("team,player,status\n");
    reveal_strlit("team,player,status");
    assert(csv_text(report, via_google) =~= heading + seq!['\n'] + rows);
    assert(!heading.contains('\n'));
    first_line(heading, rows);
    assert(lines(csv_text(report, via_google)).drop_first() =~= lines(rows));
    rows_read_back(report, via_google);
}

/// A list that was written for a report holds an entry for each missing record, and no other,
/// as long as no missing record holds a line feed.
pub proof fn list_holds_the_missing(report: Seq<RecordView>, via_google: bool)
    requires
        forall|i: int|
            0 <= i < report.len() && is_missing(#[trigger] report[i], via_google) ==> is_one_line(
                report[i],
            ),
    ensures
        ({
            let list = missing_entries(csv_text(report, via_google));
            &&& forall|i: int|
                0 <= i < report.len() && is_missing(#[trigger] report[i], via_google)
                    ==> list.contains(listed(report[i]))
            &&& forall|entry: MissingView| #[trigger]
                list.contains(entry) ==> exists|k: int|
                    {
                        &&& 0 <= k < report.len()
                        &&& is_missing(#[trigger] report[k], via_google)
                        &&& listed(report[k]) == entry
                    }
        }),
{
    let list = missing_entries(csv_text(report, via_google));
    let missing = |r: RecordView| is_missing(r, via_google);
    let kept = report.filter(missing);
    list_reads_back(report, via_google);
    assert(list == kept.map_values(|r: RecordView| listed(r)));
    assert forall|i: int|
        0 <= i < report.len() && is_missing(#[trigger] report[i], via_google) implies list.contains(
        listed(report[i]),
    ) by {
        report.lemma_filter_contains(missing, i);
        let at = choose|at: int| 0 <= at < kept.len() && kept[at] == report[i];
        assert(list[at] == listed(report[i]));
    }
    assert forall|entry: MissingView| #[trigger] list.contains(entry) implies exists|k: int|
        {
            &&& 0 <= k < report.len()
            &&& is_missing(#[trigger] report[k], via_google)
            &&& listed(report[k]) == entry
        } by {
        let m = choose|m: int| 0 <= m < list.len() && list[m] == entry;
        report.lemma_filter_pred(missing, m);
        filtered_is_of(report, missing, m);
        let k = choose|k: int| 0 <= k < report.len() && report[k] == kept[m];
        assert(is_missing(report[k], via_google));
    }
}

proof fn filtered_is_of(report: Seq<RecordView>, pick: spec_fn(RecordView) -> bool, at: int)
    requires
        0 <= at < report.filter(pick).len(),
    ensures
        exists|k: int| 0 <= k < report.len() && report[k] == report.filter(pick)[at],
    decreases report.len(),
{
    reveal(Seq::filter);
    if report.len() > 0 {
        let rest = report.drop_last();
        if at < rest.filter(pick).len() {
            filtered_is_of(rest, pick, at);
            let k = choose|k: int| 0 <= k < rest.len() && rest[k] == rest.filter(pick)[at];
            assert(report[k] == rest[k]);
        } else {
            assert(report[report.len() - 1] == report.filter(pick)[at]);
        }
    }
}

proof fn rows_read_back(report: Seq<RecordView>, via_google: bool)
    requires
        forall|i: int|
            0 <= i < report.len() && is_missing(#[trigger] report[i], via_google) ==> is_one_line(
                report[i],
            ),
    ensures
        entries_on_lines(lines(csv_rows(report, via_google))) == report.filter(
            |record: RecordView| is_missing(record, via_google),
        ).map_values(|record: RecordView| listed(record)),
    decreases report.len(),
{
    let missing = |record: RecordView| is_missing(record, via_google);
    let view = |record: RecordView| listed(record);
    let rows = csv_rows(report, via_google);
    reveal(Seq::filter);
    if report.len() == 0 {
        rows.index_of_first_ensures('\n');
        let all = lines(rows);
        assert(all == seq![rows]);
        assert(trimmed(rows).len() == 0);
        assert(entries_on_lines(all.drop_first()) =~= Seq::empty());
        assert(report.filter(missing).map_values(view) =~= Seq::empty());
    } else {
        let first = report.first();
        let rest = report.drop_first();
        let tail = csv_rows(rest, via_google);
        rows_read_back(rest, via_google);
        assert(report =~= seq![first] + rest);
        Seq::filter_distributes_over_add(seq![first], rest, missing);
        assert(seq![first].drop_last() =~= Seq::empty());
        assert(seq![first].drop_last().filter(missing) =~= Seq::empty());
        if is_missing(first, via_google) {
            reveal_strlit("\n");
            assert("\n"@ =~= seq!['\n']);
            line_has_no_line_feed(first);
            first_line(csv_line(first), tail);
            line_reads_back(first);
            assert(lines(rows).drop_first() =~= lines(tail));
            assert(seq![first].filter(missing) =~= seq![first]);
            assert(report.filter(missing).map_values(view) =~= seq![listed(first)]
                + rest.filter(missing).map_values(view));
        } else {
            assert(seq![first].filter(missing) =~= Seq::empty());
            assert(report.filter(missing) =~= rest.filter(missing));
        }
    }
}

/// What stands before the first line feed is the first line.
proof fn first_line(line: Seq<char>, rest: Seq<char>)
    requires
        !line.contains('\n'),
    ensures
        lines(line + seq!['\n'] + rest) == seq![line] + lines(rest),
{
    let text = line + seq!['\n'] + rest;
    text.index_of_first_ensures('\n');
    assert(text[line.len() as int] == '\n');
    assert forall|k: int| 0 <= k < line.len() implies text[k] != '\n' by {
        assert(line.contains(line[k]));
    }
    assert(text.index_of_first('\n') == Some(line.len() as int));
    assert(text.take(line.len() as int) =~= line);
    assert(text.skip(line.len() as int + 1) =~= rest);
}

proof fn line_has_no_line_feed(record: RecordView)
    requires
        is_one_line(record),
    ensures
        !csv_line(record).contains('\n'),
{
    reveal_strlit("\"");
    reveal_strlit("\",\"");
    unquoted_has_no_line_feed(record.team);
    unquoted_has_no_line_feed(record.player);
    unquoted_has_no_line_feed(record.status);
    let line = csv_line(record);
    assert forall|k: int| 0 <= k < line.len() implies line[k] != '\n' by {
        let a = unquoted(record.team);
        let b = unquoted(record.player);
        let c = unquoted(record.status);
        let at_b = 1 + a.len() + 3;
        let at_c = at_b + b.len() + 3;
        if 1 <= k < 1 + a.len() {
            assert(a.contains(a[k - 1]));
        } else if at_b <= k < at_b + b.len() {
            assert(b.contains(b[k - at_b]));
        } else if at_c <= k < at_c + c.len() {
            assert(c.contains(c[k - at_c]));
        }
    }
}

proof fn unquoted_has_no_line_feed(s: Seq<char>)
    requires
        !s.contains('\n'),
    ensures
        !unquoted(s).contains('\n'),
{
    assert forall|k: int| 0 <= k < s.len() implies unquoted(s)[k] != '\n' by {
        assert(s.contains(s[k]));
    }
}

/// The line on which a record is listed reads back as what the list says of the record.
proof fn line_reads_back(record: RecordView)
    ensures
        entry_on_line(csv_line(record)) == Some(listed(record)),
{
    let line = csv_line(record);
    let a = unquoted(record.team);
    let b = unquoted(record.player);
    let c = unquoted(record.status);
    reveal_strlit("\"");
    reveal_strlit("\",\"");
    assert(line.first() == '"');
    assert(line.last() == '"');
    assert(trimmed(line) == line);
    unquoted_needs_no_doubling(record.team);
    unquoted_needs_no_doubling(record.player);
    unquoted_needs_no_doubling(record.status);
    let fields = seq![a, b, c];
    assert(fields.drop_first() =~= seq![b, c]);
    assert(seq![b, c].drop_first() =~= seq![c]);
    assert(quoted_line(seq![c]) == in_quotes(c));
    assert(quoted_line(seq![b, c]) == in_quotes(b) + seq![','] + in_quotes(c));
    assert(line =~= quoted_line(fields));
    quoted_fields_read_back(fields);
}

proof fn unquoted_needs_no_doubling(s: Seq<char>)
    ensures
        doubled(unquoted(s)) == unquoted(s),
    decreases s.len(),
{
    if s.len() > 0 {
        unquoted_needs_no_doubling(s.skip(1));
        assert(unquoted(s).skip(1) =~= unquoted(s.skip(1)));
        assert(doubled(unquoted(s)) =~= unquoted(s));
    } else {
        assert(doubled(unquoted(s)) =~= unquoted(s));
    }
}

/// How the fields of a line come about from its beginning. An empty line has one empty field.
/// A comma ends a field. Any other character but a quote belongs to the field that it stands
/// in. A stretch in quotes, commas and doubled quotes within it included, belongs to the field
/// that it stands in, without the quotes around it; where the closing quote is missing, it
/// goes on to the end of the line.
pub proof fn fields_from_the_beginning(c: char, inside: Seq<char>, tail: Seq<char>)
    ensures
        ({
            let rest = csv_fields(tail);
            &&& rest.len() > 0
            &&& csv_fields(Seq::empty()) == seq![Seq::<char>::empty()]
            &&& csv_fields(seq![','] + tail) == seq![Seq::<char>::empty()] + rest
            &&& c != '"' && c != ',' ==> csv_fields(seq![c] + tail) == seq![seq![c] + rest[0]]
                + rest.drop_first()
            &&& tail.len() == 0 || tail[0] != '"' ==> csv_fields(
                seq!['"'] + doubled(inside) + seq!['"'] + tail,
            ) == seq![inside + rest[0]] + rest.drop_first()
            &&& csv_fields(seq!['"'] + doubled(inside)) == seq![inside]
        }),
{
    let none = Seq::<char>::empty();
    let rest = csv_fields(tail);
    current_leads(tail, false, none);
    assert((seq![','] + tail).skip(1) =~= tail);
    assert((seq![c] + tail).skip(1) =~= tail);
    assert(none.push(c) =~= seq![c]);
    current_leads(tail, false, seq![c]);
    let line = seq!['"'] + doubled(inside) + seq!['"'] + tail;
    assert(line.skip(1) =~= doubled(inside) + seq!['"'] + tail);
    if tail.len() == 0 || tail[0] != '"' {
        inside_doubled(inside, tail, none);
        assert(none + inside =~= inside);
        current_leads(tail, false, inside);
    }
    assert((seq!['"'] + doubled(inside)).skip(1) =~= doubled(inside));
    unclosed_doubled(inside, none);
    assert(none + inside =~= inside);
}

/// What a field holds already stands before what it takes from the rest of the line.
proof fn current_leads(rest: Seq<char>, quoted: bool, current: Seq<char>)
    ensures
        fields_from(rest, quoted, Seq::empty()).len() > 0,
        fields_from(rest, quoted, current) == seq![
            current + fields_from(rest, quoted, Seq::empty())[0],
        ] + fields_from(rest, quoted, Seq::empty()).drop_first(),
    decreases rest.len(),
{
    let none = Seq::<char>::empty();
    assert(current + none =~= current);
    if rest.len() == 0 {
        assert(seq![none].drop_first() =~= Seq::empty());
    } else if rest[0] == '"' {
        if quoted && rest.len() > 1 && rest[1] == '"' {
            let from = fields_from(rest.skip(2), true, none);
            current_leads(rest.skip(2), true, current.push('"'));
            current_leads(rest.skip(2), true, none.push('"'));
            assert(current.push('"') + from[0] =~= current + (none.push('"') + from[0]));
            assert((seq![none.push('"') + from[0]] + from.drop_first()).drop_first()
                =~= from.drop_first());
        } else {
            current_leads(rest.skip(1), !quoted, current);
        }
    } else if rest[0] == ',' && !quoted {
        let from = fields_from(rest.skip(1), false, none);
        assert((seq![none] + from).drop_first() =~= from);
    } else {
        let from = fields_from(rest.skip(1), quoted, none);
        current_leads(rest.skip(1), quoted, current.push(rest[0]));
        current_leads(rest.skip(1), quoted, none.push(rest[0]));
        assert(current.push(rest[0]) + from[0] =~= current + (none.push(rest[0]) + from[0]));
        assert((seq![none.push(rest[0]) + from[0]] + from.drop_first()).drop_first()
            =~= from.drop_first());
    }
}

/// Inside quotes that are never closed, a field with its quotes doubled reads as the field.
proof fn unclosed_doubled(field: Seq<char>, current: Seq<char>)
    ensures
        fields_from(doubled(field), true, current) == seq![current + field],
    decreases field.len(),
{
    if field.len() == 0 {
        assert(current + field =~= current);
    } else {
        let more = field.skip(1);
        unclosed_doubled(more, current.push(field[0]));
        assert(current.push(field[0]) + more =~= current + field);
        if field[0] == '"' {
            assert(doubled(field).skip(2) =~= doubled(more));
        } else {
            assert(doubled(field).skip(1) =~= doubled(more));
        }
    }
}

/// Quotes are doubled one by one, and nothing else changes.
pub proof fn quotes_alone_are_doubled(c: char, s: Seq<char>)
    ensures
        doubled(Seq::empty()).len() == 0,
        c == '"' ==> doubled(seq![c] + s) == seq![c, c] + doubled(s),
        c != '"' ==> doubled(seq![c] + s) == seq![c] + doubled(s),
{
    assert((seq![c] + s).skip(1) =~= s);
}

/// A list is read line by line, whatever its heading says. A line with at least two fields,
/// white space around it aside, is an entry: the first field is the team, the second the
/// player, and the third, or nothing, the status. Any other line is passed over.
pub proof fn list_is_read_line_by_line(heading: Seq<char>, line: Seq<char>, rest: Seq<char>)
    requires
        !heading.contains('\n'),
        !line.contains('\n'),
    ensures
        ({
            let fields = csv_fields(trimmed(line));
            let entry = MissingView {
                team: fields[0],
                player: fields[1],
                status: if fields.len() >= 3 {
                    fields[2]
                } else {
                    Seq::empty()
                },
            };
            let below = missing_entries(heading + seq!['\n'] + rest);
            let all = missing_entries(heading + seq!['\n'] + (line + seq!['\n'] + rest));
            let last = missing_entries(heading + seq!['\n'] + line);
            &&& missing_entries(heading).len() == 0
            &&& fields.len() >= 2 ==> all == seq![entry] + below && last == seq![entry]
            &&& fields.len() < 2 ==> all == below && last.len() == 0
        }),
{
    first_line(heading, line + seq!['\n'] + rest);
    first_line(heading, rest);
    first_line(heading, line);
    first_line(line, rest);
    heading.index_of_first_ensures('\n');
    line.index_of_first_ensures('\n');
    assert((seq![heading] + lines(line + seq!['\n'] + rest)).drop_first() =~= lines(
        line + seq!['\n'] + rest,
    ));
    assert((seq![heading] + lines(rest)).drop_first() =~= lines(rest));
    assert((seq![heading] + lines(line)).drop_first() =~= lines(line));
    assert((seq![line] + lines(rest)).drop_first() =~= lines(rest));
    assert(lines(heading).drop_first() =~= Seq::empty());
    assert(lines(line) == seq![line]);
    assert(seq![line].drop_first() =~= Seq::empty());
    assert(entries_on_lines(seq![line].drop_first()) =~= Seq::empty());
    if trimmed(line).len() == 0 {
        assert(csv_fields(trimmed(line)).len() == 1);
    }
}

/// A list is written record by record below its heading. A record whose status is `found` is
/// left out, and so is one that says `found_via_google` where such photos count as saved; any
/// other takes one line: its team, player and status in quotes, with apostrophes for the
/// quotes inside them.
pub proof fn list_is_written_record_by_record(
    report: Seq<RecordView>,
    r: RecordView,
    via_google: bool,
)
    ensures
        ({
            let before = csv_text(report, via_google);
            let after = csv_text(report.push(r), via_google);
            let saved = r.status == "found"@ || (via_google && r.status == "found_via_google"@);
            &&& csv_text(Seq::empty(), via_google) == "team,player,status\n"@
            &&& saved ==> after == before
            &&& !saved ==> after == before + (seq!['"'] + replaced(r.team, '"', '\'') + seq![
                '"',
                ',',
                '"',
            ] + replaced(r.player, '"', '\'') + seq!['"', ',', '"'] + replaced(
                r.status,
                '"',
                '\'',
            ) + seq!['"', '\n'])
        }),
{
    let heading = "team,player,status\n"@;
    assert(heading + Seq::<char>::empty() =~= heading);
    row_is_added(report, r, via_google);
    reveal_strlit("\"");
    reveal_strlit("\",\"");
    reveal_strlit("\n");
    let row = seq!['"'] + replaced(r.team, '"', '\'') + seq!['"', ',', '"'] + replaced(
        r.player,
        '"',
        '\'',
    ) + seq!['"', ',', '"'] + replaced(r.status, '"', '\'') + seq!['"', '\n'];
    assert(csv_line(r) + "\n"@ =~= row);
    let rows = csv_rows(report, via_google);
    assert(heading + (rows + row) =~= heading + rows + row);
    assert(rows + Seq::<char>::empty() =~= rows);
}

proof fn row_is_added(report: Seq<RecordView>, r: RecordView, via_google: bool)
    ensures
        csv_rows(report.push(r), via_google) == csv_rows(report, via_google) + if is_missing(
            r,
            via_google,
        ) {
            csv_line(r) + "\n"@
        } else {
            Seq::empty()
        },
    decreases report.len(),
{
    let all = report.push(r);
    let none = Seq::<char>::empty();
    let row = csv_line(r) + "\n"@;
    if report.len() == 0 {
        assert(all.drop_first() =~= Seq::empty());
        assert(csv_rows(all.drop_first(), via_google) =~= none);
        assert(row + none =~= none + row);
        assert(none + none =~= none);
    } else {
        let rest = report.drop_first();
        row_is_added(rest, r, via_google);
        assert(all.drop_first() =~= rest.push(r));
        assert(all.first() == report.first());
        let head = csv_line(report.first()) + "\n"@;
        let rows = csv_rows(rest, via_google);
        assert(head + (rows + row) =~= head + rows + row);
        assert(head + (rows + none) =~= head + rows + none);
    }
}

/// The entries of a list are shown as they are, in order.
pub proof fn missing_views_show_the_entries(entries: Seq<MissingEntry>, i: int)
    requires
        0 <= i < entries.len(),
    ensures
        missing_views(entries).len() == entries.len(),
        missing_views(entries)[i].team == entries[i].team@,
        missing_views(entries)[i].player == entries[i].player@,
        missing_views(entries)[i].status == entries[i].status@,
{
}

} // verus!
