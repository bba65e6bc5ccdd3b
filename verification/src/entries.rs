//! The time entries of a span: fetched, grouped by day, and rendered.

use vstd::prelude::*;
use vstd::string::*;
use crate::client::{fetch_time_entries, Client};
use crate::grouping::{group_by_date, grouped_by_date, DayGroup};
use crate::model::{ClientError, DateSpan, OutputFormat, Record, TimeEntry};
use crate::table::{
    cell, compact_table, compact_table_text, row_view, rows_view, CellView, TableCell,
};
use crate::text::{duration_digits, duration_text, texts};

verus! {

/// What a command hands to the one who prints.
#[derive(Clone, Debug, PartialEq, Eq)]
pub enum Report<T> {
    /// A table, to be printed as it is.
    Table(String),
    /// One line for each record, to be printed line by line.
    Lines(Vec<String>),
    /// The records themselves, ungrouped, for the structured format.
    Records(Vec<T>),
}

/// The entries of all the groups, group after group.
pub open spec fn ungrouped(groups: Seq<DayGroup>) -> Seq<TimeEntry>
    decreases groups.len(),
{
    if groups.len() == 0 {
        Seq::empty()
    } else {
        ungrouped(groups.drop_last()) + groups.last().members@
    }
}

/// The flat line of an entry: day, customer, project, service and duration,
/// with a tab between each two.
pub open spec fn entry_line(e: TimeEntry) -> Seq<char> {
    e.date.spec_text() + "\t"@ + e.customer_name@ + "\t"@ + e.project_name@ + "\t"@
        + e.service_name@ + "\t"@ + duration_digits(e.minutes.0 as nat)
}

/// The titles of the table of entries.
pub open spec fn entry_titles() -> Seq<CellView> {
    seq![
        ("Day"@, 1nat),
        ("Time"@, 1nat),
        ("Customer"@, 1nat),
        ("Project"@, 1nat),
        ("Service"@, 1nat),
    ]
}

/// The row that sums a day up: the day, the sum of its minutes, and a blank
/// over the three columns that are left.
pub open spec fn summary_row(group: DayGroup) -> Seq<CellView> {
    seq![
        (group.date.spec_text(), 1nat),
        (duration_digits(group.total as nat), 1nat),
        (" "@, 3nat),
    ]
}

/// The row of one entry below its day.
pub open spec fn member_row(e: TimeEntry) -> Seq<CellView> {
    seq![
        (""@, 1nat),
        (duration_digits(e.minutes.0 as nat), 1nat),
        (e.customer_name@, 1nat),
        (e.project_name@, 1nat),
        (e.service_name@, 1nat),
    ]
}

/// The rows of one day: its summary, then its entries.
pub open spec fn day_rows(group: DayGroup) -> Seq<Seq<CellView>> {
    seq![summary_row(group)] + group.members@.map_values(|e: TimeEntry| member_row(e))
}

/// The rows of all the days.
pub open spec fn entry_rows(groups: Seq<DayGroup>) -> Seq<Seq<CellView>>
    decreases groups.len(),
{
    if groups.len() == 0 {
        Seq::empty()
    } else {
        entry_rows(groups.drop_last()) + day_rows(groups.last())
    }
}

/// The entries of the groups as one list, in the groups' order.
pub fn ungroup(groups: &Vec<DayGroup>) -> (entries: Vec<TimeEntry>)
    ensures
        entries@ == ungrouped(groups@),
{
    let mut entries: Vec<TimeEntry> = Vec::new();
    let mut g: usize = 0;
    while g < groups.len()
        invariant
            g <= groups.len(),
            entries@ == ungrouped(groups@.take(g as int)),
        decreases groups.len() - g,
    {
        let members = &groups[g].members;
        let ghost done = entries@;
        let mut m: usize = 0;
        while m < members.len()
            invariant
                m <= members.len(),
                entries@ == done + members@.take(m as int),
            decreases members.len() - m,
        {
            entries.push(members[m].duplicate());
            assert(members@.take(m + 1) =~= members@.take(m as int).push(members@[m as int]));
            assert(entries@ =~= done + members@.take(m + 1));
            m += 1;
        }
        proof {
            assert(members@.take(members.len() as int) =~= members@);
            assert(groups@.take(g + 1).drop_last() =~= groups@.take(g as int));
        }
        g += 1;
    }
    assert(groups@.take(groups.len() as int) =~= groups@);
    entries
}

/// The flat line of one entry.
pub fn flat_line(e: &TimeEntry) -> (line: String)
    ensures
        line@ == entry_line(*e),
{
    let mut line = e.date.text();
    line.append("\t");
    line.append(e.customer_name.as_str());
    line.append("\t");
    line.append(e.project_name.as_str());
    line.append("\t");
    line.append(e.service_name.as_str());
    line.append("\t");
    let time = e.minutes.text();
    line.append(time.as_str());
    line
}

/// The flat form: one line for each entry, in the groups' order.
pub fn print_flat(groups: &Vec<DayGroup>) -> (lines: Vec<String>)
    ensures
        texts(lines@) == ungrouped(groups@).map_values(|e: TimeEntry| entry_line(e)),
        lines@.len() == ungrouped(groups@).len(),
{
    let entries = ungroup(groups);
    let mut lines: Vec<String> = Vec::new();
    let mut i: usize = 0;
    while i < entries.len()
        invariant
            i <= entries.len(),
            texts(lines@) == entries@.take(i as int).map_values(|e: TimeEntry| entry_line(e)),
        decreases entries.len() - i,
    {
        let line = flat_line(&entries[i]);
        let ghost before = lines@;
        lines.push(line);
        proof {
            assert(entries@.take(i + 1) =~= entries@.take(i as int).push(entries@[i as int]));
            assert(texts(lines@) =~= texts(before).push(line@));
            assert(texts(lines@) =~= entries@.take(i + 1).map_values(|e: TimeEntry| entry_line(e)));
        }
        i += 1;
    }
    assert(entries@.take(entries.len() as int) =~= entries@);
    lines
}

fn summary_cells(group: &DayGroup) -> (row: Vec<TableCell>)
    ensures
        row_view(row@) == summary_row(*group),
{
    let row = vec![
        cell(group.date.text()),
        cell(duration_text(group.total)),
        TableCell { text: String::from_str(" "), span: 3 },
    ];
    assert(row_view(row@) =~= summary_row(*group));
    row
}

fn member_cells(e: &TimeEntry) -> (row: Vec<TableCell>)
    ensures
        row_view(row@) == member_row(*e),
{
    let row = vec![
        cell(String::from_str("")),
        cell(e.minutes.text()),
        cell(e.customer_name.clone()),
        cell(e.project_name.clone()),
        cell(e.service_name.clone()),
    ];
    assert(row_view(row@) =~= member_row(*e));
    row
}

fn title_cells() -> (row: Vec<TableCell>)
    ensures
        row_view(row@) == entry_titles(),
{
    let row = vec![
        cell(String::from_str("Day")),
        cell(String::from_str("Time")),
        cell(String::from_str("Customer")),
        cell(String::from_str("Project")),
        cell(String::from_str("Service")),
    ];
    assert(row_view(row@) =~= entry_titles());
    row
}

/// The rows of the table of entries: for each day its summary and then its
/// entries.
pub fn table_rows(groups: &Vec<DayGroup>) -> (rows: Vec<Vec<TableCell>>)
    ensures
        rows_view(rows@) == entry_rows(groups@),
{
    let mut rows: Vec<Vec<TableCell>> = Vec::new();
    let mut g: usize = 0;
    assert(rows_view(rows@) =~= entry_rows(groups@.take(0)));
    while g < groups.len()
        invariant
            g <= groups.len(),
            rows_view(rows@) == entry_rows(groups@.take(g as int)),
        decreases groups.len() - g,
    {
        let group = &groups[g];
        let ghost done = rows_view(rows@);
        let ghost before = rows@;
        let summary = summary_cells(group);
        rows.push(summary);
        assert(rows_view(rows@) =~= done + seq![summary_row(*group)]);
        let mut m: usize = 0;
        while m < group.members.len()
            invariant
                m <= group.members.len(),
                rows_view(rows@) == done + seq![summary_row(*group)] + group.members@.take(
                    m as int,
                ).map_values(|e: TimeEntry| member_row(e)),
            decreases group.members.len() - m,
        {
            let row = member_cells(&group.members[m]);
            let ghost earlier = rows_view(rows@);
            rows.push(row);
            proof {
                assert(group.members@.take(m + 1) =~= group.members@.take(m as int).push(
                    group.members@[m as int],
                ));
                assert(rows_view(rows@) =~= earlier.push(member_row(group.members@[m as int])));
                assert(rows_view(rows@) =~= done + seq![summary_row(*group)]
                    + group.members@.take(m + 1).map_values(|e: TimeEntry| member_row(e)));
            }
            m += 1;
        }
        proof {
            assert(group.members@.take(group.members.len() as int) =~= group.members@);
            assert(groups@.take(g + 1).drop_last() =~= groups@.take(g as int));
            assert(rows_view(rows@) =~= done + day_rows(*group));
        }
        g += 1;
    }
    assert(groups@.take(groups.len() as int) =~= groups@);
    rows
}

/// The table of entries: a title row, then for each day its summary and its
/// entries, without lines between the rows.
pub fn print_pretty(groups: &Vec<DayGroup>) -> (text: String)
    ensures
        text@ == compact_table_text(entry_titles(), entry_rows(groups@)),
{
    let titles = title_cells();
    let rows = table_rows(groups);
    compact_table(&titles, &rows)
}

/// What is reported of fetched entries in a format: their groups as a table,
/// one line for each, or the entries themselves in the groups' order.
pub open spec fn entries_report(report: Report<TimeEntry>, format: OutputFormat, groups: Seq<DayGroup>) -> bool {
    match format {
        OutputFormat::Pretty => report matches Report::Table(t) && t@ == compact_table_text(
            entry_titles(),
            entry_rows(groups),
        ),
        OutputFormat::Flat => report matches Report::Lines(l) && texts(l@) == ungrouped(
            groups,
        ).map_values(|e: TimeEntry| entry_line(e)),
        OutputFormat::Json => report matches Report::Records(r) && r@ == ungrouped(groups),
    }
}

/// Groups fetched entries by day and renders them in `format`.
pub fn render_entries(entries: &Vec<TimeEntry>, format: OutputFormat) -> (report: Report<TimeEntry>)
    ensures
        exists|groups: Seq<DayGroup>| #[trigger]
            grouped_by_date(entries@, groups) && entries_report(report, format, groups),
{
    let groups = group_by_date(entries);
    let report = match format {
        OutputFormat::Pretty => Report::Table(print_pretty(&groups)),
        OutputFormat::Json => Report::Records(ungroup(&groups)),
        OutputFormat::Flat => Report::Lines(print_flat(&groups)),
    };
    assert(grouped_by_date(entries@, groups@) && entries_report(report, format, groups@));
    report
}

/// What is made of an answer to the query of time entries: a failure is
/// handed on as it came, and entries are grouped by day and rendered.
pub open spec fn made_of_entries(
    fetched: Result<Vec<TimeEntry>, ClientError>,
    format: OutputFormat,
    done: Result<Report<TimeEntry>, ClientError>,
) -> bool {
    match fetched {
        Ok(found) => done matches Ok(report) && exists|groups: Seq<DayGroup>| #[trigger]
            grouped_by_date(found@, groups) && entries_report(report, format, groups),
        Err(e) => done == Err::<Report<TimeEntry>, ClientError>(e),
    }
}

/// Makes of an answer to the query of time entries what `made_of_entries`
/// says.
pub fn report_entries(fetched: Result<Vec<TimeEntry>, ClientError>, format: OutputFormat) -> (done:
    Result<Report<TimeEntry>, ClientError>)
    ensures
        made_of_entries(fetched, format, done),
{
    match fetched {
        Ok(time_entries) => Ok(render_entries(&time_entries, format)),
        Err(e) => Err(e),
    }
}

/// The time entries of `date_span`, fetched from `client`, grouped by day and
/// rendered in `output_format`.
///
/// A span that ends before it starts is refused without asking `client`.
/// Otherwise `client` is asked once, and what comes back is what is made of
/// its answer: the entries that it found, grouped and rendered, or its
/// failure.
pub fn entries<C: Client>(client: &mut C, output_format: OutputFormat, date_span: DateSpan) -> (done:
    Result<Report<TimeEntry>, ClientError>)
    ensures
        !date_span.valid() ==> done == Err::<Report<TimeEntry>, ClientError>(
            ClientError::InvalidArgument,
        ) && *final(client) == *old(client),
        exists|fetched: Result<Vec<TimeEntry>, ClientError>|
            made_of_entries(fetched, output_format, done),
{
    let fetched = fetch_time_entries(client, date_span);
    let done = report_entries(fetched, output_format);
    assert(made_of_entries(fetched, output_format, done));
    done
}

} // verus!
