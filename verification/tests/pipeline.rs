use acari::date::Date;
use acari::entries::{entries, print_flat, print_pretty, render_entries, ungroup, Report};
use acari::grouping::{distinct_dates, entries_on, group_by_date, minutes_total, DayGroup};
use acari::model::{
    default_cache_ttl, duplicate_all, AppError, ClientError, DateSpan, Minutes, OutputFormat,
    Project, Service, TimeEntry,
};
use acari::client::Client;
use acari::projects::{
    all_projects, distinct_customers, group_by_customer, projects_of, render_projects,
    CustomerGroup,
};
use acari::text::{duration_text, join};
use prettytable::format::consts::FORMAT_NO_LINESEP_WITH_TITLE;
use prettytable::{Cell, Row, Table};

fn day(year: i32, month: u32, day: u32) -> Date {
    Date::from_ymd(year, month, day).unwrap()
}

fn entry(date: Date, minutes: u32, customer: &str) -> TimeEntry {
    TimeEntry {
        date,
        minutes: Minutes(minutes),
        customer_name: customer.to_string(),
        project_name: format!("{}-project", customer),
        service_name: format!("{}-service", customer),
    }
}

fn project(customer: &str, name: &str) -> Project {
    Project { customer_name: customer.to_string(), name: name.to_string() }
}

fn sample() -> Vec<TimeEntry> {
    vec![
        entry(day(2024, 1, 2), 30, "A"),
        entry(day(2024, 1, 1), 60, "B"),
        entry(day(2024, 1, 1), 15, "C"),
    ]
}

struct Fixed {
    calls: usize,
    entries: Vec<TimeEntry>,
    projects: Vec<Project>,
}

impl Client for Fixed {
    fn get_time_entries(&mut self, _span: DateSpan) -> Result<Vec<TimeEntry>, ClientError> {
        self.calls += 1;
        Ok(self.entries.clone())
    }

    fn get_projects(&mut self) -> Result<Vec<Project>, ClientError> {
        self.calls += 1;
        if self.projects.is_empty() {
            Err(ClientError::AuthFailure)
        } else {
            Ok(self.projects.clone())
        }
    }

    fn get_services(&mut self) -> Result<Vec<Service>, ClientError> {
        self.calls += 1;
        Ok(vec![Service { name: "consulting".to_string() }])
    }
}

#[test]
fn format_names_are_parsed() {
    assert_eq!(OutputFormat::from_string("pretty"), Ok(OutputFormat::Pretty));
    assert_eq!(OutputFormat::from_string("json"), Ok(OutputFormat::Json));
    assert_eq!(OutputFormat::from_string("flat"), Ok(OutputFormat::Flat));
}

#[test]
fn unknown_format_is_a_user_error() {
    assert_eq!(
        OutputFormat::from_string("xml"),
        Err(AppError::UserError("Invalid output format: xml".to_string()))
    );
    assert_eq!(
        OutputFormat::from_string("Pretty"),
        Err(AppError::UserError("Invalid output format: Pretty".to_string()))
    );
    assert_eq!(
        OutputFormat::from_string(""),
        Err(AppError::UserError("Invalid output format: ".to_string()))
    );
}

#[test]
fn default_ttl_is_a_day() {
    assert_eq!(default_cache_ttl(), 1440);
}

#[test]
fn dates_exist_only_on_the_calendar() {
    assert!(Date::from_ymd(2024, 2, 29).is_some());
    assert!(Date::from_ymd(2023, 2, 29).is_none());
    assert!(Date::from_ymd(2024, 13, 1).is_none());
    assert!(Date::from_ymd(2024, 0, 1).is_none());
    let d = day(2024, 1, 2);
    assert_eq!((d.year(), d.month(), d.day()), (2024, 1, 2));
}

#[test]
fn date_text_is_iso() {
    assert_eq!(day(2024, 1, 2).text(), "2024-01-02");
    assert_eq!(day(1999, 12, 31).text(), "1999-12-31");
}

#[test]
fn dates_are_ordered_by_year_month_day() {
    assert!(day(2023, 12, 31).before(&day(2024, 1, 1)));
    assert!(day(2024, 1, 31).before(&day(2024, 2, 1)));
    assert!(day(2024, 2, 1).before(&day(2024, 2, 2)));
    assert!(!day(2024, 2, 2).before(&day(2024, 2, 2)));
    assert!(!day(2024, 2, 2).before(&day(2023, 12, 31)));
    assert!(day(2024, 2, 2).same(&day(2024, 2, 2)));
    assert!(!day(2024, 2, 2).same(&day(2024, 2, 3)));
}

#[test]
fn span_must_not_end_before_it_starts() {
    let a = day(2024, 1, 1);
    let b = day(2024, 1, 2);
    assert_eq!(DateSpan::new(a, b), Ok(DateSpan { from: a, to: b }));
    assert_eq!(DateSpan::new(a, a), Ok(DateSpan { from: a, to: a }));
    assert_eq!(DateSpan::new(b, a), Err(ClientError::InvalidArgument));
    assert!(DateSpan { from: a, to: b }.is_valid());
    assert!(!DateSpan { from: b, to: a }.is_valid());
    assert!(DateSpan { from: a, to: b }.same(&DateSpan { from: a, to: b }));
    assert!(!DateSpan { from: a, to: b }.same(&DateSpan { from: a, to: a }));
}

#[test]
fn durations_show_hours_and_minutes() {
    assert_eq!(duration_text(0), "00:00");
    assert_eq!(duration_text(5), "00:05");
    assert_eq!(duration_text(75), "01:15");
    assert_eq!(duration_text(600), "10:00");
    assert_eq!(duration_text(6000), "100:00");
}

#[test]
fn minutes_show_as_durations() {
    assert_eq!(Minutes(0).text(), "00:00");
    assert_eq!(Minutes(135).text(), "02:15");
    assert_eq!(Minutes(u32::MAX).text(), "71582788:15");
}

#[test]
fn join_puts_the_separator_between() {
    assert_eq!(join(&vec![], ", "), "");
    assert_eq!(join(&vec!["a".to_string()], ", "), "a");
    assert_eq!(join(&vec!["a".to_string(), "b".to_string(), "c".to_string()], ", "), "a, b, c");
}

#[test]
fn duplicate_all_copies_each_item() {
    let items = sample();
    assert_eq!(duplicate_all(&items), items);
}

#[test]
fn entries_group_by_day_ascending() {
    let groups = group_by_date(&sample());
    assert_eq!(
        groups,
        vec![
            DayGroup {
                date: day(2024, 1, 1),
                total: 75,
                members: vec![entry(day(2024, 1, 1), 60, "B"), entry(day(2024, 1, 1), 15, "C")],
            },
            DayGroup {
                date: day(2024, 1, 2),
                total: 30,
                members: vec![entry(day(2024, 1, 2), 30, "A")],
            },
        ]
    );
}

#[test]
fn grouping_nothing_gives_no_group() {
    assert_eq!(group_by_date(&vec![]), vec![]);
    assert_eq!(print_flat(&vec![]), Vec::<String>::new());
}

#[test]
fn grouping_keeps_count_and_minutes() {
    let orders: Vec<Vec<usize>> =
        vec![vec![0, 1, 2], vec![0, 2, 1], vec![1, 0, 2], vec![1, 2, 0], vec![2, 0, 1], vec![2, 1, 0]];
    let base = sample();
    for order in orders {
        let input: Vec<TimeEntry> = order.iter().map(|i| base[*i].clone()).collect();
        let groups = group_by_date(&input);
        let count: usize = groups.iter().map(|g| g.members.len()).sum();
        let minutes: u128 = groups.iter().map(|g| g.total).sum();
        assert_eq!(count, 3);
        assert_eq!(minutes, 105);
        assert_eq!(minutes, minutes_total(&input));
        assert_eq!(groups.len(), 2);
        assert_eq!(groups[0].total, 75);
        assert_eq!(groups[1].total, 30);
    }
}

#[test]
fn equal_days_keep_their_order() {
    let input = vec![
        entry(day(2024, 3, 1), 1, "x"),
        entry(day(2024, 3, 1), 2, "y"),
        entry(day(2024, 2, 1), 3, "z"),
        entry(day(2024, 3, 1), 4, "w"),
    ];
    let groups = group_by_date(&input);
    assert_eq!(distinct_dates(&input), vec![day(2024, 2, 1), day(2024, 3, 1)]);
    assert_eq!(groups[1].members, vec![input[0].clone(), input[1].clone(), input[3].clone()]);
    assert_eq!(entries_on(&input, day(2024, 2, 1)), vec![input[2].clone()]);
    assert_eq!(entries_on(&input, day(2024, 2, 2)), vec![]);
    assert_eq!(
        ungroup(&groups),
        vec![input[2].clone(), input[0].clone(), input[1].clone(), input[3].clone()]
    );
}

#[test]
fn flat_has_one_line_for_each_entry() {
    let groups = group_by_date(&sample());
    let lines = print_flat(&groups);
    assert_eq!(
        lines,
        vec![
            "2024-01-01\tB\tB-project\tB-service\t01:00".to_string(),
            "2024-01-01\tC\tC-project\tC-service\t00:15".to_string(),
            "2024-01-02\tA\tA-project\tA-service\t00:30".to_string(),
        ]
    );
    assert_eq!(lines.len(), sample().len());
}

#[test]
fn pretty_entries_are_laid_out_by_the_table() {
    let text = print_pretty(&group_by_date(&sample()));
    let row = |cells: Vec<(&str, usize)>| {
        Row::new(cells.into_iter().map(|(t, s)| Cell::new(t).with_hspan(s)).collect())
    };
    let mut table = Table::new();
    table.set_titles(row(vec![("Day", 1), ("Time", 1), ("Customer", 1), ("Project", 1), ("Service", 1)]));
    table.set_format(*FORMAT_NO_LINESEP_WITH_TITLE);
    table.add_row(row(vec![("2024-01-01", 1), ("01:15", 1), (" ", 3)]));
    table.add_row(row(vec![("", 1), ("01:00", 1), ("B", 1), ("B-project", 1), ("B-service", 1)]));
    table.add_row(row(vec![("", 1), ("00:15", 1), ("C", 1), ("C-project", 1), ("C-service", 1)]));
    table.add_row(row(vec![("2024-01-02", 1), ("00:30", 1), (" ", 3)]));
    table.add_row(row(vec![("", 1), ("00:30", 1), ("A", 1), ("A-project", 1), ("A-service", 1)]));
    assert_eq!(text, table.to_string());
    assert!(text.contains("| Day        | Time  | Customer | Project   | Service   |"));
    assert!(text.contains("| 2024-01-01 | 01:15 |"));
    assert_eq!(text.lines().count(), 9);
}

#[test]
fn every_format_reports_the_same_entries() {
    let input = sample();
    let sorted = vec![input[1].clone(), input[2].clone(), input[0].clone()];
    assert_eq!(render_entries(&input, OutputFormat::Json), Report::Records(sorted));
    assert_eq!(
        render_entries(&input, OutputFormat::Flat),
        Report::Lines(print_flat(&group_by_date(&input)))
    );
    assert_eq!(
        render_entries(&input, OutputFormat::Pretty),
        Report::Table(print_pretty(&group_by_date(&input)))
    );
}

#[test]
fn entries_refuses_an_inverted_span_without_asking() {
    let mut client = Fixed { calls: 0, entries: sample(), projects: vec![] };
    let span = DateSpan { from: day(2024, 1, 2), to: day(2024, 1, 1) };
    assert_eq!(entries(&mut client, OutputFormat::Flat, span), Err(ClientError::InvalidArgument));
    assert_eq!(client.calls, 0);
    let span = DateSpan { from: day(2024, 1, 1), to: day(2024, 1, 2) };
    let report = entries(&mut client, OutputFormat::Flat, span).unwrap();
    assert_eq!(client.calls, 1);
    assert_eq!(report, Report::Lines(print_flat(&group_by_date(&sample()))));
}

#[test]
fn projects_group_by_customer_ascending() {
    let input = vec![
        project("Zeta", "z1"),
        project("Acme", "a1"),
        project("Zeta", "z2"),
        project("Acme", "a2"),
        project("Ab", "b1"),
    ];
    assert_eq!(
        distinct_customers(&input),
        vec!["Ab".to_string(), "Acme".to_string(), "Zeta".to_string()]
    );
    assert_eq!(projects_of(&input, &"Zeta".to_string()), vec![project("Zeta", "z1"), project("Zeta", "z2")]);
    assert_eq!(
        group_by_customer(&input),
        vec![
            CustomerGroup { customer_name: "Ab".to_string(), members: vec![project("Ab", "b1")] },
            CustomerGroup {
                customer_name: "Acme".to_string(),
                members: vec![project("Acme", "a1"), project("Acme", "a2")],
            },
            CustomerGroup {
                customer_name: "Zeta".to_string(),
                members: vec![project("Zeta", "z1"), project("Zeta", "z2")],
            },
        ]
    );
}

#[test]
fn customers_are_ordered_as_strings_are() {
    let mut names = vec!["b", "B", "a", "ab", "", "é", "z", "a"];
    let input: Vec<Project> = names.iter().map(|n| project(n, "p")).collect();
    names.sort();
    names.dedup();
    let expected: Vec<String> = names.iter().map(|n| n.to_string()).collect();
    assert_eq!(distinct_customers(&input), expected);
}

#[test]
fn projects_render_flat_and_pretty() {
    let input = vec![project("Zeta", "z1"), project("Acme", "a1"), project("Zeta", "z2")];
    assert_eq!(
        render_projects(&input, OutputFormat::Flat),
        Report::Lines(vec!["Acme/a1".to_string(), "Zeta/z1".to_string(), "Zeta/z2".to_string()])
    );
    assert_eq!(
        render_projects(&input, OutputFormat::Json),
        Report::Records(vec![project("Acme", "a1"), project("Zeta", "z1"), project("Zeta", "z2")])
    );
    let mut table = Table::new();
    table.add_row(Row::new(vec![Cell::new("Customer"), Cell::new("Projects")]));
    table.add_row(Row::new(vec![Cell::new("Acme"), Cell::new("a1")]));
    table.add_row(Row::new(vec![Cell::new("Zeta"), Cell::new("z1\nz2")]));
    match render_projects(&input, OutputFormat::Pretty) {
        Report::Table(text) => {
            assert_eq!(text, table.to_string());
            assert!(text.contains("| Zeta     | z1       |"));
            assert!(text.contains("|          | z2       |"));
            assert!(text.contains("| Customer | Projects |"));
            assert!(!text.contains("="));
        }
        other => panic!("not a table: {:?}", other),
    }
}

#[test]
fn all_projects_hands_a_failure_on() {
    let mut client = Fixed { calls: 0, entries: vec![], projects: vec![] };
    assert_eq!(
        all_projects(&mut client, OutputFormat::Flat),
        Err(AppError::Client(ClientError::AuthFailure))
    );
    let mut client = Fixed { calls: 0, entries: vec![], projects: vec![project("Acme", "a1")] };
    assert_eq!(
        all_projects(&mut client, OutputFormat::Flat),
        Ok(Report::Lines(vec!["Acme/a1".to_string()]))
    );
    assert_eq!(client.calls, 1);
}
