//! The projects of an account: fetched, grouped by customer, and rendered.

use vstd::prelude::*;
use vstd::string::*;
use crate::client::Client;
use crate::entries::Report;
use crate::model::{AppError, ClientError, OutputFormat, Project, Record};
use crate::table::{cell, grid_table, grid_table_text, row_view, rows_view, CellView, TableCell};
use crate::text::{
    join, joined, lemma_text_order_total, lemma_text_order_transitive, name_before, text_before,
    texts,
};

verus! {

/// The projects of one customer.
#[derive(Clone, Debug, PartialEq, Eq)]
pub struct CustomerGroup {
    pub customer_name: String,
    pub members: Vec<Project>,
}

/// The test "is a project of this customer".
pub open spec fn of_customer(name: Seq<char>) -> spec_fn(Project) -> bool {
    |p: Project| p.customer_name@ == name
}

/// The names are strictly ascending.
pub open spec fn names_ascend(names: Seq<Seq<char>>) -> bool {
    forall|i: int, j: int|
        0 <= i < j < names.len() ==> text_before(#[trigger] names[i], #[trigger] names[j])
}

/// `names` holds the customers of `projects`: each of them, and no other.
pub open spec fn names_cover(projects: Seq<Project>, names: Seq<Seq<char>>) -> bool {
    &&& forall|k: int|
        0 <= k < projects.len() ==> names.contains(#[trigger] projects[k].customer_name@)
    &&& forall|i: int|
        0 <= i < names.len() ==> projects.filter(of_customer(#[trigger] names[i])).len() > 0
}

/// The customers of the groups, in their order.
pub open spec fn group_names(groups: Seq<CustomerGroup>) -> Seq<Seq<char>> {
    groups.map_values(|g: CustomerGroup| g.customer_name@)
}

/// `groups` is `projects` grouped by customer: one group for each customer
/// that occurs, customers ascending, no group empty, and within a customer
/// the order of `projects`.
pub open spec fn grouped_by_customer(projects: Seq<Project>, groups: Seq<CustomerGroup>) -> bool {
    &&& names_ascend(group_names(groups))
    &&& names_cover(projects, group_names(groups))
    &&& forall|i: int|
        0 <= i < groups.len() ==> (#[trigger] groups[i]).members@ == projects.filter(
            of_customer(groups[i].customer_name@),
        )
}

/// The projects of one customer, in the order of `projects`.
pub fn projects_of(projects: &Vec<Project>, name: &String) -> (members: Vec<Project>)
    ensures
        members@ == projects@.filter(of_customer(name@)),
{
    let mut members: Vec<Project> = Vec::new();
    let mut i: usize = 0;
    proof {
        reveal(Seq::filter);
    }
    while i < projects.len()
        invariant
            i <= projects.len(),
            members@ == projects@.take(i as int).filter(of_customer(name@)),
        decreases projects.len() - i,
    {
        proof {
            assert(projects@.take(i + 1) =~= projects@.take(i as int).push(projects@[i as int]));
            projects@.take(i as int).lemma_filter_push(projects@[i as int], of_customer(name@));
        }
        if projects[i].customer_name == *name {
            members.push(projects[i].duplicate());
        }
        i += 1;
    }
    assert(projects@.take(projects.len() as int) =~= projects@);
    members
}

proof fn lemma_customer_occurs(projects: Seq<Project>, k: int)
    requires
        0 <= k < projects.len(),
    ensures
        projects.filter(of_customer(projects[k].customer_name@)).len() > 0,
{
    projects.lemma_filter_contains(of_customer(projects[k].customer_name@), k);
}

proof fn lemma_customer_stays(projects: Seq<Project>, k: int, name: Seq<char>)
    requires
        0 <= k < projects.len(),
        projects.take(k).filter(of_customer(name)).len() > 0,
    ensures
        projects.take(k + 1).filter(of_customer(name)).len() > 0,
{
    assert(projects.take(k + 1) =~= projects.take(k).push(projects[k]));
    projects.take(k).lemma_filter_push(projects[k], of_customer(name));
}

/// The customers that have projects, each once, ascending.
pub fn distinct_customers(projects: &Vec<Project>) -> (names: Vec<String>)
    ensures
        names_ascend(texts(names@)),
        names_cover(projects@, texts(names@)),
{
    let mut names: Vec<String> = Vec::new();
    let mut k: usize = 0;
    proof {
        reveal(Seq::filter);
    }
    while k < projects.len()
        invariant
            k <= projects.len(),
            names_ascend(texts(names@)),
            names_cover(projects@.take(k as int), texts(names@)),
        decreases projects.len() - k,
    {
        let name = &projects[k].customer_name;
        let mut p: usize = 0;
        while p < names.len() && name_before(names[p].as_str(), name.as_str())
            invariant
                p <= names.len(),
                forall|i: int| 0 <= i < p ==> text_before(names@[i]@, name@),
            decreases names.len() - p,
        {
            p += 1;
        }
        let ghost before = texts(names@);
        let ghost seen = projects@.take(k as int);
        let ghost next = projects@.take(k + 1);
        proof {
            assert(next =~= seen.push(projects@[k as int]));
            assert(next[k as int] == projects@[k as int]);
            lemma_customer_occurs(next, k as int);
        }
        if p < names.len() && names[p] == *name {
            proof {
                assert(before[p as int] == name@);
                assert(before.contains(name@));
                assert forall|i: int| 0 <= i < before.len() implies next.filter(
                    of_customer(#[trigger] before[i]),
                ).len() > 0 by {
                    lemma_customer_stays(projects@, k as int, before[i]);
                }
                assert forall|j: int| 0 <= j < next.len() implies before.contains(
                    #[trigger] next[j].customer_name@,
                ) by {
                    if j < k {
                        assert(next[j] == seen[j]);
                    }
                }
            }
        } else {
            names.insert(p, name.clone());
            proof {
                let after = texts(names@);
                assert(after[p as int] == name@);
                assert forall|i: int| 0 <= i < after.len() implies #[trigger] after[i] == (if i
                    < p {
                    before[i]
                } else if i == p {
                    name@
                } else {
                    before[i - 1]
                }) by {}
                if p < before.len() {
                    lemma_text_order_total(before[p as int], name@);
                }
                assert forall|i: int, j: int| 0 <= i < j < after.len() implies text_before(
                    #[trigger] after[i],
                    #[trigger] after[j],
                ) by {
                    if j < p {
                        assert(text_before(before[i], before[j]));
                    } else if j == p {
                        assert(text_before(names@[i]@, name@));
                    } else if i < p {
                        assert(text_before(before[i], before[j - 1]));
                    } else if i == p {
                        if j - 1 > p {
                            assert(text_before(before[p as int], before[j - 1]));
                            lemma_text_order_transitive(name@, before[p as int], before[j - 1]);
                        }
                    } else {
                        assert(text_before(before[i - 1], before[j - 1]));
                    }
                }
                assert forall|i: int| 0 <= i < after.len() implies next.filter(
                    of_customer(#[trigger] after[i]),
                ).len() > 0 by {
                    if i != p {
                        lemma_customer_stays(projects@, k as int, after[i]);
                    }
                }
                assert forall|j: int| 0 <= j < next.len() implies after.contains(
                    #[trigger] next[j].customer_name@,
                ) by {
                    if j < k {
                        assert(next[j] == seen[j]);
                        assert(before.contains(seen[j].customer_name@));
                        let w = choose|w: int|
                            0 <= w < before.len() && before[w] == seen[j].customer_name@;
                        if w < p {
                            assert(after[w] == before[w]);
                        } else {
                            assert(after[w + 1] == before[w]);
                        }
                    } else {
                        assert(after[p as int] == next[j].customer_name@);
                    }
                }
            }
        }
        k += 1;
    }
    assert(projects@.take(projects.len() as int) =~= projects@);
    names
}

/// Groups the projects by customer: customers ascending, and within a
/// customer the projects in the order in which they were given.
pub fn group_by_customer(projects: &Vec<Project>) -> (groups: Vec<CustomerGroup>)
    ensures
        grouped_by_customer(projects@, groups@),
{
    let names = distinct_customers(projects);
    let mut groups: Vec<CustomerGroup> = Vec::new();
    let mut i: usize = 0;
    while i < names.len()
        invariant
            i <= names.len(),
            groups.len() == i,
            group_names(groups@) == texts(names@).take(i as int),
            forall|g: int|
                0 <= g < groups.len() ==> (#[trigger] groups[g]).members@ == projects@.filter(
                    of_customer(groups[g].customer_name@),
                ),
        decreases names.len() - i,
    {
        let members = projects_of(projects, &names[i]);
        let ghost earlier = groups@;
        groups.push(CustomerGroup { customer_name: names[i].clone(), members });
        proof {
            assert forall|g: int| 0 <= g < groups.len() implies group_names(groups@)[g] == texts(
                names@,
            ).take(i + 1)[g] by {
                if g < i {
                    assert(groups[g] == earlier[g]);
                    assert(group_names(earlier)[g] == earlier[g].customer_name@);
                    assert(texts(names@).take(i as int)[g] == names@[g]@);
                }
            }
            assert(group_names(groups@) =~= texts(names@).take(i + 1));
            assert forall|g: int| 0 <= g < groups.len() implies (#[trigger] groups[g]).members@
                == projects@.filter(of_customer(groups[g].customer_name@)) by {
                if g < i {
                    assert(groups[g] == earlier[g]);
                }
            }
        }
        i += 1;
    }
    assert(texts(names@).take(names.len() as int) =~= texts(names@));
    groups
}

/// The projects of all the groups, group after group.
pub open spec fn ungrouped(groups: Seq<CustomerGroup>) -> Seq<Project>
    decreases groups.len(),
{
    if groups.len() == 0 {
        Seq::empty()
    } else {
        ungrouped(groups.drop_last()) + groups.last().members@
    }
}

/// The flat line of a project: customer, a slash, and the project.
pub open spec fn project_line(p: Project) -> Seq<char> {
    p.customer_name@ + "/"@ + p.name@
}

/// The names of some projects.
pub open spec fn project_names(members: Seq<Project>) -> Seq<Seq<char>> {
    members.map_values(|p: Project| p.name@)
}

/// The first row of the table of projects, which heads the columns.
pub open spec fn project_titles() -> Seq<CellView> {
    seq![("Customer"@, 1nat), ("Projects"@, 1nat)]
}

/// The rows of the table of projects: the heading, then one row for each
/// customer.
pub open spec fn project_rows(groups: Seq<CustomerGroup>) -> Seq<Seq<CellView>> {
    seq![project_titles()] + groups.map_values(|g: CustomerGroup| customer_row(g))
}

/// The row of a customer: the name, and the customer's projects one below
/// the other in one cell.
pub open spec fn customer_row(group: CustomerGroup) -> Seq<CellView> {
    seq![(group.customer_name@, 1nat), (joined(project_names(group.members@), "\n"@), 1nat)]
}

/// The projects of the groups as one list, in the groups' order.
pub fn ungroup(groups: &Vec<CustomerGroup>) -> (projects: Vec<Project>)
    ensures
        projects@ == ungrouped(groups@),
{
    let mut projects: Vec<Project> = Vec::new();
    let mut g: usize = 0;
    while g < groups.len()
        invariant
            g <= groups.len(),
            projects@ == ungrouped(groups@.take(g as int)),
        decreases groups.len() - g,
    {
        let members = &groups[g].members;
        let ghost done = projects@;
        let mut m: usize = 0;
        while m < members.len()
            invariant
                m <= members.len(),
                projects@ == done + members@.take(m as int),
            decreases members.len() - m,
        {
            projects.push(members[m].duplicate());
            assert(members@.take(m + 1) =~= members@.take(m as int).push(members@[m as int]));
            assert(projects@ =~= done + members@.take(m + 1));
            m += 1;
        }
        proof {
            assert(members@.take(members.len() as int) =~= members@);
            assert(groups@.take(g + 1).drop_last() =~= groups@.take(g as int));
        }
        g += 1;
    }
    assert(groups@.take(groups.len() as int) =~= groups@);
    projects
}

/// The flat form: one line for each project, in the groups' order.
pub fn print_flat(groups: &Vec<CustomerGroup>) -> (lines: Vec<String>)
    ensures
        texts(lines@) == ungrouped(groups@).map_values(|p: Project| project_line(p)),
        lines@.len() == ungrouped(groups@).len(),
{
    let projects = ungroup(groups);
    let mut lines: Vec<String> = Vec::new();
    let mut i: usize = 0;
    while i < projects.len()
        invariant
            i <= projects.len(),
            texts(lines@) == projects@.take(i as int).map_values(|p: Project| project_line(p)),
        decreases projects.len() - i,
    {
        let mut line = projects[i].customer_name.clone();
        line.append("/");
        line.append(projects[i].name.as_str());
        let ghost before = lines@;
        lines.push(line);
        proof {
            assert(projects@.take(i + 1) =~= projects@.take(i as int).push(projects@[i as int]));
            assert(texts(lines@) =~= texts(before).push(line@));
            assert(texts(lines@) =~= projects@.take(i + 1).map_values(
                |p: Project| project_line(p),
            ));
        }
        i += 1;
    }
    assert(projects@.take(projects.len() as int) =~= projects@);
    lines
}

fn customer_cells(group: &CustomerGroup) -> (row: Vec<TableCell>)
    ensures
        row_view(row@) == customer_row(*group),
{
    let mut names: Vec<String> = Vec::new();
    let mut i: usize = 0;
    while i < group.members.len()
        invariant
            i <= group.members.len(),
            texts(names@) == project_names(group.members@.take(i as int)),
        decreases group.members.len() - i,
    {
        let ghost before = names@;
        names.push(group.members[i].name.clone());
        proof {
            assert(group.members@.take(i + 1) =~= group.members@.take(i as int).push(
                group.members@[i as int],
            ));
            assert(texts(names@) =~= texts(before).push(group.members@[i as int].name@));
            assert(texts(names@) =~= project_names(group.members@.take(i + 1)));
        }
        i += 1;
    }
    assert(group.members@.take(group.members.len() as int) =~= group.members@);
    let row = vec![cell(group.customer_name.clone()), cell(join(&names, "\n"))];
    assert(row_view(row@) =~= customer_row(*group));
    row
}

/// The table of projects: a heading row, then one row for each customer.
pub fn print_pretty(groups: &Vec<CustomerGroup>) -> (text: String)
    ensures
        text@ == grid_table_text(project_rows(groups@)),
{
    let titles = vec![cell(String::from_str("Customer")), cell(String::from_str("Projects"))];
    assert(row_view(titles@) =~= project_titles());
    let mut rows: Vec<Vec<TableCell>> = Vec::new();
    rows.push(titles);
    assert(rows_view(rows@) =~= project_rows(groups@.take(0)));
    let mut g: usize = 0;
    while g < groups.len()
        invariant
            g <= groups.len(),
            rows_view(rows@) == project_rows(groups@.take(g as int)),
        decreases groups.len() - g,
    {
        let row = customer_cells(&groups[g]);
        let ghost before = rows_view(rows@);
        rows.push(row);
        proof {
            assert(groups@.take(g + 1) =~= groups@.take(g as int).push(groups@[g as int]));
            assert(rows_view(rows@) =~= before.push(customer_row(groups@[g as int])));
            assert(rows_view(rows@) =~= project_rows(groups@.take(g + 1)));
        }
        g += 1;
    }
    assert(groups@.take(groups.len() as int) =~= groups@);
    grid_table(&rows)
}

/// What is reported of fetched projects in a format: their groups as a
/// table, one line for each, or the projects themselves in the groups' order.
pub open spec fn projects_report(
    report: Report<Project>,
    format: OutputFormat,
    groups: Seq<CustomerGroup>,
) -> bool {
    match format {
        OutputFormat::Pretty => report matches Report::Table(t) && t@ == grid_table_text(
            project_rows(groups),
        ),
        OutputFormat::Flat => report matches Report::Lines(l) && texts(l@) == ungrouped(
            groups,
        ).map_values(|p: Project| project_line(p)),
        OutputFormat::Json => report matches Report::Records(r) && r@ == ungrouped(groups),
    }
}

/// Groups fetched projects by customer and renders them in `format`.
pub fn render_projects(projects: &Vec<Project>, format: OutputFormat) -> (report: Report<Project>)
    ensures
        exists|groups: Seq<CustomerGroup>| #[trigger]
            grouped_by_customer(projects@, groups) && projects_report(report, format, groups),
{
    let groups = group_by_customer(projects);
    let report = match format {
        OutputFormat::Pretty => Report::Table(print_pretty(&groups)),
        OutputFormat::Json => Report::Records(ungroup(&groups)),
        OutputFormat::Flat => Report::Lines(print_flat(&groups)),
    };
    assert(grouped_by_customer(projects@, groups@) && projects_report(report, format, groups@));
    report
}

/// What is made of an answer to the query of projects: a failure is handed
/// on as a client's error, and projects are grouped by customer and rendered.
pub open spec fn made_of_projects(
    fetched: Result<Vec<Project>, ClientError>,
    format: OutputFormat,
    done: Result<Report<Project>, AppError>,
) -> bool {
    match fetched {
        Ok(found) => done matches Ok(report) && exists|groups: Seq<CustomerGroup>| #[trigger]
            grouped_by_customer(found@, groups) && projects_report(report, format, groups),
        Err(e) => done == Err::<Report<Project>, AppError>(AppError::Client(e)),
    }
}

/// Makes of an answer to the query of projects what `made_of_projects` says.
pub fn report_projects(fetched: Result<Vec<Project>, ClientError>, format: OutputFormat) -> (done:
    Result<Report<Project>, AppError>)
    ensures
        made_of_projects(fetched, format, done),
{
    match fetched {
        Ok(projects) => Ok(render_projects(&projects, format)),
        Err(e) => Err(AppError::Client(e)),
    }
}

/// All the projects, fetched from `client`, grouped by customer and rendered
/// in `output_format`. `client` is asked once, and what comes back is what
/// is made of its answer: the projects that it found, grouped and rendered,
/// or its failure as a client's error.
pub fn all_projects<C: Client>(client: &mut C, output_format: OutputFormat) -> (done: Result<
    Report<Project>,
    AppError,
>)
    ensures
        exists|fetched: Result<Vec<Project>, ClientError>|
            made_of_projects(fetched, output_format, done),
{
    let fetched = client.get_projects();
    let done = report_projects(fetched, output_format);
    assert(made_of_projects(fetched, output_format, done));
    done
}

} // verus!
