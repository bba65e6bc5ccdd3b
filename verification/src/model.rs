//! The records of an account, the span of a query, and the errors.

use vstd::prelude::*;
use vstd::string::*;
use crate::date::Date;
use crate::text::{duration_digits, duration_text};

verus! {

/// A count of minutes.
#[derive(Clone, Copy, Debug, PartialEq, Eq, Structural)]
pub struct Minutes(pub u32);

impl Minutes {
    /// The display form of the count: hours and minutes, `HH:MM`.
    pub fn text(&self) -> (text: String)
        ensures
            text@ == duration_digits(self.0 as nat),
    {
        duration_text(self.0 as u128)
    }
}

/// One booking of time on one day.
#[derive(Clone, Debug, PartialEq, Eq)]
pub struct TimeEntry {
    pub date: Date,
    pub minutes: Minutes,
    pub customer_name: String,
    pub project_name: String,
    pub service_name: String,
}

/// A project of a customer.
#[derive(Clone, Debug, PartialEq, Eq)]
pub struct Project {
    pub customer_name: String,
    pub name: String,
}

/// A service that time is booked on.
#[derive(Clone, Debug, PartialEq, Eq)]
pub struct Service {
    pub name: String,
}

/// A record that can be copied field by field.
pub trait Record: Sized {
    fn duplicate(&self) -> (copy: Self)
        ensures
            copy == *self,
    ;
}

impl Record for TimeEntry {
    fn duplicate(&self) -> (copy: Self) {
        TimeEntry {
            date: self.date,
            minutes: self.minutes,
            customer_name: self.customer_name.clone(),
            project_name: self.project_name.clone(),
            service_name: self.service_name.clone(),
        }
    }
}

impl Record for Project {
    fn duplicate(&self) -> (copy: Self) {
        Project { customer_name: self.customer_name.clone(), name: self.name.clone() }
    }
}

impl Record for Service {
    fn duplicate(&self) -> (copy: Self) {
        Service { name: self.name.clone() }
    }
}

/// A copy of a list of records, equal to it item by item.
pub fn duplicate_all<T: Record>(items: &Vec<T>) -> (copy: Vec<T>)
    ensures
        copy@ == items@,
{
    let mut copy: Vec<T> = Vec::new();
    let mut i: usize = 0;
    while i < items.len()
        invariant
            i <= items.len(),
            copy@ == items@.take(i as int),
        decreases items.len() - i,
    {
        copy.push(items[i].duplicate());
        assert(items@.take(i + 1) =~= items@.take(i as int).push(items@[i as int]));
        i += 1;
    }
    assert(items@.take(items.len() as int) =~= items@);
    copy
}

/// What a query can fail with.
#[derive(Clone, Copy, Debug, PartialEq, Eq, Structural)]
pub enum ClientError {
    InvalidArgument,
    NetworkFailure,
    AuthFailure,
    ServerError,
    Unavailable,
    CacheCorrupt,
}

/// What a command can fail with.
#[derive(Clone, Debug, PartialEq, Eq)]
pub enum AppError {
    UserError(String),
    InternalError(String),
    Client(ClientError),
}

/// The days from `from` to `to`, both included.
#[derive(Clone, Copy, Debug, PartialEq, Eq, Structural)]
pub struct DateSpan {
    pub from: Date,
    pub to: Date,
}

impl DateSpan {
    /// A span is valid when it does not end before it starts.
    pub open spec fn valid(self) -> bool {
        self.from.ordinal() <= self.to.ordinal()
    }

    /// The span of the two days, unless it would end before it starts.
    pub fn new(from: Date, to: Date) -> (span: Result<DateSpan, ClientError>)
        ensures
            from.ordinal() <= to.ordinal() ==> span == Ok::<DateSpan, ClientError>(
                DateSpan { from, to },
            ),
            from.ordinal() > to.ordinal() ==> span == Err::<DateSpan, ClientError>(
                ClientError::InvalidArgument,
            ),
    {
        if to.before(&from) {
            Err(ClientError::InvalidArgument)
        } else {
            Ok(DateSpan { from, to })
        }
    }

    pub fn is_valid(&self) -> (b: bool)
        ensures
            b == self.valid(),
    {
        !self.to.before(&self.from)
    }

    /// Whether the two spans start and end on the same days.
    pub fn same(&self, other: &DateSpan) -> (b: bool)
        ensures
            b == (*self == *other),
    {
        self.from.same(&other.from) && self.to.same(&other.to)
    }
}

/// How a command prints what it found.
#[derive(Clone, Copy, Debug, PartialEq, Eq, Structural)]
pub enum OutputFormat {
    Pretty,
    Json,
    Flat,
}

impl OutputFormat {
    /// The format of that name: `pretty`, `json` or `flat`. Any other name is
    /// a user's error, whose message quotes the name.
    pub fn from_string(format: &str) -> (parsed: Result<OutputFormat, AppError>)
        ensures
            format@ == "pretty"@ ==> parsed == Ok::<OutputFormat, AppError>(OutputFormat::Pretty),
            format@ == "json"@ ==> parsed == Ok::<OutputFormat, AppError>(OutputFormat::Json),
            format@ == "flat"@ ==> parsed == Ok::<OutputFormat, AppError>(OutputFormat::Flat),
            format@ != "pretty"@ && format@ != "json"@ && format@ != "flat"@ ==> (parsed matches Err(
                AppError::UserError(message),
            ) && message@ == "Invalid output format: "@ + format@),
    {
        proof {
            reveal_strlit("pretty");
            reveal_strlit("json");
            reveal_strlit("flat");
            assert("pretty"@.len() == 6 && "json"@.len() == 4 && "flat"@.len() == 4);
            assert("json"@[0] == 'j' && "flat"@[0] == 'f');
        }
        let name = String::from_str(format);
        if name == String::from_str("pretty") {
            Ok(OutputFormat::Pretty)
        } else if name == String::from_str("json") {
            Ok(OutputFormat::Json)
        } else if name == String::from_str("flat") {
            Ok(OutputFormat::Flat)
        } else {
            Err(AppError::UserError(String::from_str("Invalid output format: ").concat(format)))
        }
    }
}

/// The minutes that a fetched answer stays fresh where a configuration names none.
pub fn default_cache_ttl() -> (minutes: u64)
    ensures
        minutes == 1440,
{
    1440
}

/// The account to query and how long its answers are kept.
#[derive(Clone, Debug, PartialEq, Eq)]
pub struct Config {
    pub domain: String,
    pub token: String,
    pub cache_ttl_minutes: u64,
}

} // verus!
