//! Statistics page: reading its filter.

use vstd::prelude::*;

use crate::domain::stats::Granularity;
use crate::text::eq_str;

verus! {

pub struct Filter {
    pub g: Option<String>,
    /// Period of the roll-ups: `30d`, `90d`, `365d` or `all` (default `90d`).
    pub r: Option<String>,
}

/// The filter as the page applies it.
pub struct StatsQuery {
    /// Granularity name as shown (`month` when none was given).
    pub granularity: String,
    pub gran: Granularity,
    /// Period name as shown (`90d` when none was given).
    pub range: String,
    /// How many days back the roll-ups reach; `None` for all time.
    pub since_days: Option<i64>,
}

pub open spec fn or_default(o: Option<String>, d: Seq<char>) -> Seq<char> {
    match o {
        Some(s) => s@,
        None => d,
    }
}

pub open spec fn gran_of(g: Seq<char>) -> Granularity {
    if g == "quarter"@ {
        Granularity::Quarter
    } else if g == "year"@ {
        Granularity::Year
    } else {
        Granularity::Month
    }
}

pub open spec fn days_of(r: Seq<char>) -> Option<i64> {
    if r == "30d"@ {
        Some(30)
    } else if r == "365d"@ {
        Some(365)
    } else if r == "all"@ {
        None
    } else {
        Some(90)
    }
}

/// Unknown granularities read as months, unknown periods as 90 days.
pub fn stats_query(filter: &Filter) -> (q: StatsQuery)
    ensures
        q.granularity@ == or_default(filter.g, "month"@),
        q.gran == gran_of(q.granularity@),
        q.range@ == or_default(filter.r, "90d"@),
        q.since_days == days_of(q.range@),
{
    let g = match &filter.g {
        Some(s) => s.clone(),
        None => String::from_str("month"),
    };
    let gran = if eq_str(g.as_str(), "quarter") {
        Granularity::Quarter
    } else if eq_str(g.as_str(), "year") {
        Granularity::Year
    } else {
        Granularity::Month
    };
    let range = match &filter.r {
        Some(s) => s.clone(),
        None => String::from_str("90d"),
    };
    let since_days = if eq_str(range.as_str(), "30d") {
        Some(30)
    } else if eq_str(range.as_str(), "365d") {
        Some(365)
    } else if eq_str(range.as_str(), "all") {
        None
    } else {
        Some(90)
    };
    StatsQuery { granularity: g, gran, range, since_days }
}

/// Only `quarter` and `year` change the granularity (months otherwise), and
/// only `30d`, `365d` and `all` change the period (90 days otherwise; `all`
/// reaches back without limit).
pub proof fn lemma_filter_values(g: Seq<char>, r: Seq<char>)
    ensures
        gran_of(g) == Granularity::Quarter <==> g == "quarter"@,
        gran_of(g) == Granularity::Year <==> g == "year"@,
        g != "quarter"@ && g != "year"@ ==> gran_of(g) == Granularity::Month,
        days_of(r) is None <==> r == "all"@,
        days_of(r) == Some(30i64) <==> r == "30d"@,
        days_of(r) == Some(365i64) <==> r == "365d"@,
        r != "30d"@ && r != "365d"@ && r != "all"@ ==> days_of(r) == Some(90i64),
{
    reveal_strlit("quarter");
    reveal_strlit("year");
    reveal_strlit("30d");
    reveal_strlit("365d");
    reveal_strlit("all");
    assert("quarter"@.len() == 7 && "year"@.len() == 4);
    assert("30d"@.len() == 3 && "365d"@.len() == 4 && "all"@.len() == 3);
    assert("30d"@[0] != "all"@[0]);
}

} // verus!
