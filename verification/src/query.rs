//! Story sort modes and the numeric filters of story searches.

use vstd::prelude::*;
use crate::text::{decimal, decimal_string};
use crate::utils::{days_ago, from_day_offset_to_time_offset_in_secs, unix_now_secs};

verus! {

/// How a story list is sorted.
#[derive(Debug, Clone, Copy, PartialEq, Eq, Structural)]
pub enum StorySortMode {
    NoSort,
    Date,
    Points,
}

/// The sort mode after `m` for the story tag `tag`: `story` and `job`
/// stories cycle between date and points, other tags go through no sort
/// order, date and points; `front_page` stories have no sort order.
pub open spec fn next_sort_mode(m: StorySortMode, tag: Seq<char>) -> StorySortMode {
    if tag == "front_page"@ {
        StorySortMode::NoSort
    } else {
        match m {
            StorySortMode::NoSort => StorySortMode::Date,
            StorySortMode::Date => StorySortMode::Points,
            StorySortMode::Points => if tag == "story"@ || tag == "job"@ {
                StorySortMode::Date
            } else {
                StorySortMode::NoSort
            },
        }
    }
}

/// Cycling the sort mode comes back to where it started: after two steps
/// for `story` and `job` stories, which have a sort order, after three for
/// any other tag but `front_page`, whose stories stay unsorted.
pub proof fn sort_mode_cycle(m: StorySortMode, tag: Seq<char>)
    ensures
        tag == "front_page"@ ==> next_sort_mode(m, tag) == StorySortMode::NoSort,
        (tag == "story"@ || tag == "job"@) && m != StorySortMode::NoSort ==> next_sort_mode(
            next_sort_mode(m, tag),
            tag,
        ) == m && next_sort_mode(m, tag) != StorySortMode::NoSort,
        tag != "front_page"@ && tag != "story"@ && tag != "job"@ ==> next_sort_mode(
            next_sort_mode(next_sort_mode(m, tag), tag),
            tag,
        ) == m,
{
    reveal_strlit("front_page");
    reveal_strlit("story");
    reveal_strlit("job");
    assert("story"@.len() != "front_page"@.len());
    assert("job"@.len() != "front_page"@.len());
}

/// Compares two strings character by character.
pub fn str_eq(a: &str, b: &str) -> (res: bool)
    ensures
        res == (a@ == b@),
{
    let x = crate::text::chars_of(a);
    let y = crate::text::chars_of(b);
    if x.len() != y.len() {
        assert(x@.len() != y@.len());
        return false;
    }
    let mut i: usize = 0;
    while i < x.len()
        invariant
            x@ == a@,
            y@ == b@,
            x.len() == y.len(),
            i <= x.len(),
            forall|k: int| 0 <= k < i ==> x@[k] == y@[k],
        decreases x.len() - i,
    {
        if x[i] != y[i] {
            assert(x@[i as int] != y@[i as int]);
            return false;
        }
        i += 1;
    }
    assert(x@ =~= y@);
    true
}

impl StorySortMode {
    /// Cycles to the next sort mode of a story tag. `front_page` stories
    /// have no sort mode and `story`/`job` stories always have one, so
    /// those combinations are not accepted.
    pub fn next(self, tag: &str) -> (res: StorySortMode)
        requires
            tag@ == "front_page"@ ==> self == StorySortMode::NoSort,
            (tag@ == "story"@ || tag@ == "job"@) ==> self != StorySortMode::NoSort,
        ensures
            res == next_sort_mode(self, tag@),
    {
        if str_eq(tag, "front_page") {
            return StorySortMode::NoSort;
        }
        match self {
            StorySortMode::NoSort => StorySortMode::Date,
            StorySortMode::Date => StorySortMode::Points,
            StorySortMode::Points => {
                if str_eq(tag, "story") || str_eq(tag, "job") {
                    StorySortMode::Date
                } else {
                    StorySortMode::NoSort
                }
            },
        }
    }
}

/// An interval of values, each bound optional.
#[derive(Debug, Clone, Copy, PartialEq, Eq, Structural)]
pub struct FilterInterval {
    pub start: Option<u64>,
    pub end: Option<u64>,
}

/// The Algolia numeric-filter text of an interval on `field`.
pub open spec fn interval_query(i: FilterInterval, field: Seq<char>) -> Seq<char> {
    (match i.start {
        Some(x) => ","@ + field + ">="@ + decimal(x as nat),
        None => Seq::empty(),
    }) + (match i.end {
        Some(x) => ","@ + field + "<"@ + decimal(x as nat),
        None => Seq::empty(),
    })
}

/// The description of an interval on `field`: `field: [start:end]`.
pub open spec fn interval_desc(i: FilterInterval, field: Seq<char>) -> Seq<char> {
    field + ": ["@ + (match i.start {
        Some(x) => decimal(x as nat),
        None => Seq::empty(),
    }) + ":"@ + (match i.end {
        Some(x) => decimal(x as nat),
        None => Seq::empty(),
    }) + "]"@
}

impl FilterInterval {
    /// An interval with the given bounds.
    pub fn new(start: Option<u64>, end: Option<u64>) -> (res: FilterInterval)
        ensures
            res.start == start && res.end == end,
    {
        FilterInterval { start, end }
    }

    /// The interval without bounds.
    pub fn unbounded() -> (res: FilterInterval)
        ensures
            res.start is None && res.end is None,
    {
        FilterInterval { start: None, end: None }
    }

    /// The numeric-filter text for `field`: `,field>=start` and
    /// `,field<end` for the bounds that are set.
    pub fn query(&self, field: &str) -> (res: String)
        ensures
            res@ == interval_query(*self, field@),
    {
        let mut s = String::new();
        match self.start {
            Some(x) => {
                s.append(",");
                s.append(field);
                s.append(">=");
                let d = decimal_string(x);
                s.append(d.as_str());
            },
            None => {},
        }
        let ghost first = s@;
        match self.end {
            Some(x) => {
                s.append(",");
                s.append(field);
                s.append("<");
                let d = decimal_string(x);
                s.append(d.as_str());
            },
            None => {},
        }
        proof {
            reveal_strlit("");
        }
        assert(s@ =~= interval_query(*self, field@));
        s
    }

    /// The description `field: [start:end]`, unset bounds left empty.
    pub fn desc(&self, field: &str) -> (res: String)
        ensures
            res@ == interval_desc(*self, field@),
    {
        let mut s = String::from_str(field);
        s.append(": [");
        match self.start {
            Some(x) => {
                let d = decimal_string(x);
                s.append(d.as_str());
            },
            None => {},
        }
        s.append(":");
        match self.end {
            Some(x) => {
                let d = decimal_string(x);
                s.append(d.as_str());
            },
            None => {},
        }
        s.append("]");
        assert(s@ =~= interval_desc(*self, field@));
        s
    }
}

/// Numeric filters of a story search.
#[derive(Debug, Clone, Copy, PartialEq, Eq, Structural)]
pub struct StoryNumericFilters {
    pub elapsed_days_interval: FilterInterval,
    pub points_interval: FilterInterval,
    pub num_comments_interval: FilterInterval,
}

/// No filter at all.
pub open spec fn no_filters() -> StoryNumericFilters {
    StoryNumericFilters {
        elapsed_days_interval: FilterInterval { start: None, end: None },
        points_interval: FilterInterval { start: None, end: None },
        num_comments_interval: FilterInterval { start: None, end: None },
    }
}

impl Default for FilterInterval {
    /// The interval without bounds.
    fn default() -> (res: FilterInterval)
        ensures
            res == (FilterInterval { start: None, end: None }),
    {
        FilterInterval { start: None, end: None }
    }
}

impl Default for StoryNumericFilters {
    /// No filter at all.
    fn default() -> (res: StoryNumericFilters)
        ensures
            res == no_filters(),
    {
        StoryNumericFilters {
            elapsed_days_interval: FilterInterval { start: None, end: None },
            points_interval: FilterInterval { start: None, end: None },
            num_comments_interval: FilterInterval { start: None, end: None },
        }
    }
}

/// The unix time `day` days before `now`, when a day count is given.
pub open spec fn elapsed_to_time(elapsed: Option<u64>, now: u64) -> Option<u64> {
    match elapsed {
        None => None,
        Some(d) => Some(days_ago(now, d)),
    }
}

/// The creation-time interval of a day interval: a story at most `end`
/// days old was created after `now - end` days, one at least `start` days
/// old before `now - start` days.
pub open spec fn time_interval(f: StoryNumericFilters, now: u64) -> FilterInterval {
    FilterInterval {
        start: elapsed_to_time(f.elapsed_days_interval.end, now),
        end: elapsed_to_time(f.elapsed_days_interval.start, now),
    }
}

/// All numeric filters as Algolia text, each behind a comma.
pub open spec fn filters_text(f: StoryNumericFilters, now: u64) -> Seq<char> {
    interval_query(time_interval(f, now), "created_at_i"@) + interval_query(f.points_interval, "points"@)
        + interval_query(f.num_comments_interval, "num_comments"@)
}

/// The `&numericFilters=` query parameter: empty without filters,
/// otherwise the filters without their leading comma.
pub open spec fn numeric_filters_query(f: StoryNumericFilters, now: u64) -> Seq<char> {
    let t = filters_text(f, now);
    if t.len() == 0 {
        Seq::empty()
    } else {
        "&numericFilters="@ + t.drop_first()
    }
}

/// The description of all filters.
pub open spec fn numeric_filters_desc(f: StoryNumericFilters) -> Seq<char> {
    interval_desc(f.elapsed_days_interval, "elapsed_days"@) + ", "@ + interval_desc(
        f.points_interval,
        "points"@,
    ) + ", "@ + interval_desc(f.num_comments_interval, "num_comments"@)
}

impl StoryNumericFilters {
    /// No filter at all.
    pub fn unfiltered() -> (res: StoryNumericFilters)
        ensures
            res.elapsed_days_interval == (FilterInterval { start: None, end: None }),
            res.points_interval == (FilterInterval { start: None, end: None }),
            res.num_comments_interval == (FilterInterval { start: None, end: None }),
    {
        StoryNumericFilters {
            elapsed_days_interval: FilterInterval::unbounded(),
            points_interval: FilterInterval::unbounded(),
            num_comments_interval: FilterInterval::unbounded(),
        }
    }

    /// The unix time `elapsed_days` days before `now`.
    pub fn from_elapsed_days_to_unix_time(elapsed_days: Option<u64>, now: u64) -> (res: Option<u64>)
        ensures
            res == elapsed_to_time(elapsed_days, now),
    {
        match elapsed_days {
            None => None,
            Some(d) => Some(crate::utils::time_days_ago(now, d)),
        }
    }

    /// The description of all filters, e.g.
    /// `elapsed_days: [1:], points: [:50], num_comments: [:]`.
    pub fn desc(&self) -> (res: String)
        ensures
            res@ == numeric_filters_desc(*self),
    {
        let mut s = self.elapsed_days_interval.desc("elapsed_days");
        s.append(", ");
        let p = self.points_interval.desc("points");
        s.append(p.as_str());
        s.append(", ");
        let n = self.num_comments_interval.desc("num_comments");
        s.append(n.as_str());
        s
    }

    /// The `&numericFilters=` query parameter at time `now`; day bounds
    /// become creation-time bounds.
    pub fn query_at(&self, now: u64) -> (res: String)
        ensures
            res@ == numeric_filters_query(*self, now),
    {
        let time_interval = FilterInterval {
            end: Self::from_elapsed_days_to_unix_time(self.elapsed_days_interval.start, now),
            start: Self::from_elapsed_days_to_unix_time(self.elapsed_days_interval.end, now),
        };
        let mut q = time_interval.query("created_at_i");
        let p = self.points_interval.query("points");
        q.append(p.as_str());
        let n = self.num_comments_interval.query("num_comments");
        q.append(n.as_str());
        let chars = crate::text::chars_of(q.as_str());
        if chars.len() == 0 {
            String::new()
        } else {
            let mut out = String::from_str("&numericFilters=");
            let rest = q.as_str().substring_char(1, chars.len());
            out.append(rest);
            assert(rest@ =~= q@.drop_first());
            out
        }
    }

    /// The `&numericFilters=` query parameter at the current time.
    pub fn query(&self) -> (res: String)
        ensures
            exists|now: u64| res@ == #[trigger] numeric_filters_query(*self, now),
    {
        let now = unix_now_secs();
        self.query_at(now)
    }
}

} // verus!
