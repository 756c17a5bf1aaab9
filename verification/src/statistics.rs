//! Counts for the status bar and the charts: the work units planned and
//! done on the open tasks, and the work units logged on a day, in a week,
//! in a month and in a year.

use crate::data_manage::{log_views, TaskLogJson, TaskLogView};
use crate::date_manage::{
    date_views, days_in_month, get_this_month, get_this_week, monday_of, rest_of_month,
    week_in_range, Date, DateError, DateView, MAX_YEAR,
};
use crate::todo::{item_views, TodoItem, TodoItemView};
use chrono::Datelike;
use vstd::prelude::*;

verus! {

/// The format in which the time of a log entry is written.
pub const DATE_FORMAT: &'static str = "%Y/%m/%d %H:%M:%S%Z";

/// The mark of a work unit that is done.
pub const DONE_MARK: char = '\u{25A0}';

/// The mark of a work unit that is planned and not done.
pub const OPEN_MARK: char = '\u{25A1}';

/// The bar of a task's work units: a mark for each one done, then a mark
/// for each one planned beyond those.
pub open spec fn pomodoro_bar_text(executed: nat, estimate: nat) -> Seq<char> {
    Seq::new(executed, |i: int| DONE_MARK) + Seq::new(
        if executed < estimate {
            (estimate - executed) as nat
        } else {
            0
        },
        |i: int| OPEN_MARK,
    )
}

/// The bar of a task's work units.
pub fn pomodoro_bar(executed_count: usize, estimate_count: usize) -> (bar: String)
    ensures
        bar@ == pomodoro_bar_text(executed_count as nat, estimate_count as nat),
{
    let mut bar = String::new();
    let mut done: usize = 0;
    while done < executed_count
        invariant
            done <= executed_count,
            bar@ == Seq::new(done as nat, |i: int| DONE_MARK),
        decreases executed_count - done,
    {
        bar.push(DONE_MARK);
        done += 1;
        proof {
            assert(bar@ == Seq::new(done as nat, |i: int| DONE_MARK));
        }
    }
    proof {
        assert(bar@ == Seq::new(executed_count as nat, |i: int| DONE_MARK) + Seq::new(
            0nat,
            |i: int| OPEN_MARK,
        ));
    }
    let mut open: usize = executed_count;
    while open < estimate_count
        invariant
            executed_count <= open,
            open <= estimate_count || open == executed_count,
            bar@ == Seq::new(executed_count as nat, |i: int| DONE_MARK) + Seq::new(
                (open - executed_count) as nat,
                |i: int| OPEN_MARK,
            ),
        decreases estimate_count - open,
    {
        bar.push(OPEN_MARK);
        open += 1;
        proof {
            assert(bar@ == Seq::new(executed_count as nat, |i: int| DONE_MARK) + Seq::new(
                (open - executed_count) as nat,
                |i: int| OPEN_MARK,
            ));
        }
    }
    proof {
        assert(bar@ =~= pomodoro_bar_text(executed_count as nat, estimate_count as nat));
    }
    bar
}

/// The work units planned on the unfinished tasks of `todos`.
pub open spec fn estimate_sum(todos: Seq<TodoItemView>) -> nat
    decreases todos.len(),
{
    if todos.len() == 0 {
        0
    } else {
        estimate_sum(todos.drop_last()) + if todos.last().finished {
            0
        } else {
            todos.last().estimate_count
        }
    }
}

/// The work units done on the unfinished tasks of `todos`, where a task
/// counts for no more than was planned on it.
pub open spec fn executed_sum(todos: Seq<TodoItemView>) -> nat
    decreases todos.len(),
{
    if todos.len() == 0 {
        0
    } else {
        executed_sum(todos.drop_last()) + if todos.last().finished {
            0
        } else if todos.last().executed_count < todos.last().estimate_count {
            todos.last().executed_count
        } else {
            todos.last().estimate_count
        }
    }
}

/// No more is done than is planned.
pub proof fn lemma_executed_within_estimate(todos: Seq<TodoItemView>)
    ensures
        executed_sum(todos) <= estimate_sum(todos),
    decreases todos.len(),
{
    if todos.len() > 0 {
        lemma_executed_within_estimate(todos.drop_last());
    }
}

/// The sums grow with the tasks.
pub proof fn lemma_estimate_sum_grows(todos: Seq<TodoItemView>, n: int)
    requires
        0 <= n <= todos.len(),
    ensures
        estimate_sum(todos.take(n)) <= estimate_sum(todos),
    decreases todos.len() - n,
{
    if n == todos.len() {
        assert(todos.take(n) == todos);
    } else {
        lemma_estimate_sum_grows(todos, n + 1);
        assert(todos.take(n + 1).drop_last() == todos.take(n));
    }
}

/// The work units done and planned on the unfinished tasks of `todos`, in
/// that order; nothing if the planned ones are more than a `usize` holds.
pub fn total_estimate(todos: &Vec<TodoItem>) -> (totals: Option<(usize, usize)>)
    ensures
        match totals {
            Some(sums) => sums.0 == executed_sum(item_views(todos@)) && sums.1 == estimate_sum(
                item_views(todos@),
            ),
            None => estimate_sum(item_views(todos@)) > usize::MAX,
        },
{
    let ghost all = item_views(todos@);
    let mut executed: usize = 0;
    let mut estimate: usize = 0;
    let mut i: usize = 0;
    while i < todos.len()
        invariant
            i <= todos.len(),
            all == item_views(todos@),
            executed == executed_sum(all.take(i as int)),
            estimate == estimate_sum(all.take(i as int)),
        decreases todos.len() - i,
    {
        proof {
            assert(all.take(i + 1).drop_last() == all.take(i as int));
            assert(all.take(i + 1).last() == todos[i as int]@);
            lemma_estimate_sum_grows(all, i + 1);
            lemma_executed_within_estimate(all.take(i + 1));
        }
        let todo = &todos[i];
        if !todo.finished {
            estimate = match estimate.checked_add(todo.estimate_count) {
                Some(sum) => sum,
                None => {
                    return None;
                },
            };
            let counted = if todo.executed_count < todo.estimate_count {
                todo.executed_count
            } else {
                todo.estimate_count
            };
            executed = executed + counted;
        }
        i += 1;
    }
    proof {
        assert(all.take(i as int) == all);
    }
    Some((executed, estimate))
}

/// The day that is written at the start of the time of a log entry, as
/// `chrono::NaiveDateTime::parse_from_str` reads it with `DATE_FORMAT`;
/// nothing if the text is not a time in that format.
pub uninterp spec fn log_date(text: Seq<char>) -> Option<DateView>;

/// Reads the time of a log entry with
/// `chrono::NaiveDateTime::parse_from_str` and `DATE_FORMAT`, and hands
/// back year, month and day of it. The outcome depends on the text alone.
#[verifier::external_body]
fn read_log_date(text: &str) -> (parts: Option<(i32, u32, u32)>)
    ensures
        match parts {
            Some(parts) => log_date(text@) == Some(
                DateView { year: parts.0 as int, month: parts.1 as int, day: parts.2 as int },
            ),
            None => log_date(text@).is_none(),
        },
{
    match chrono::NaiveDateTime::parse_from_str(text, DATE_FORMAT) {
        Ok(time) => Some((time.year(), time.month(), time.day())),
        Err(_) => None,
    }
}

/// The day of a log entry, if its time can be read and the calendar has the
/// day.
pub open spec fn day_of_log(log: TaskLogView) -> Option<DateView> {
    match log_date(log.date) {
        Some(day) => if day.valid() {
            Some(day)
        } else {
            None
        },
        None => None,
    }
}

/// The day of a log entry.
pub fn get_log_date(log: &TaskLogJson) -> (day: Option<Date>)
    ensures
        match day {
            Some(day) => day_of_log(log@) == Some(day@),
            None => day_of_log(log@).is_none(),
        },
{
    match read_log_date(log.date.as_str()) {
        Some(parts) => Date::from_ymd(parts.0, parts.1, parts.2),
        None => None,
    }
}

/// The days of the log entries, in their order; nothing for an entry whose
/// day cannot be read.
pub open spec fn days_of_logs(logs: Seq<TaskLogView>) -> Seq<Option<DateView>> {
    Seq::new(logs.len(), |i: int| day_of_log(logs[i]))
}

/// The values of a sequence of days of which some are missing.
pub open spec fn day_views(days: Seq<Option<Date>>) -> Seq<Option<DateView>> {
    Seq::new(
        days.len(),
        |i: int|
            match days[i] {
                Some(day) => Some(day@),
                None => None,
            },
    )
}

/// The days of the log entries, in their order.
pub fn get_log_dates(task_log: &Vec<TaskLogJson>) -> (days: Vec<Option<Date>>)
    ensures
        day_views(days@) == days_of_logs(log_views(task_log@)),
{
    let mut days: Vec<Option<Date>> = Vec::new();
    let mut i: usize = 0;
    while i < task_log.len()
        invariant
            i <= task_log.len(),
            days.len() == i,
            forall|k: int|
                0 <= k < i ==> day_views(days@)[k] == day_of_log(#[trigger] task_log[k]@),
        decreases task_log.len() - i,
    {
        days.push(get_log_date(&task_log[i]));
        i += 1;
    }
    proof {
        assert(day_views(days@) =~= days_of_logs(log_views(task_log@)));
    }
    days
}

/// How many of `days` are there and are days that `wanted` accepts.
pub open spec fn count_where(days: Seq<Option<DateView>>, wanted: spec_fn(DateView) -> bool) -> nat
    decreases days.len(),
{
    if days.len() == 0 {
        0
    } else {
        count_where(days.drop_last(), wanted) + if days.last() matches Some(day) && wanted(day) {
            1nat
        } else {
            0nat
        }
    }
}

/// How many of `days` are the day `day`.
pub open spec fn count_on(days: Seq<Option<DateView>>, day: DateView) -> nat {
    count_where(days, |at: DateView| at == day)
}

/// How many of `days` lie in the given month of the given year.
pub open spec fn count_in_month(days: Seq<Option<DateView>>, year: int, month: int) -> nat {
    count_where(days, |at: DateView| at.year == year && at.month == month)
}

/// There are no more days counted than there are days.
pub proof fn lemma_count_bounded(days: Seq<Option<DateView>>, wanted: spec_fn(DateView) -> bool)
    ensures
        count_where(days, wanted) <= days.len(),
    decreases days.len(),
{
    if days.len() > 0 {
        lemma_count_bounded(days.drop_last(), wanted);
    }
}

/// How many of `days` are the day `day`.
pub fn count_days_on(days: &Vec<Option<Date>>, day: &Date) -> (count: u64)
    ensures
        count == count_on(day_views(days@), day@),
{
    let ghost all = day_views(days@);
    let ghost wanted = |at: DateView| at == day@;
    let mut count: u64 = 0;
    let mut i: usize = 0;
    while i < days.len()
        invariant
            i <= days.len(),
            all == day_views(days@),
            wanted == (|at: DateView| at == day@),
            count == count_where(all.take(i as int), wanted),
            count <= i,
        decreases days.len() - i,
    {
        proof {
            assert(all.take(i + 1).drop_last() == all.take(i as int));
            assert(all.take(i + 1).last() == all[i as int]);
        }
        let same = match &days[i] {
            Some(at) => at.year() == day.year() && at.month() == day.month() && at.day()
                == day.day(),
            None => false,
        };
        if same {
            count += 1;
        }
        i += 1;
    }
    proof {
        assert(all.take(i as int) == all);
    }
    count
}

/// How many of `days` lie in the given month of the given year.
pub fn count_days_in_month(days: &Vec<Option<Date>>, year: i32, month: u32) -> (count: u64)
    ensures
        count == count_in_month(day_views(days@), year as int, month as int),
{
    let ghost all = day_views(days@);
    let ghost wanted = |at: DateView| at.year == year as int && at.month == month as int;
    let mut count: u64 = 0;
    let mut i: usize = 0;
    while i < days.len()
        invariant
            i <= days.len(),
            all == day_views(days@),
            wanted == (|at: DateView| at.year == year as int && at.month == month as int),
            count == count_where(all.take(i as int), wanted),
            count <= i,
        decreases days.len() - i,
    {
        proof {
            assert(all.take(i + 1).drop_last() == all.take(i as int));
            assert(all.take(i + 1).last() == all[i as int]);
        }
        let inside = match &days[i] {
            Some(at) => at.year() == year && at.month() == month,
            None => false,
        };
        if inside {
            count += 1;
        }
        i += 1;
    }
    proof {
        assert(all.take(i as int) == all);
    }
    count
}

/// For each of `wanted`, in their order, how many of `days` are that day.
pub fn count_days_on_each(days: &Vec<Option<Date>>, wanted: &Vec<Date>) -> (counts: Vec<u64>)
    ensures
        counts.len() == wanted.len(),
        forall|i: int|
            0 <= i < counts.len() ==> #[trigger] counts[i] == count_on(
                day_views(days@),
                wanted[i]@,
            ),
{
    let mut counts: Vec<u64> = Vec::new();
    let mut i: usize = 0;
    while i < wanted.len()
        invariant
            i <= wanted.len(),
            counts.len() == i,
            forall|k: int|
                0 <= k < i ==> #[trigger] counts[k] == count_on(day_views(days@), wanted[k]@),
        decreases wanted.len() - i,
    {
        counts.push(count_days_on(days, &wanted[i]));
        i += 1;
    }
    counts
}

/// How many work units the log holds for `day`.
pub fn count_logs_on(task_log: &Vec<TaskLogJson>, day: &Date) -> (count: u64)
    ensures
        count == count_on(days_of_logs(log_views(task_log@)), day@),
{
    let days = get_log_dates(task_log);
    count_days_on(&days, day)
}

/// How many work units the log holds for each of `days`, in their order.
pub fn count_logs_on_each(task_log: &Vec<TaskLogJson>, days: &Vec<Date>) -> (counts: Vec<u64>)
    ensures
        counts.len() == days.len(),
        forall|i: int|
            0 <= i < counts.len() ==> #[trigger] counts[i] == count_on(
                days_of_logs(log_views(task_log@)),
                days[i]@,
            ),
{
    let read = get_log_dates(task_log);
    count_days_on_each(&read, days)
}

/// How many work units the log holds for each day of the week of `today`,
/// from Monday to Sunday.
pub fn count_logs_of_week(task_log: &Vec<TaskLogJson>, today: Date) -> (res: Result<
    Vec<u64>,
    DateError,
>)
    ensures
        match res {
            Ok(counts) => week_in_range(today@) && counts.len() == 7 && forall|i: int|
                0 <= i < 7 ==> #[trigger] counts[i] == count_on(
                    days_of_logs(log_views(task_log@)),
                    monday_of(today@).plus_days(i as nat),
                ),
            Err(_) => !week_in_range(today@),
        },
{
    match get_this_week(today) {
        Ok(week) => Ok(count_logs_on_each(task_log, &week)),
        Err(e) => Err(e),
    }
}

/// How many work units the log holds for each day of the month of `today`,
/// from the first to the last.
pub fn count_logs_of_month(task_log: &Vec<TaskLogJson>, today: Date) -> (res: Result<
    Vec<u64>,
    DateError,
>)
    ensures
        match res {
            Ok(counts) => !(today@.year == MAX_YEAR && today@.month == 12) && counts.len()
                == days_in_month(today@.year, today@.month) && forall|i: int|
                0 <= i < counts.len() ==> #[trigger] counts[i] == count_on(
                    days_of_logs(log_views(task_log@)),
                    DateView { day: i + 1, ..today@ },
                ),
            Err(_) => today@.year == MAX_YEAR && today@.month == 12,
        },
{
    match get_this_month(today) {
        Ok(days) => {
            let counts = count_logs_on_each(task_log, &days);
            proof {
                assert forall|i: int| 0 <= i < counts.len() implies #[trigger] counts[i]
                    == count_on(
                    days_of_logs(log_views(task_log@)),
                    DateView { day: i + 1, ..today@ },
                ) by {
                    assert(date_views(days@)[i] == rest_of_month(today@.first_of_month())[i]);
                }
            }
            Ok(counts)
        },
        Err(e) => Err(e),
    }
}

/// How many work units the log holds for each of the twelve months of the
/// given year.
pub fn count_logs_of_year(task_log: &Vec<TaskLogJson>, year: i32) -> (counts: Vec<u64>)
    ensures
        counts.len() == 12,
        forall|i: int|
            0 <= i < 12 ==> #[trigger] counts[i] == count_in_month(
                days_of_logs(log_views(task_log@)),
                year as int,
                i + 1,
            ),
{
    let read = get_log_dates(task_log);
    let mut counts: Vec<u64> = Vec::new();
    let mut month: u32 = 1;
    while month <= 12
        invariant
            1 <= month <= 13,
            counts.len() == month - 1,
            day_views(read@) == days_of_logs(log_views(task_log@)),
            forall|k: int|
                0 <= k < counts.len() ==> #[trigger] counts[k] == count_in_month(
                    days_of_logs(log_views(task_log@)),
                    year as int,
                    k + 1,
                ),
        decreases 13 - month,
    {
        counts.push(count_days_in_month(&read, year, month));
        month += 1;
    }
    counts
}

} // verus!
