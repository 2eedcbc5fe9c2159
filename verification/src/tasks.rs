//! The calendar task list: building a task from a `DATE:HH:MM:NAME`
//! argument string, and rendering a task list for display. Loading and
//! saving the list are file I/O and live outside the library.

use vstd::prelude::*;
use crate::digits::{all_digits, dec_val, dec_str, read_decimal, to_decimal};

verus! {

/// One scheduled task.
#[derive(Debug)]
pub struct Task {
    /// The scheduled moment, written `YYYY-MM-DD:HH:MM`.
    pub datetime: String,
    /// The task's name.
    pub name: String,
    /// Whether the task has been notified already.
    pub notified: bool,
}

/// `c` is one of the common whitespace characters stripped from both ends
/// of a task name.
pub open spec fn is_space(c: char) -> bool {
    c == ' ' || c == '\t' || c == '\n' || c == '\r'
}

/// `y` is a leap year of the Gregorian calendar.
pub open spec fn is_leap(y: int) -> bool {
    (y % 4 == 0 && y % 100 != 0) || y % 400 == 0
}

/// Number of days of month `m` in year `y`.
pub open spec fn days_in_month(y: int, m: int) -> int {
    if m == 2 {
        if is_leap(y) {
            29
        } else {
            28
        }
    } else if m == 4 || m == 6 || m == 9 || m == 11 {
        30
    } else {
        31
    }
}

/// `s` writes a calendar date as `YYYY-MM-DD`: four, two and two digits,
/// dashes between, a real month and a real day of that month and year.
pub open spec fn valid_date(s: Seq<char>) -> bool {
    &&& s.len() == 10
    &&& all_digits(s.subrange(0, 4))
    &&& s[4] == '-'
    &&& all_digits(s.subrange(5, 7))
    &&& s[7] == '-'
    &&& all_digits(s.subrange(8, 10))
    &&& 1 <= dec_val(s.subrange(5, 7)) <= 12
    &&& 1 <= dec_val(s.subrange(8, 10)) <= days_in_month(
        dec_val(s.subrange(0, 4)),
        dec_val(s.subrange(5, 7)),
    )
}

/// `s` writes a two-digit number of value at most `max`.
pub open spec fn valid_two_digits(s: Seq<char>, max: int) -> bool {
    &&& s.len() == 2
    &&& all_digits(s)
    &&& dec_val(s) <= max
}

/// `p1 < p2 < p3` are the positions of the first three colons of `s`;
/// later characters may hold more colons (they belong to the task name).
pub open spec fn first_three_colons(s: Seq<char>, p1: int, p2: int, p3: int) -> bool {
    &&& 0 <= p1 < p2 < p3 < s.len()
    &&& s[p1] == ':'
    &&& s[p2] == ':'
    &&& s[p3] == ':'
    &&& forall|q: int| 0 <= q < p3 && s[q] == ':' ==> q == p1 || q == p2
}

/// `s` holds at least three colons.
pub open spec fn has_three_colons(s: Seq<char>) -> bool {
    exists|p1: int, p2: int, p3: int| first_three_colons(s, p1, p2, p3)
}

/// `s` is a well-formed task argument: three colon-separated leading
/// fields writing a valid date, hour and minute.
pub open spec fn valid_task_args(s: Seq<char>) -> bool {
    exists|p1: int, p2: int, p3: int|
        {
            &&& first_three_colons(s, p1, p2, p3)
            &&& valid_date(s.subrange(0, p1))
            &&& valid_two_digits(s.subrange(p1 + 1, p2), 23)
            &&& valid_two_digits(s.subrange(p2 + 1, p3), 59)
        }
}

/// `[lo, hi)` strips the whitespace from both ends of `s[start..)`:
/// everything outside it back to `start` is whitespace, and a non-empty
/// remainder neither starts nor ends with whitespace.
pub open spec fn trimmed_range(s: Seq<char>, start: int, lo: int, hi: int) -> bool {
    &&& start <= lo <= hi <= s.len()
    &&& (forall|q: int| start <= q < lo ==> is_space(s[q]))
    &&& (forall|q: int| hi <= q < s.len() ==> is_space(s[q]))
    &&& (lo < hi ==> !is_space(s[lo]) && !is_space(s[hi - 1]))
}

/// There is only one way to place the first three colons.
pub proof fn lemma_first_three_unique(
    s: Seq<char>,
    p1: int,
    p2: int,
    p3: int,
    q1: int,
    q2: int,
    q3: int,
)
    requires
        first_three_colons(s, p1, p2, p3),
        first_three_colons(s, q1, q2, q3),
    ensures
        p1 == q1 && p2 == q2 && p3 == q3,
{
    if p3 < q3 {
        assert(p1 == q1 || p1 == q2);
        assert(p2 == q1 || p2 == q2);
        assert(p3 == q1 || p3 == q2);
    } else if q3 < p3 {
        assert(q1 == p1 || q1 == p2);
        assert(q2 == p1 || q2 == p2);
        assert(q3 == p1 || q3 == p2);
    } else {
        assert(p1 == q1 || p1 == q2);
        assert(p2 == q1 || p2 == q2);
        assert(q1 == p1 || q1 == p2);
        assert(q2 == p1 || q2 == p2);
    }
}

/// Whether `c` is one of the whitespace characters a task name sheds.
fn is_space_char(c: char) -> (b: bool)
    ensures
        b == is_space(c),
{
    c == ' ' || c == '\t' || c == '\n' || c == '\r'
}

/// The first position in `s[start..end)` that holds no whitespace, or
/// `end` when the whole range is whitespace.
fn skip_spaces_forward(s: &str, start: usize, end: usize) -> (lo: usize)
    requires
        start <= end <= s@.len(),
    ensures
        start <= lo <= end,
        forall|q: int| start <= q < lo ==> is_space(s@[q]),
        lo < end ==> !is_space(s@[lo as int]),
{
    let mut lo = start;
    while lo < end
        invariant
            start <= lo <= end <= s@.len(),
            forall|q: int| start <= q < lo ==> is_space(s@[q]),
        decreases end - lo,
    {
        if !is_space_char(s.get_char(lo)) {
            return lo;
        }
        lo = lo + 1;
    }
    lo
}

/// The position just past the last non-whitespace of `s[start..end)`, or
/// `start` when the whole range is whitespace.
fn skip_spaces_backward(s: &str, start: usize, end: usize) -> (hi: usize)
    requires
        start <= end <= s@.len(),
    ensures
        start <= hi <= end,
        forall|q: int| hi <= q < end ==> is_space(s@[q]),
        hi > start ==> !is_space(s@[hi - 1]),
{
    let mut hi = end;
    while hi > start
        invariant
            start <= hi <= end <= s@.len(),
            forall|q: int| hi <= q < end ==> is_space(s@[q]),
        decreases hi,
    {
        if !is_space_char(s.get_char(hi - 1)) {
            return hi;
        }
        hi = hi - 1;
    }
    hi
}

/// Checks that `s[lo..hi)` writes a valid `YYYY-MM-DD` date.
fn check_date(s: &str, lo: usize, hi: usize) -> (b: bool)
    requires
        lo <= hi <= s@.len(),
    ensures
        b == valid_date(s@.subrange(lo as int, hi as int)),
{
    let ghost seg = s@.subrange(lo as int, hi as int);
    if hi - lo != 10 {
        return false;
    }
    proof {
        assert(seg[4] == s@[(lo + 4) as int]);
        assert(seg[7] == s@[(lo + 7) as int]);
    }
    if !(s.get_char(lo + 4) == '-' && s.get_char(lo + 7) == '-') {
        return false;
    }
    let y = read_decimal(s, lo, lo + 4);
    let m = read_decimal(s, lo + 5, lo + 7);
    let d = read_decimal(s, lo + 8, lo + 10);
    proof {
        assert(seg.subrange(0, 4) =~= s@.subrange(lo as int, (lo + 4) as int));
        assert(seg.subrange(5, 7) =~= s@.subrange((lo + 5) as int, (lo + 7) as int));
        assert(seg.subrange(8, 10) =~= s@.subrange((lo + 8) as int, (lo + 10) as int));
    }
    match (y, m, d) {
        (Some(y), Some(m), Some(d)) => {
            if !(1 <= m && m <= 12) {
                return false;
            }
            let dim: u32 = if m == 2 {
                if (y % 4 == 0 && y % 100 != 0) || y % 400 == 0 {
                    29
                } else {
                    28
                }
            } else if m == 4 || m == 6 || m == 9 || m == 11 {
                30
            } else {
                31
            };
            1 <= d && d <= dim
        },
        _ => false,
    }
}

/// Checks that `s[lo..hi)` writes two digits of value at most `max`.
fn check_two_digits(s: &str, lo: usize, hi: usize, max: u32) -> (b: bool)
    requires
        lo <= hi <= s@.len(),
    ensures
        b == valid_two_digits(s@.subrange(lo as int, hi as int), max as int),
{
    if hi - lo != 2 {
        return false;
    }
    match read_decimal(s, lo, hi) {
        Some(v) => v <= max,
        _ => false,
    }
}

/// Builds a task from an argument string `YYYY-MM-DD:HH:MM:NAME`.
///
/// Succeeds exactly when the string has at least three colons and its
/// three leading fields write a valid date, hour and minute. The task then
/// carries the string up to the third colon as its datetime, the rest with
/// surrounding whitespace stripped as its name, and starts un-notified.
/// Too few colons and a bad date or time give distinct error messages.
pub fn add_new_task(args: &str) -> (r: Result<Task, String>)
    ensures
        r is Ok <==> valid_task_args(args@),
        (r matches Ok(t) ==> exists|p1: int, p2: int, p3: int|
            {
                &&& first_three_colons(args@, p1, p2, p3)
                &&& t.datetime@ == args@.subrange(0, p3)
                &&& exists|lo: int, hi: int|
                    {
                        &&& trimmed_range(args@, p3 + 1, lo, hi)
                        &&& t.name@ == args@.subrange(lo, hi)
                    }
                &&& t.notified == false
            }),
        (r matches Err(m) ==> m@ == (if has_three_colons(args@) {
            "Invalid date/time format. Ensure date is YYYY-MM-DD and time is HH:MM."@
        } else {
            "Invalid argument format. Use YYYY-MM-DD:HH:MM:Task Name."@
        })),
{
    let len = args.unicode_len();
    let mut i: usize = 0;
    let mut ncolons: usize = 0;
    let mut c1: usize = 0;
    let mut c2: usize = 0;
    let mut c3: usize = 0;
    while i < len && ncolons < 3
        invariant
            len == args@.len(),
            0 <= i <= len,
            ncolons <= 3,
            ncolons >= 1 ==> 0 <= c1 < i && args@[c1 as int] == ':',
            ncolons >= 2 ==> c1 < c2 < i && args@[c2 as int] == ':',
            ncolons >= 3 ==> c2 < c3 < i && args@[c3 as int] == ':',
            forall|q: int|
                0 <= q < i && args@[q] == ':' ==> ((ncolons >= 1 && q == c1) || (ncolons >= 2
                    && q == c2) || (ncolons >= 3 && q == c3)),
        decreases len - i,
    {
        let c = args.get_char(i);
        if c == ':' {
            if ncolons == 0 {
                c1 = i;
            } else if ncolons == 1 {
                c2 = i;
            } else {
                c3 = i;
            }
            ncolons = ncolons + 1;
        }
        i = i + 1;
    }
    if ncolons < 3 {
        proof {
            if has_three_colons(args@) {
                let (p1, p2, p3) = choose|p1: int, p2: int, p3: int|
                    first_three_colons(args@, p1, p2, p3);
            }
        }
        return Err("Invalid argument format. Use YYYY-MM-DD:HH:MM:Task Name.".to_owned());
    }
    proof {
        assert(first_three_colons(args@, c1 as int, c2 as int, c3 as int));
    }
    let date_ok = check_date(args, 0, c1);
    let hour_ok = check_two_digits(args, c1 + 1, c2, 23);
    let minute_ok = check_two_digits(args, c2 + 1, c3, 59);
    if !(date_ok && hour_ok && minute_ok) {
        proof {
            if valid_task_args(args@) {
                let (p1, p2, p3) = choose|p1: int, p2: int, p3: int|
                    {
                        &&& first_three_colons(args@, p1, p2, p3)
                        &&& valid_date(args@.subrange(0, p1))
                        &&& valid_two_digits(args@.subrange(p1 + 1, p2), 23)
                        &&& valid_two_digits(args@.subrange(p2 + 1, p3), 59)
                    };
                lemma_first_three_unique(args@, p1, p2, p3, c1 as int, c2 as int, c3 as int);
            }
        }
        return Err(
            "Invalid date/time format. Ensure date is YYYY-MM-DD and time is HH:MM.".to_owned(),
        );
    }
    let datetime = args.substring_char(0, c3).to_owned();
    let lo = skip_spaces_forward(args, c3 + 1, len);
    let hi = skip_spaces_backward(args, lo, len);
    let name = args.substring_char(lo, hi).to_owned();
    proof {
        assert(trimmed_range(args@, (c3 + 1) as int, lo as int, hi as int));
    }
    Ok(Task { datetime, name, notified: false })
}

/// The display marker for a task's notification state.
pub open spec fn status_text(notified: bool) -> Seq<char> {
    if notified {
        "[DONE]"@
    } else {
        "[PENDING]"@
    }
}

/// The display line of task `t` at position `i` of the list: its one-based
/// number, datetime, name and status marker.
pub open spec fn task_line(i: nat, t: Task) -> Seq<char> {
    dec_str(i + 1) + ". "@ + t.datetime@ + " | "@ + t.name@ + " "@ + status_text(t.notified)
        + "\n"@
}

/// The display lines of the first `n` tasks, in order.
pub open spec fn task_lines(ts: Seq<Task>, n: nat) -> Seq<char>
    decreases n,
{
    if n == 0 {
        Seq::empty()
    } else {
        task_lines(ts, (n - 1) as nat) + task_line((n - 1) as nat, ts[n - 1])
    }
}

/// The full display text of a task list: a fixed line for an empty list,
/// otherwise a header, one line per task, and a footer.
pub open spec fn show_spec(ts: Seq<Task>) -> Seq<char> {
    if ts.len() == 0 {
        "No scheduled tasks."@
    } else {
        "--- Scheduled Tasks ---\n"@ + task_lines(ts, ts.len()) + "-----------------------"@
    }
}

/// Renders the task list for display, exactly as `show_spec` describes.
pub fn show_tasks(tasks: Vec<Task>) -> (out: String)
    ensures
        out@ == show_spec(tasks@),
{
    if tasks.len() == 0 {
        return "No scheduled tasks.".to_owned();
    }
    let mut out = String::from_str("--- Scheduled Tasks ---\n");
    let mut i: usize = 0;
    while i < tasks.len()
        invariant
            i <= tasks@.len(),
            out@ == "--- Scheduled Tasks ---\n"@ + task_lines(tasks@, i as nat),
        decreases tasks@.len() - i,
    {
        let num = to_decimal(i + 1);
        out.append(num.as_str());
        out.append(". ");
        out.append(tasks[i].datetime.as_str());
        out.append(" | ");
        out.append(tasks[i].name.as_str());
        out.append(" ");
        if tasks[i].notified {
            out.append("[DONE]");
        } else {
            out.append("[PENDING]");
        }
        out.append("\n");
        proof {
            assert(out@ =~= "--- Scheduled Tasks ---\n"@ + task_lines(tasks@, (i + 1) as nat));
        }
        i = i + 1;
    }
    out.append("-----------------------");
    proof {
        assert(out@ =~= show_spec(tasks@));
    }
    out
}

} // verus!
