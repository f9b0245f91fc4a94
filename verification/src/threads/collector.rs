//! Turning what the process table says of the threads into metrics.
//!
//! Reading the table is left to the caller, who hands over the content of
//! each thread's files. Times stay in clock ticks, as the table gives them,
//! beside the tick rate.

use vstd::prelude::*;
use vstd::string::StrSliceExecFns;
use vstd::string::StringExecFns;
use crate::text::{chars_of, decimal, push_decimal};
use crate::threads::fields::{
    fields_of,
    is_space,
    is_space_char,
    parse_u64,
    parsed_u64,
    split_fields,
};
use crate::threads::stat::{field_text, parse_stat, stat_line_of, StatError};
use crate::threads::status::{state_to_status, status_name};

verus! {

/// The tick rate assumed where the system reports none.
pub const DEFAULT_TICKS_PER_SEC: u64 = 100;

/// The tick rate to use for what the system reports: the report itself where
/// it is positive, 100 Hz otherwise.
pub open spec fn ticks_per_sec_of(reported: i64) -> u64 {
    if reported <= 0 {
        DEFAULT_TICKS_PER_SEC
    } else {
        reported as u64
    }
}

/// Clock ticks per second, from what the system reports.
pub fn clock_ticks_per_sec(reported: i64) -> (r: u64)
    ensures
        r == ticks_per_sec_of(reported),
        r >= 1,
{
    if reported <= 0 {
        DEFAULT_TICKS_PER_SEC
    } else {
        reported as u64
    }
}

/// Index of the first character from `i` on that is no separator.
pub open spec fn first_kept(s: Seq<char>, i: int) -> int
    decreases s.len() - i,
{
    if 0 <= i < s.len() && is_space(s[i]) {
        first_kept(s, i + 1)
    } else {
        i
    }
}

/// Index after the last character before `j` that is no separator, and at
/// least `from`.
pub open spec fn last_kept(s: Seq<char>, from: int, j: int) -> int
    decreases j,
{
    if 0 <= from < j <= s.len() && is_space(s[j - 1]) {
        last_kept(s, from, j - 1)
    } else {
        j
    }
}

/// The text without the separators at its two ends.
pub open spec fn trimmed(s: Seq<char>) -> Seq<char> {
    let a = first_kept(s, 0);
    let b = last_kept(s, a, s.len() as int);
    s.subrange(a, b)
}

/// The text without the separators at its two ends.
pub fn trim(text: &str) -> (r: String)
    ensures
        r@ == trimmed(text@),
{
    let chars = chars_of(text);
    let mut a: usize = 0;
    while a < chars.len() && is_space_char(chars[a])
        invariant
            0 <= a <= chars@.len(),
            first_kept(chars@, 0) == first_kept(chars@, a as int),
        decreases chars@.len() - a,
    {
        a = a + 1;
    }
    let mut b: usize = chars.len();
    while a < b && is_space_char(chars[b - 1])
        invariant
            a <= b <= chars@.len(),
            last_kept(chars@, a as int, chars@.len() as int) == last_kept(
                chars@,
                a as int,
                b as int,
            ),
        decreases b,
    {
        b = b - 1;
    }
    text.substring_char(a, b).to_owned()
}

/// What is known of one thread.
pub struct ThreadMetrics {
    pub os_tid: u64,
    pub name: String,
    /// Unified status name.
    pub status: String,
    /// Native state code.
    pub status_code: String,
    /// Clock ticks spent in user mode since the thread began.
    pub utime_ticks: u64,
    /// Clock ticks spent in kernel mode since the thread began.
    pub stime_ticks: u64,
    /// Clock ticks per second: at least 1.
    pub ticks_per_sec: u64,
}

/// The mathematical content of a `ThreadMetrics`.
pub struct ThreadMetricsView {
    pub os_tid: u64,
    pub name: Seq<char>,
    pub status: Seq<char>,
    pub status_code: Seq<char>,
    pub utime_ticks: u64,
    pub stime_ticks: u64,
    pub ticks_per_sec: u64,
}

impl View for ThreadMetrics {
    type V = ThreadMetricsView;

    open spec fn view(&self) -> ThreadMetricsView {
        ThreadMetricsView {
            os_tid: self.os_tid,
            name: self.name@,
            status: self.status@,
            status_code: self.status_code@,
            utime_ticks: self.utime_ticks,
            stime_ticks: self.stime_ticks,
            ticks_per_sec: self.ticks_per_sec,
        }
    }
}

/// The name given to a thread whose own name cannot be read.
pub open spec fn fallback_name(tid: u64) -> Seq<char> {
    "thread_"@ + decimal(tid as nat)
}

/// A thread's name: what its name file holds, without the separators at the
/// ends, where the file was read; the fallback otherwise.
pub open spec fn thread_name_of(tid: u64, comm: Option<Seq<char>>) -> Seq<char> {
    match comm {
        Some(c) => trimmed(c),
        None => fallback_name(tid),
    }
}

/// The metrics of a thread, from its name file and its line of the table, or
/// why the line cannot be read.
pub open spec fn thread_info_of(
    tid: u64,
    comm: Option<Seq<char>>,
    stat: Seq<char>,
    ticks_per_sec: u64,
) -> Result<ThreadMetricsView, StatError> {
    match stat_line_of(stat) {
        Err(e) => Err(e),
        Ok(line) => Ok(
            ThreadMetricsView {
                os_tid: tid,
                name: thread_name_of(tid, comm),
                status: status_name(line.state),
                status_code: line.state,
                utime_ticks: line.utime_ticks,
                stime_ticks: line.stime_ticks,
                ticks_per_sec: if ticks_per_sec == 0 {
                    DEFAULT_TICKS_PER_SEC
                } else {
                    ticks_per_sec
                },
            },
        ),
    }
}

/// The view of a text that may be absent.
pub open spec fn text_view(text: Option<&str>) -> Option<Seq<char>> {
    match text {
        Some(t) => Some(t@),
        None => None,
    }
}

/// A thread's name, from the content of its name file.
pub fn thread_name(tid: u64, comm: Option<&str>) -> (r: String)
    ensures
        r@ == thread_name_of(tid, text_view(comm)),
{
    match comm {
        Some(c) => trim(c),
        None => {
            let mut out = "thread_".to_owned();
            push_decimal(&mut out, tid);
            out
        },
    }
}

/// The metrics of one thread, from the content of its name file, where it
/// could be read, and of its line of the process table.
pub fn get_thread_info(tid: u64, comm: Option<&str>, stat: &str, ticks_per_sec: u64) -> (r: Result<
    ThreadMetrics,
    StatError,
>)
    ensures
        match (r, thread_info_of(tid, text_view(comm), stat@, ticks_per_sec)) {
            (Ok(m), Ok(expected)) => m@ == expected,
            (Err(e), Err(expected)) => e == expected,
            _ => false,
        },
{
    let line = match parse_stat(stat) {
        Ok(line) => line,
        Err(e) => {
            return Err(e);
        },
    };
    let (status, status_code) = state_to_status(line.state.as_str());
    Ok(
        ThreadMetrics {
            os_tid: tid,
            name: thread_name(tid, comm),
            status,
            status_code,
            utime_ticks: line.utime_ticks,
            stime_ticks: line.stime_ticks,
            ticks_per_sec: if ticks_per_sec == 0 {
                DEFAULT_TICKS_PER_SEC
            } else {
                ticks_per_sec
            },
        },
    )
}

/// The files of one entry of the process's thread directory, as far as they
/// could be read.
pub struct TaskFiles {
    /// The entry's name in the directory.
    pub dir_name: String,
    /// Content of the thread's name file.
    pub comm: Option<String>,
    /// Content of the thread's line of the process table.
    pub stat: Option<String>,
}

/// The mathematical content of a `TaskFiles`.
pub struct TaskFilesView {
    pub dir_name: Seq<char>,
    pub comm: Option<Seq<char>>,
    pub stat: Option<Seq<char>>,
}

impl View for TaskFiles {
    type V = TaskFilesView;

    open spec fn view(&self) -> TaskFilesView {
        TaskFilesView {
            dir_name: self.dir_name@,
            comm: match self.comm {
                Some(c) => Some(c@),
                None => None,
            },
            stat: match self.stat {
                Some(s) => Some(s@),
                None => None,
            },
        }
    }
}

/// The metrics that one directory entry yields: none where its name is not a
/// thread id, its line could not be read, or the line cannot be understood.
pub open spec fn task_metrics_of(t: TaskFilesView, ticks_per_sec: u64) -> Option<
    ThreadMetricsView,
> {
    match (parsed_u64(t.dir_name), t.stat) {
        (Some(tid), Some(stat)) => match thread_info_of(tid, t.comm, stat, ticks_per_sec) {
            Ok(m) => Some(m),
            Err(_) => None,
        },
        _ => None,
    }
}

/// The metrics of the directory entries that yield any, in directory order.
pub open spec fn collected(tasks: Seq<TaskFilesView>, ticks_per_sec: u64) -> Seq<
    ThreadMetricsView,
>
    decreases tasks.len(),
{
    if tasks.len() == 0 {
        Seq::empty()
    } else {
        match task_metrics_of(tasks.last(), ticks_per_sec) {
            Some(m) => collected(tasks.drop_last(), ticks_per_sec).push(m),
            None => collected(tasks.drop_last(), ticks_per_sec),
        }
    }
}

/// The metrics of every thread that the directory shows. Entries whose name
/// is not a thread id are passed over, and so are threads whose line could
/// not be read or understood: a thread may end between the listing and the
/// reading.
pub fn collect_thread_metrics(tasks: &Vec<TaskFiles>, ticks_per_sec: u64) -> (r: Vec<
    ThreadMetrics,
>)
    ensures
        r@.map_values(|m: ThreadMetrics| m@) == collected(
            tasks@.map_values(|t: TaskFiles| t@),
            ticks_per_sec,
        ),
{
    let mut out: Vec<ThreadMetrics> = Vec::new();
    let ghost views = tasks@.map_values(|t: TaskFiles| t@);
    let mut i: usize = 0;
    assert(views.take(0) =~= Seq::<TaskFilesView>::empty());
    assert(out@.map_values(|m: ThreadMetrics| m@) =~= Seq::<ThreadMetricsView>::empty());
    while i < tasks.len()
        invariant
            0 <= i <= tasks@.len(),
            views == tasks@.map_values(|t: TaskFiles| t@),
            out@.map_values(|m: ThreadMetrics| m@) == collected(views.take(i as int), ticks_per_sec),
        decreases tasks@.len() - i,
    {
        let ghost before = out@;
        let task = &tasks[i];
        proof {
            assert(views.take(i as int + 1).drop_last() =~= views.take(i as int));
            assert(views.take(i as int + 1).last() == task@);
        }
        let name = chars_of(task.dir_name.as_str());
        assert(name@.subrange(0, name@.len() as int) =~= name@);
        match (parse_u64(name.as_slice(), 0, name.len()), &task.stat) {
            (Some(tid), Some(stat)) => {
                let comm: Option<&str> = match &task.comm {
                    Some(c) => Some(c.as_str()),
                    None => None,
                };
                match get_thread_info(tid, comm, stat.as_str(), ticks_per_sec) {
                    Ok(m) => {
                        let ghost mv = m@;
                        out.push(m);
                        assert(out@.map_values(|m: ThreadMetrics| m@) =~= before.map_values(
                            |m: ThreadMetrics| m@,
                        ).push(mv));
                    },
                    Err(_) => {},
                }
            },
            _ => {},
        }
        i = i + 1;
    }
    assert(views.take(i as int) =~= views);
    out
}

/// The resident set size in bytes that a memory line of the process table
/// gives: its second field, which counts pages, times the page size. There
/// is none where the line has fewer than two fields, the field is not a
/// number, the page size is not positive, or the product does not fit.
pub open spec fn rss_bytes_of(statm: Seq<char>, page_size: i64) -> Option<u64> {
    let fs = fields_of(statm, 0);
    if fs.len() < 2 {
        None
    } else {
        match parsed_u64(field_text(statm, fs[1])) {
            Some(pages) => if page_size > 0 && pages * page_size <= u64::MAX {
                Some((pages * page_size) as u64)
            } else {
                None
            },
            None => None,
        }
    }
}

/// The resident set size of the process in bytes, from the content of its
/// memory line and the system's page size.
pub fn get_rss_bytes(statm: &str, page_size: i64) -> (r: Option<u64>)
    ensures
        r == rss_bytes_of(statm@, page_size),
{
    let chars = chars_of(statm);
    let line = chars.as_slice();
    let fields = split_fields(line, 0);
    if fields.len() < 2 {
        return None;
    }
    let pages_field = fields[1];
    match parse_u64(line, pages_field.0, pages_field.1) {
        Some(pages) => {
            if page_size <= 0 {
                return None;
            }
            let size: u64 = page_size as u64;
            if pages != 0 && size > u64::MAX / pages {
                assert(pages * size > u64::MAX) by (nonlinear_arith)
                    requires
                        pages > 0,
                        size > u64::MAX / pages,
                ;
                return None;
            }
            assert(pages * size <= u64::MAX) by (nonlinear_arith)
                requires
                    pages == 0 || size <= u64::MAX / pages,
            ;
            Some(pages * size)
        },
        None => None,
    }
}

/// A number of clock ticks in microseconds, rounded down; `u64::MAX` where
/// that does not fit. A tick rate of 0 counts as the default rate.
pub open spec fn micros_of(ticks: u64, ticks_per_sec: u64) -> u64 {
    let rate = if ticks_per_sec == 0 {
        DEFAULT_TICKS_PER_SEC
    } else {
        ticks_per_sec
    };
    let micros = ticks * 1_000_000 / (rate as int);
    if micros > u64::MAX {
        u64::MAX
    } else {
        micros as u64
    }
}

/// A number of clock ticks in microseconds.
pub fn ticks_to_micros(ticks: u64, ticks_per_sec: u64) -> (r: u64)
    ensures
        r == micros_of(ticks, ticks_per_sec),
{
    let rate: u128 = if ticks_per_sec == 0 {
        DEFAULT_TICKS_PER_SEC as u128
    } else {
        ticks_per_sec as u128
    };
    let micros: u128 = (ticks as u128) * 1_000_000 / rate;
    if micros > u64::MAX as u128 {
        u64::MAX
    } else {
        micros as u64
    }
}

/// The share of one processor that a thread used between two samples, in
/// tenths of a per cent: the microseconds of processor time it gained, out of
/// the microseconds that passed. There is none where no time passed or the
/// later sample shows less processor time than the earlier one.
pub open spec fn cpu_share_of(
    earlier_micros: u64,
    later_micros: u64,
    interval_micros: u64,
) -> Option<u64> {
    if interval_micros == 0 || later_micros < earlier_micros {
        None
    } else {
        let share = (later_micros - earlier_micros) * 1000 / (interval_micros as int);
        if share > u64::MAX {
            Some(u64::MAX)
        } else {
            Some(share as u64)
        }
    }
}

/// The share of one processor that a thread used between two samples, in
/// tenths of a per cent.
pub fn cpu_share(earlier_micros: u64, later_micros: u64, interval_micros: u64) -> (r: Option<u64>)
    ensures
        r == cpu_share_of(earlier_micros, later_micros, interval_micros),
{
    if interval_micros == 0 || later_micros < earlier_micros {
        return None;
    }
    let gained: u128 = (later_micros - earlier_micros) as u128;
    let share: u128 = gained * 1000 / (interval_micros as u128);
    if share > u64::MAX as u128 {
        Some(u64::MAX)
    } else {
        Some(share as u64)
    }
}

impl ThreadMetrics {
    /// Processor time spent in user mode, in microseconds.
    pub fn cpu_user_micros(&self) -> (r: u64)
        ensures
            r == micros_of(self.utime_ticks, self.ticks_per_sec),
    {
        ticks_to_micros(self.utime_ticks, self.ticks_per_sec)
    }

    /// Processor time spent in kernel mode, in microseconds.
    pub fn cpu_sys_micros(&self) -> (r: u64)
        ensures
            r == micros_of(self.stime_ticks, self.ticks_per_sec),
    {
        ticks_to_micros(self.stime_ticks, self.ticks_per_sec)
    }

    /// Processor time spent in either mode, in microseconds.
    pub fn cpu_total_micros(&self) -> (r: u64)
        ensures
            r == micros_of(self.utime_ticks, self.ticks_per_sec) + micros_of(
                self.stime_ticks,
                self.ticks_per_sec,
            ) || (r == u64::MAX && micros_of(self.utime_ticks, self.ticks_per_sec) + micros_of(
                self.stime_ticks,
                self.ticks_per_sec,
            ) > u64::MAX),
    {
        let user = self.cpu_user_micros();
        let sys = self.cpu_sys_micros();
        if user > u64::MAX - sys {
            u64::MAX
        } else {
            user + sys
        }
    }
}

} // verus!
