//! The threads view: a line of process-wide figures above a table with one
//! row per thread.

use vstd::prelude::*;
use vstd::string::StringExecFns;
use crate::console::views::format::{
    bytes_text,
    format_bytes,
    format_bytes_signed,
    magnitude,
    signed_bytes_text,
    unsigned_abs,
};
use crate::text::{decimal, push_decimal};

verus! {

/// What the view reads of a thread's memory use. Each figure is absent where
/// allocation tracking is off.
#[derive(Clone, Copy, Debug, PartialEq, Eq)]
pub struct ThreadMemory {
    pub alloc_bytes: Option<u64>,
    pub dealloc_bytes: Option<u64>,
    /// Bytes allocated minus bytes freed.
    pub mem_diff: Option<i64>,
}

/// How a piece of text is set off.
#[derive(Clone, Copy, Debug, PartialEq, Eq, Structural)]
pub enum Tone {
    Plain,
    Yellow,
    Green,
    DarkGray,
    Cyan,
}

/// A piece of the line of figures.
pub struct Segment {
    pub text: String,
    pub tone: Tone,
}

/// The mathematical content of a `Segment`.
pub struct SegmentView {
    pub text: Seq<char>,
    pub tone: Tone,
}

impl View for Segment {
    type V = SegmentView;

    open spec fn view(&self) -> SegmentView {
        SegmentView { text: self.text@, tone: self.tone }
    }
}

/// The three memory cells of a thread's row.
pub struct MemoryCells {
    pub alloc: String,
    pub dealloc: String,
    pub diff: String,
}

/// The mathematical content of a `MemoryCells`.
pub struct MemoryCellsView {
    pub alloc: Seq<char>,
    pub dealloc: Seq<char>,
    pub diff: Seq<char>,
}

impl View for MemoryCells {
    type V = MemoryCellsView;

    open spec fn view(&self) -> MemoryCellsView {
        MemoryCellsView { alloc: self.alloc@, dealloc: self.dealloc@, diff: self.diff@ }
    }
}

/// Share of the table's width that each column takes, in per cent: thread
/// name, thread id, CPU share, user time, system time, allocated, freed,
/// difference.
pub open spec fn column_percentages() -> Seq<u16> {
    seq![22u16, 8u16, 10u16, 10u16, 10u16, 13u16, 13u16, 14u16]
}

/// Allocation tracking counts as on where any thread has an allocation
/// figure.
pub open spec fn any_alloc(threads: Seq<ThreadMemory>) -> bool {
    exists|i: int| 0 <= i < threads.len() && (#[trigger] threads[i]).alloc_bytes.is_some()
}

/// Sum of the differences that are present.
pub open spec fn diff_sum(threads: Seq<ThreadMemory>) -> int
    decreases threads.len(),
{
    if threads.len() == 0 {
        0
    } else {
        diff_sum(threads.drop_last()) + match threads.last().mem_diff {
            Some(d) => d as int,
            None => 0,
        }
    }
}

/// A number brought into the range of `i64`.
pub open spec fn clamped(n: int) -> i64 {
    if n > i64::MAX {
        i64::MAX
    } else if n < i64::MIN {
        i64::MIN
    } else {
        n as i64
    }
}

/// Characters given to the thread name: 22 per cent of what the table has
/// beyond ten columns, rounded down, and at least ten.
pub open spec fn name_width_of(table_width: u16) -> int {
    let available = if table_width > 10 {
        table_width - 10
    } else {
        0
    };
    let share = available * 22 / 100;
    if share < 10 {
        10
    } else {
        share
    }
}

/// The text of an optional size: a stroke where it is absent.
pub open spec fn optional_bytes_text(bytes: Option<u64>) -> Seq<char> {
    match bytes {
        Some(b) => bytes_text(b),
        None => "-"@,
    }
}

/// The memory cells of a thread: its figures where tracking is on, with a
/// stroke for one that is absent; `N/A` throughout where it is off.
pub open spec fn memory_cells_of(t: ThreadMemory, alloc_enabled: bool) -> MemoryCellsView {
    if alloc_enabled {
        MemoryCellsView {
            alloc: optional_bytes_text(t.alloc_bytes),
            dealloc: optional_bytes_text(t.dealloc_bytes),
            diff: match t.mem_diff {
                Some(d) => signed_bytes_text(d),
                None => "-"@,
            },
        }
    } else {
        MemoryCellsView { alloc: "N/A"@, dealloc: "N/A"@, diff: "N/A"@ }
    }
}

/// The line of figures: the process id, then the memory tracked across all
/// threads or a hint to turn tracking on, then the resident set size.
pub open spec fn info_line_of(
    pid: u32,
    alloc_enabled: bool,
    total_mem: i64,
    rss_bytes: Option<u64>,
) -> Seq<SegmentView> {
    seq![
        SegmentView { text: " PID: "@, tone: Tone::Plain },
        SegmentView { text: decimal(pid as nat), tone: Tone::Yellow },
        if alloc_enabled {
            SegmentView { text: "  Alloc - Dealloc: "@, tone: Tone::Plain }
        } else {
            SegmentView { text: "  "@, tone: Tone::Plain }
        },
        if alloc_enabled {
            SegmentView { text: bytes_text(magnitude(total_mem)), tone: Tone::Green }
        } else {
            SegmentView {
                text: "Enable 'hotpath-alloc' to track memory usage"@,
                tone: Tone::DarkGray,
            }
        },
        SegmentView { text: "  RSS: "@, tone: Tone::Plain },
        SegmentView { text: optional_bytes_text(rss_bytes), tone: Tone::Cyan },
    ]
}

/// The table's title: the selected thread's place among all.
pub open spec fn panel_title_of(position: usize, total: usize) -> Seq<char> {
    " ["@ + decimal(position as nat) + "/"@ + decimal(total as nat) + "] "@
}

/// Whether any thread has an allocation figure.
pub fn alloc_enabled(threads: &[ThreadMemory]) -> (r: bool)
    ensures
        r == any_alloc(threads@),
{
    let mut i: usize = 0;
    while i < threads.len()
        invariant
            0 <= i <= threads@.len(),
            forall|k: int| 0 <= k < i ==> (#[trigger] threads@[k]).alloc_bytes.is_none(),
        decreases threads@.len() - i,
    {
        if threads[i].alloc_bytes.is_some() {
            return true;
        }
        i = i + 1;
    }
    false
}

/// Sum of the threads' memory differences, held to the range of `i64`.
pub fn total_mem_diff(threads: &[ThreadMemory]) -> (r: i64)
    ensures
        r == clamped(diff_sum(threads@)),
{
    let mut acc: i128 = 0;
    let mut i: usize = 0;
    assert(threads@.take(0) =~= Seq::<ThreadMemory>::empty());
    while i < threads.len()
        invariant
            0 <= i <= threads@.len(),
            acc == diff_sum(threads@.take(i as int)),
            -(i * 0x8000_0000_0000_0000) <= acc <= i * 0x8000_0000_0000_0000,
        decreases threads@.len() - i,
    {
        proof {
            assert(threads@.take(i as int + 1).drop_last() =~= threads@.take(i as int));
            assert(threads@.take(i as int + 1).last() == threads@[i as int]);
            assert((i + 1) * 0x8000_0000_0000_0000 == i * 0x8000_0000_0000_0000
                + 0x8000_0000_0000_0000) by (nonlinear_arith);
            assert(i * 0x8000_0000_0000_0000 <= 0xffff_ffff_ffff_fffe * 0x8000_0000_0000_0000)
                by (nonlinear_arith)
                requires
                    i <= 0xffff_ffff_ffff_fffe,
            ;
        }
        match threads[i].mem_diff {
            Some(d) => {
                acc = acc + d as i128;
            },
            None => {},
        }
        i = i + 1;
    }
    assert(threads@.take(i as int) =~= threads@);
    if acc > i64::MAX as i128 {
        i64::MAX
    } else if acc < i64::MIN as i128 {
        i64::MIN
    } else {
        acc as i64
    }
}

/// Characters given to the thread name in a table of the given width.
pub fn thread_column_width(table_width: u16) -> (r: usize)
    ensures
        r == name_width_of(table_width),
{
    let available: u32 = if table_width > 10 {
        (table_width - 10) as u32
    } else {
        0
    };
    let share: u32 = available * 22 / 100;
    if share < 10 {
        10
    } else {
        share as usize
    }
}

/// Share of the table's width that each column takes, in per cent.
pub fn column_widths() -> (r: Vec<u16>)
    ensures
        r@ == column_percentages(),
{
    let mut out: Vec<u16> = Vec::new();
    out.push(22);
    out.push(8);
    out.push(10);
    out.push(10);
    out.push(10);
    out.push(13);
    out.push(13);
    out.push(14);
    assert(out@ =~= column_percentages());
    out
}

fn optional_bytes(bytes: Option<u64>) -> (r: String)
    ensures
        r@ == optional_bytes_text(bytes),
{
    match bytes {
        Some(b) => format_bytes(b),
        None => "-".to_owned(),
    }
}

/// The memory cells of a thread's row.
pub fn memory_cells(thread: &ThreadMemory, alloc_enabled: bool) -> (r: MemoryCells)
    ensures
        r@ == memory_cells_of(*thread, alloc_enabled),
{
    if alloc_enabled {
        MemoryCells {
            alloc: optional_bytes(thread.alloc_bytes),
            dealloc: optional_bytes(thread.dealloc_bytes),
            diff: match thread.mem_diff {
                Some(d) => format_bytes_signed(d),
                None => "-".to_owned(),
            },
        }
    } else {
        MemoryCells { alloc: "N/A".to_owned(), dealloc: "N/A".to_owned(), diff: "N/A".to_owned() }
    }
}

/// The line of figures above the table.
pub fn info_line(pid: u32, alloc_enabled: bool, total_mem: i64, rss_bytes: Option<u64>) -> (r:
    Vec<Segment>)
    ensures
        r@.map_values(|s: Segment| s@) == info_line_of(pid, alloc_enabled, total_mem, rss_bytes),
{
    let mut out: Vec<Segment> = Vec::new();
    out.push(Segment { text: " PID: ".to_owned(), tone: Tone::Plain });
    let mut pid_text = String::new();
    push_decimal(&mut pid_text, pid as u64);
    assert(pid_text@ =~= decimal(pid as nat));
    out.push(Segment { text: pid_text, tone: Tone::Yellow });
    if alloc_enabled {
        out.push(Segment { text: "  Alloc - Dealloc: ".to_owned(), tone: Tone::Plain });
        out.push(Segment { text: format_bytes(unsigned_abs(total_mem)), tone: Tone::Green });
    } else {
        out.push(Segment { text: "  ".to_owned(), tone: Tone::Plain });
        out.push(
            Segment {
                text: "Enable 'hotpath-alloc' to track memory usage".to_owned(),
                tone: Tone::DarkGray,
            },
        );
    }
    out.push(Segment { text: "  RSS: ".to_owned(), tone: Tone::Plain });
    out.push(Segment { text: optional_bytes(rss_bytes), tone: Tone::Cyan });
    assert(out@.map_values(|s: Segment| s@) =~= info_line_of(
        pid,
        alloc_enabled,
        total_mem,
        rss_bytes,
    ));
    out
}

/// The table's title.
pub fn panel_title(position: usize, total: usize) -> (r: String)
    ensures
        r@ == panel_title_of(position, total),
{
    let mut out = " [".to_owned();
    push_decimal(&mut out, position as u64);
    out.append("/");
    push_decimal(&mut out, total as u64);
    out.append("] ");
    out
}

/// All that the threads view shows besides the threads' names and times.
pub struct ThreadsPanel {
    pub info: Vec<Segment>,
    pub title: String,
    pub name_width: usize,
    pub rows: Vec<MemoryCells>,
}

/// Lays out the threads view for a table of the given width.
pub fn render_threads_panel(
    threads: &[ThreadMemory],
    table_width: u16,
    pid: u32,
    thread_position: usize,
    total_threads: usize,
    rss_bytes: Option<u64>,
) -> (r: ThreadsPanel)
    ensures
        r.info@.map_values(|s: Segment| s@) == info_line_of(
            pid,
            any_alloc(threads@),
            clamped(diff_sum(threads@)),
            rss_bytes,
        ),
        r.title@ == panel_title_of(thread_position, total_threads),
        r.name_width == name_width_of(table_width),
        r.rows@.len() == threads@.len(),
        forall|i: int|
            0 <= i < threads@.len() ==> (#[trigger] r.rows@[i])@ == memory_cells_of(
                threads@[i],
                any_alloc(threads@),
            ),
{
    let enabled = alloc_enabled(threads);
    let total = total_mem_diff(threads);
    let mut rows: Vec<MemoryCells> = Vec::new();
    let mut i: usize = 0;
    while i < threads.len()
        invariant
            0 <= i <= threads@.len(),
            rows@.len() == i,
            forall|k: int|
                0 <= k < i ==> (#[trigger] rows@[k])@ == memory_cells_of(threads@[k], enabled),
        decreases threads@.len() - i,
    {
        rows.push(memory_cells(&threads[i], enabled));
        i = i + 1;
    }
    ThreadsPanel {
        info: info_line(pid, enabled, total, rss_bytes),
        title: panel_title(thread_position, total_threads),
        name_width: thread_column_width(table_width),
        rows,
    }
}

} // verus!
