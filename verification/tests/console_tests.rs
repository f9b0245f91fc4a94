use base64::engine::general_purpose::URL_SAFE;
use base64::Engine;
use hotpath::cli::{ConsoleArgs, HPArgs, HPSubcommand};
use hotpath::console::demo::{after_recv, after_send, init, message_text, Payload, Step};
use hotpath::console::http::{
    channel_logs_url, classify_alloc_answer, endpoint_url, function_logs_url,
    function_logs_url_from, mentions_not_found, stream_logs_url, AllocAnswer, Endpoint,
};
use hotpath::console::views::bottom_bar::{
    render_help_bar, ChannelsFocus, Control, SelectedTab, StreamsFocus,
};
use hotpath::console::views::format::{
    format_bytes, format_bytes_signed, truncate_left, unsigned_abs,
};
use hotpath::console::views::threads::{
    alloc_enabled, column_widths, info_line, memory_cells, panel_title, render_threads_panel,
    thread_column_width, total_mem_diff, ThreadMemory, Tone,
};
use hotpath::text::{chars_of, decimal_string, str_eq};

fn line(tab: SelectedTab, focus: ChannelsFocus, streams: StreamsFocus) -> String {
    let mut out = String::new();
    for c in render_help_bar(tab, focus, streams) {
        out.push_str(c.label());
        out.push_str(c.keys());
    }
    out
}

#[test]
fn help_bar_for_plain_tabs() {
    for tab in [SelectedTab::Timing, SelectedTab::Memory, SelectedTab::Threads] {
        for focus in [ChannelsFocus::Channels, ChannelsFocus::Logs, ChannelsFocus::Inspect] {
            for streams in [StreamsFocus::Streams, StreamsFocus::Logs, StreamsFocus::Inspect] {
                assert_eq!(
                    render_help_bar(tab, focus, streams),
                    vec![Control::NavigateList, Control::ToggleLogs, Control::Pause, Control::Quit]
                );
            }
        }
    }
    assert_eq!(
        line(SelectedTab::Timing, ChannelsFocus::Logs, StreamsFocus::Inspect),
        " Navigate <↑↓/jk>  | Toggle Logs <o>  | Pause <p>  | Quit <q> "
    );
}

#[test]
fn help_bar_for_channels_follows_channels_focus() {
    let s = StreamsFocus::Inspect;
    assert_eq!(
        line(SelectedTab::Channels, ChannelsFocus::Channels, s),
        " Navigate <←↑↓→/hjkl>  | Toggle Logs <o>  | Pause <p>  | Quit <q> "
    );
    assert_eq!(
        line(SelectedTab::Channels, ChannelsFocus::Logs, s),
        " Navigate <←↑↓→/hjkl>  | Toggle Logs <o>  | Pause <p>  | Inspect <i>  | Quit <q> "
    );
    assert_eq!(
        line(SelectedTab::Channels, ChannelsFocus::Inspect, StreamsFocus::Streams),
        " Navigate <←↑↓→/hjkl>  | Toggle Logs <o>  | Pause <p>  | Close <i/o/h>  | Quit <q> "
    );
}

#[test]
fn help_bar_for_streams_follows_streams_focus() {
    let c = ChannelsFocus::Inspect;
    assert_eq!(
        render_help_bar(SelectedTab::Streams, c, StreamsFocus::Streams),
        vec![Control::NavigateGrid, Control::ToggleLogs, Control::Pause, Control::Quit]
    );
    assert_eq!(
        render_help_bar(SelectedTab::Streams, c, StreamsFocus::Logs),
        vec![
            Control::NavigateGrid,
            Control::ToggleLogs,
            Control::Pause,
            Control::Inspect,
            Control::Quit
        ]
    );
    assert_eq!(
        render_help_bar(SelectedTab::Streams, ChannelsFocus::Channels, StreamsFocus::Inspect),
        vec![
            Control::NavigateGrid,
            Control::ToggleLogs,
            Control::Pause,
            Control::Close,
            Control::Quit
        ]
    );
}

#[test]
fn format_bytes_units() {
    assert_eq!(format_bytes(0), "0 B");
    assert_eq!(format_bytes(1), "1 B");
    assert_eq!(format_bytes(1023), "1023 B");
    assert_eq!(format_bytes(1024), "1.0 KB");
    assert_eq!(format_bytes(1536), "1.5 KB");
    assert_eq!(format_bytes(1100), "1.1 KB");
    assert_eq!(format_bytes(1024 * 1024 - 1), "1024.0 KB");
    assert_eq!(format_bytes(1024 * 1024), "1.0 MB");
    assert_eq!(format_bytes(5 * 1024 * 1024 + 512 * 1024), "5.5 MB");
    assert_eq!(format_bytes(1024 * 1024 * 1024), "1.0 GB");
    assert_eq!(format_bytes(3 * 1024 * 1024 * 1024 + 100 * 1024 * 1024), "3.1 GB");
    assert_eq!(format_bytes(u64::MAX), "17179869184.0 GB");
}

#[test]
fn format_bytes_rounds_ties_to_even() {
    // 1280 / 1024 = 1.25, 1792 / 1024 = 1.75
    assert_eq!(format_bytes(1280), "1.2 KB");
    assert_eq!(format_bytes(1792), "1.8 KB");
    assert_eq!(format_bytes(1281), "1.3 KB");
    assert_eq!(format_bytes(1279), "1.2 KB");
}

#[test]
fn format_bytes_signed_values() {
    assert_eq!(format_bytes_signed(0), "0 B");
    assert_eq!(format_bytes_signed(1), "+1 B");
    assert_eq!(format_bytes_signed(-1), "-1 B");
    assert_eq!(format_bytes_signed(2048), "+2.0 KB");
    assert_eq!(format_bytes_signed(-1536), "-1.5 KB");
    assert_eq!(format_bytes_signed(-3 * 1024 * 1024), "-3.0 MB");
    assert_eq!(format_bytes_signed(i64::MAX), "+8589934592.0 GB");
    assert_eq!(format_bytes_signed(i64::MIN), "-8589934592.0 GB");
}

#[test]
fn unsigned_abs_agrees_with_std() {
    for v in [0i64, 1, -1, 77, -77, i64::MAX, i64::MIN, i64::MIN + 1] {
        assert_eq!(unsigned_abs(v), v.unsigned_abs());
    }
}

fn mem(alloc: Option<u64>, dealloc: Option<u64>, diff: Option<i64>) -> ThreadMemory {
    ThreadMemory { alloc_bytes: alloc, dealloc_bytes: dealloc, mem_diff: diff }
}

#[test]
fn alloc_enabled_when_any_thread_has_a_figure() {
    assert!(!alloc_enabled(&[]));
    assert!(!alloc_enabled(&[mem(None, None, None), mem(None, Some(1), Some(1))]));
    assert!(alloc_enabled(&[mem(None, None, None), mem(Some(0), None, None)]));
}

#[test]
fn total_mem_diff_adds_present_differences() {
    assert_eq!(total_mem_diff(&[]), 0);
    let threads = [mem(None, None, Some(100)), mem(None, None, None), mem(None, None, Some(-350))];
    assert_eq!(total_mem_diff(&threads), -250);
    assert_eq!(total_mem_diff(&[mem(None, None, Some(i64::MAX)), mem(None, None, Some(1))]), i64::MAX);
    assert_eq!(total_mem_diff(&[mem(None, None, Some(i64::MIN)), mem(None, None, Some(-1))]), i64::MIN);
    assert_eq!(
        total_mem_diff(&[
            mem(None, None, Some(i64::MAX)),
            mem(None, None, Some(i64::MAX)),
            mem(None, None, Some(i64::MIN)),
            mem(None, None, Some(i64::MIN)),
        ]),
        -2
    );
}

#[test]
fn thread_column_width_is_22_percent_and_at_least_ten() {
    assert_eq!(thread_column_width(0), 10);
    assert_eq!(thread_column_width(10), 10);
    assert_eq!(thread_column_width(50), 10);
    assert_eq!(thread_column_width(55), 10);
    assert_eq!(thread_column_width(56), 10);
    assert_eq!(thread_column_width(60), 11);
    assert_eq!(thread_column_width(110), 22);
    assert_eq!(thread_column_width(u16::MAX), 14415);
}

#[test]
fn column_widths_add_up_to_the_whole() {
    let w = column_widths();
    assert_eq!(w, vec![22, 8, 10, 10, 10, 13, 13, 14]);
    assert_eq!(w.iter().sum::<u16>(), 100);
}

#[test]
fn memory_cells_with_and_without_tracking() {
    let t = mem(Some(2048), None, Some(-1024));
    let on = memory_cells(&t, true);
    assert_eq!(on.alloc, "2.0 KB");
    assert_eq!(on.dealloc, "-");
    assert_eq!(on.diff, "-1.0 KB");
    let off = memory_cells(&t, false);
    assert_eq!((off.alloc.as_str(), off.dealloc.as_str(), off.diff.as_str()), ("N/A", "N/A", "N/A"));
    let none = memory_cells(&mem(None, Some(10), None), true);
    assert_eq!((none.alloc.as_str(), none.dealloc.as_str(), none.diff.as_str()), ("-", "10 B", "-"));
}

#[test]
fn info_line_with_tracking() {
    let segs = info_line(4711, true, -2048, Some(3 * 1024 * 1024));
    let texts: Vec<&str> = segs.iter().map(|s| s.text.as_str()).collect();
    assert_eq!(texts, vec![" PID: ", "4711", "  Alloc - Dealloc: ", "2.0 KB", "  RSS: ", "3.0 MB"]);
    let tones: Vec<Tone> = segs.iter().map(|s| s.tone).collect();
    assert_eq!(tones, vec![Tone::Plain, Tone::Yellow, Tone::Plain, Tone::Green, Tone::Plain, Tone::Cyan]);
}

#[test]
fn info_line_without_tracking() {
    let segs = info_line(1, false, 0, None);
    let texts: Vec<&str> = segs.iter().map(|s| s.text.as_str()).collect();
    assert_eq!(
        texts,
        vec![" PID: ", "1", "  ", "Enable 'hotpath-alloc' to track memory usage", "  RSS: ", "-"]
    );
    assert_eq!(segs[3].tone, Tone::DarkGray);
}

#[test]
fn panel_title_shows_position() {
    assert_eq!(panel_title(3, 12), " [3/12] ");
    assert_eq!(panel_title(0, 0), " [0/0] ");
}

#[test]
fn render_threads_panel_puts_it_together() {
    let threads = [mem(Some(4096), Some(1024), Some(3072)), mem(None, None, None)];
    let panel = render_threads_panel(&threads, 110, 99, 1, 2, None);
    assert_eq!(panel.title, " [1/2] ");
    assert_eq!(panel.name_width, 22);
    assert_eq!(panel.rows.len(), 2);
    assert_eq!(panel.rows[0].alloc, "4.0 KB");
    assert_eq!(panel.rows[0].dealloc, "1.0 KB");
    assert_eq!(panel.rows[0].diff, "+3.0 KB");
    assert_eq!(panel.rows[1].alloc, "-");
    assert_eq!(panel.info[1].text, "99");
    assert_eq!(panel.info[3].text, "3.0 KB");
    assert_eq!(panel.info[5].text, "-");

    let plain = render_threads_panel(&[mem(None, None, Some(5))], 20, 1, 1, 1, Some(512));
    assert_eq!(plain.rows[0].diff, "N/A");
    assert_eq!(plain.name_width, 10);
    assert_eq!(plain.info[5].text, "512 B");
}

#[test]
fn endpoint_urls() {
    assert_eq!(endpoint_url(6770, Endpoint::FunctionsTiming), "http://localhost:6770/functions_timing");
    assert_eq!(endpoint_url(6770, Endpoint::FunctionsAlloc), "http://localhost:6770/functions_alloc");
    assert_eq!(endpoint_url(80, Endpoint::Channels), "http://localhost:80/channels");
    assert_eq!(endpoint_url(0, Endpoint::Streams), "http://localhost:0/streams");
    assert_eq!(endpoint_url(u16::MAX, Endpoint::Streams), "http://localhost:65535/streams");
}

#[test]
fn log_urls() {
    assert_eq!(channel_logs_url(6770, 3), "http://localhost:6770/channels/3/logs");
    assert_eq!(stream_logs_url(6770, 12), "http://localhost:6770/streams/12/logs");
    assert_eq!(
        channel_logs_url(1, u64::MAX),
        "http://localhost:1/channels/18446744073709551615/logs"
    );
    assert_eq!(function_logs_url_from(6770, "YQ=="), "http://localhost:6770/functions/YQ==/logs");
}

#[test]
fn function_logs_url_encodes_the_name() {
    assert_eq!(
        function_logs_url(6770, "foo").unwrap(),
        "http://localhost:6770/functions/Zm9v/logs"
    );
    assert_eq!(
        function_logs_url(6770, "app::work").unwrap(),
        "http://localhost:6770/functions/YXBwOjp3b3Jr/logs"
    );
    assert_eq!(function_logs_url(6770, "a").unwrap(), "http://localhost:6770/functions/YQ==/logs");
    assert_eq!(function_logs_url(6770, "").unwrap(), "http://localhost:6770/functions//logs");
    assert_eq!(
        function_logs_url(6770, "<T as X>::f?").unwrap(),
        "http://localhost:6770/functions/PFQgYXMgWD46OmY_/logs"
    );
}

#[test]
fn function_name_is_one_transport_safe_segment() {
    let prefix = "http://localhost:6770/functions/";
    for name in ["???", "a>b", "~~~", "x", "", "app::work", "<T as X>::f?", "żółć/ÿÿ?#+"] {
        let url = function_logs_url(6770, name).unwrap();
        assert!(url.starts_with(prefix));
        assert!(url.ends_with("/logs"));
        let segment = &url[prefix.len()..url.len() - "/logs".len()];
        assert!(
            !segment.contains(|c| c == '/' || c == '+' || c == '?' || c == '#'),
            "{:?}",
            segment
        );
        let decoded = URL_SAFE.decode(segment).unwrap();
        assert_eq!(decoded, name.as_bytes());
    }
    assert_eq!(function_logs_url(6770, "???").unwrap(), "http://localhost:6770/functions/Pz8_/logs");
    assert_eq!(function_logs_url(6770, "~~~").unwrap(), "http://localhost:6770/functions/fn5-/logs");
}

#[test]
fn not_found_is_spotted_in_error_text() {
    assert!(mentions_not_found("http status: 404"));
    assert!(mentions_not_found("404"));
    assert!(mentions_not_found("x4404x"));
    assert!(!mentions_not_found("http status: 500"));
    assert!(!mentions_not_found("40 4"));
    assert!(!mentions_not_found("40"));
    assert!(!mentions_not_found(""));
    assert!(!mentions_not_found("4 0 4"));
}

#[test]
fn alloc_answers() {
    assert_eq!(classify_alloc_answer(None), AllocAnswer::Available);
    assert_eq!(classify_alloc_answer(Some("http status: 404")), AllocAnswer::NotAvailable);
    assert_eq!(classify_alloc_answer(Some("connection refused")), AllocAnswer::Failed);
}

#[test]
fn demo_channels() {
    let plan = init();
    assert_eq!(plan.len(), 2);
    assert_eq!(plan[0].label, "demo-bounded");
    assert_eq!(plan[0].capacity, Some(10));
    assert_eq!(plan[0].payload, Payload::Text);
    assert_eq!((plan[0].send_pause_ms, plan[0].recv_pause_ms), (100, 150));
    assert!(plan[0].log);
    assert_eq!(plan[1].label, "demo-unbounded");
    assert_eq!(plan[1].capacity, None);
    assert_eq!(plan[1].payload, Payload::Number);
    assert_eq!((plan[1].send_pause_ms, plan[1].recv_pause_ms), (50, 80));
    assert!(plan[1].log);
}

#[test]
fn demo_messages_and_steps() {
    assert_eq!(message_text(0), "Message 0");
    assert_eq!(message_text(41), "Message 41");
    let plan = init();
    assert_eq!(after_send(&plan[0], 0, true), Step::Rest { millis: 100, next: 1 });
    assert_eq!(after_send(&plan[1], 7, true), Step::Rest { millis: 50, next: 8 });
    assert_eq!(after_send(&plan[0], 7, false), Step::Stop);
    assert_eq!(after_send(&plan[0], u64::MAX, true), Step::Rest { millis: 100, next: 0 });
    assert_eq!(after_recv(&plan[0], 2, true), Step::Rest { millis: 150, next: 3 });
    assert_eq!(after_recv(&plan[1], 2, true), Step::Rest { millis: 80, next: 3 });
    assert_eq!(after_recv(&plan[1], 2, false), Step::Stop);
}

#[test]
fn console_args_defaults() {
    let args = ConsoleArgs::default();
    assert_eq!(args.metrics_port, 6770);
    assert_eq!(args.refresh_interval, 500);
    let parsed = HPArgs { cmd: HPSubcommand::Console(ConsoleArgs { metrics_port: 9, refresh_interval: 1 }) };
    assert_eq!(parsed.console_args(), ConsoleArgs { metrics_port: 9, refresh_interval: 1 });
}

#[test]
fn text_helpers() {
    assert!(str_eq("", ""));
    assert!(str_eq("abc", "abc"));
    assert!(!str_eq("abc", "abd"));
    assert!(!str_eq("abc", "ab"));
    assert!(str_eq("zażółć", "zażółć"));
    assert_eq!(decimal_string(0), "0");
    assert_eq!(decimal_string(9), "9");
    assert_eq!(decimal_string(10), "10");
    assert_eq!(decimal_string(1_234_567_890), "1234567890");
    assert_eq!(decimal_string(u64::MAX), u64::MAX.to_string());
    assert_eq!(chars_of(""), Vec::<char>::new());
    assert_eq!(chars_of("aż)\u{3000}"), vec!['a', 'ż', ')', '\u{3000}']);
}

#[test]
fn truncate_left_keeps_the_end() {
    assert_eq!(truncate_left("short", 10), "short");
    assert_eq!(truncate_left("exactly-10", 10), "exactly-10");
    assert_eq!(truncate_left("tokio-runtime-worker", 10), "...-worker");
    assert_eq!(truncate_left("abcdef", 4), "...f");
    assert_eq!(truncate_left("abcdef", 3), "def");
    assert_eq!(truncate_left("abcdef", 1), "f");
    assert_eq!(truncate_left("abcdef", 0), "");
    assert_eq!(truncate_left("", 0), "");
    assert_eq!(truncate_left("zażółć gęślą jaźń", 8), "... jaźń");
}
