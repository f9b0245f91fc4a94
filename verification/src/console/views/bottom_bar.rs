//! The bar at the foot of the console that lists the keys in force.

use vstd::prelude::*;

verus! {

/// The console's tabs.
#[derive(Clone, Copy, Debug, PartialEq, Eq, Structural)]
pub enum SelectedTab {
    Timing,
    Memory,
    Channels,
    Streams,
    Threads,
}

/// Which pane of the channels tab has the keyboard.
#[derive(Clone, Copy, Debug, PartialEq, Eq, Structural)]
pub enum ChannelsFocus {
    Channels,
    Logs,
    Inspect,
}

/// Which pane of the streams tab has the keyboard.
#[derive(Clone, Copy, Debug, PartialEq, Eq, Structural)]
pub enum StreamsFocus {
    Streams,
    Logs,
    Inspect,
}

/// An entry of the bar: something the user can do, and the keys that do it.
#[derive(Clone, Copy, Debug, PartialEq, Eq, Structural)]
pub enum Control {
    /// Move in all four directions.
    NavigateGrid,
    /// Move up and down.
    NavigateList,
    ToggleLogs,
    Pause,
    Inspect,
    Close,
    Quit,
}

/// The pane of a tab that has logs, whichever the tab.
#[derive(Clone, Copy, Debug, PartialEq, Eq, Structural)]
pub enum Pane {
    List,
    Logs,
    Inspect,
}

/// The entries shown while a pane of the channels or streams tab has the
/// keyboard.
pub open spec fn pane_controls(pane: Pane) -> Seq<Control> {
    match pane {
        Pane::List => seq![
            Control::NavigateGrid,
            Control::ToggleLogs,
            Control::Pause,
            Control::Quit,
        ],
        Pane::Logs => seq![
            Control::NavigateGrid,
            Control::ToggleLogs,
            Control::Pause,
            Control::Inspect,
            Control::Quit,
        ],
        Pane::Inspect => seq![
            Control::NavigateGrid,
            Control::ToggleLogs,
            Control::Pause,
            Control::Close,
            Control::Quit,
        ],
    }
}

/// The pane that a focus of the streams tab stands for.
pub open spec fn streams_pane(focus: StreamsFocus) -> Pane {
    match focus {
        StreamsFocus::Streams => Pane::List,
        StreamsFocus::Logs => Pane::Logs,
        StreamsFocus::Inspect => Pane::Inspect,
    }
}

/// The pane that a focus of the channels tab stands for.
pub open spec fn channels_pane(focus: ChannelsFocus) -> Pane {
    match focus {
        ChannelsFocus::Channels => Pane::List,
        ChannelsFocus::Logs => Pane::Logs,
        ChannelsFocus::Inspect => Pane::Inspect,
    }
}

/// The entries of the bar. On the streams tab they follow the pane of that
/// tab that has the keyboard, on the channels tab the pane of that one; every
/// other tab is a plain list.
pub open spec fn help_controls(
    selected_tab: SelectedTab,
    focus: ChannelsFocus,
    streams_focus: StreamsFocus,
) -> Seq<Control> {
    if selected_tab == SelectedTab::Streams {
        pane_controls(streams_pane(streams_focus))
    } else if selected_tab == SelectedTab::Channels {
        pane_controls(channels_pane(focus))
    } else {
        seq![Control::NavigateList, Control::ToggleLogs, Control::Pause, Control::Quit]
    }
}

/// What an entry is called on the bar. Every entry but the first is set off
/// from the one before it by a stroke.
pub open spec fn control_label(c: Control) -> Seq<char> {
    match c {
        Control::NavigateGrid => " Navigate "@,
        Control::NavigateList => " Navigate "@,
        Control::ToggleLogs => " | Toggle Logs "@,
        Control::Pause => " | Pause "@,
        Control::Inspect => " | Inspect "@,
        Control::Close => " | Close "@,
        Control::Quit => " | Quit "@,
    }
}

/// The keys of an entry as the bar shows them.
pub open spec fn control_keys(c: Control) -> Seq<char> {
    match c {
        Control::NavigateGrid => "<←↑↓→/hjkl> "@,
        Control::NavigateList => "<↑↓/jk> "@,
        Control::ToggleLogs => "<o> "@,
        Control::Pause => "<p> "@,
        Control::Inspect => "<i> "@,
        Control::Close => "<i/o/h> "@,
        Control::Quit => "<q> "@,
    }
}

impl Control {
    /// What the entry is called on the bar.
    pub fn label(&self) -> (r: &'static str)
        ensures
            r@ == control_label(*self),
    {
        match self {
            Control::NavigateGrid => " Navigate ",
            Control::NavigateList => " Navigate ",
            Control::ToggleLogs => " | Toggle Logs ",
            Control::Pause => " | Pause ",
            Control::Inspect => " | Inspect ",
            Control::Close => " | Close ",
            Control::Quit => " | Quit ",
        }
    }

    /// The keys of the entry as the bar shows them.
    pub fn keys(&self) -> (r: &'static str)
        ensures
            r@ == control_keys(*self),
    {
        match self {
            Control::NavigateGrid => "<←↑↓→/hjkl> ",
            Control::NavigateList => "<↑↓/jk> ",
            Control::ToggleLogs => "<o> ",
            Control::Pause => "<p> ",
            Control::Inspect => "<i> ",
            Control::Close => "<i/o/h> ",
            Control::Quit => "<q> ",
        }
    }
}

fn controls_of(pane: Pane) -> (r: Vec<Control>)
    ensures
        r@ == pane_controls(pane),
{
    let mut out: Vec<Control> = Vec::new();
    out.push(Control::NavigateGrid);
    out.push(Control::ToggleLogs);
    out.push(Control::Pause);
    match pane {
        Pane::List => {},
        Pane::Logs => {
            out.push(Control::Inspect);
        },
        Pane::Inspect => {
            out.push(Control::Close);
        },
    }
    out.push(Control::Quit);
    assert(out@ =~= pane_controls(pane));
    out
}

/// The entries of the bar for the tab and panes in view.
pub fn render_help_bar(
    selected_tab: SelectedTab,
    focus: ChannelsFocus,
    streams_focus: StreamsFocus,
) -> (r: Vec<Control>)
    ensures
        r@ == help_controls(selected_tab, focus, streams_focus),
{
    if selected_tab == SelectedTab::Streams {
        controls_of(
            match streams_focus {
                StreamsFocus::Streams => Pane::List,
                StreamsFocus::Logs => Pane::Logs,
                StreamsFocus::Inspect => Pane::Inspect,
            },
        )
    } else if selected_tab == SelectedTab::Channels {
        controls_of(
            match focus {
                ChannelsFocus::Channels => Pane::List,
                ChannelsFocus::Logs => Pane::Logs,
                ChannelsFocus::Inspect => Pane::Inspect,
            },
        )
    } else {
        let mut out: Vec<Control> = Vec::new();
        out.push(Control::NavigateList);
        out.push(Control::ToggleLogs);
        out.push(Control::Pause);
        out.push(Control::Quit);
        assert(out@ =~= help_controls(selected_tab, focus, streams_focus));
        out
    }
}

} // verus!
