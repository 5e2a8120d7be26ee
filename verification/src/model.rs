//! The data a status report describes, and its mathematical view.

use vstd::prelude::*;

verus! {

/// How the windows of a desktop are arranged.
#[derive(Debug, Clone, Copy, PartialEq, Eq)]
pub enum Layout {
    Tiling,
    Monocle,
}

/// A desktop as one report describes it.
#[derive(Debug, PartialEq, Eq)]
pub struct Desktop {
    pub name: String,
    pub focused: bool,
    pub occupied: bool,
    pub urgent: bool,
}

/// A monitor together with the desktops shown on it, in the window
/// manager's order.
#[derive(Debug, PartialEq, Eq)]
pub struct Monitor {
    pub name: String,
    pub desktops: Vec<Desktop>,
    pub focused: bool,
    /// The layout reported for this monitor; `None` while the report has not
    /// named one that this crate knows.
    pub layout: Option<Layout>,
}

/// All the monitors that one status report lists.
#[derive(Debug, PartialEq, Eq)]
pub struct WmRoot {
    pub monitors: Vec<Monitor>,
}

/// Why a status line could not be turned into a [`WmRoot`].
#[derive(Debug, Clone, Copy, PartialEq, Eq)]
pub enum ParseError {
    /// The line holds no character at all, not even the leading sentinel.
    EmptyLine,
    /// Two separators follow each other, or the line ends in one.
    EmptySection,
    /// A desktop or layout section comes before the first monitor section.
    NoMonitor,
    /// A layout section stops right after its marker.
    MissingLayoutCode,
}

impl ParseError {
    /// What [`ParseError::message`] returns.
    pub open spec fn message_spec(self) -> Seq<char> {
        match self {
            ParseError::EmptyLine => "the line is empty"@,
            ParseError::EmptySection => "the line holds an empty section"@,
            ParseError::NoMonitor => "a desktop or layout comes before any monitor"@,
            ParseError::MissingLayoutCode => "a layout section holds no code"@,
        }
    }

    /// The error in words.
    pub fn message(&self) -> (text: &'static str)
        ensures
            text@ == self.message_spec(),
    {
        match self {
            ParseError::EmptyLine => "the line is empty",
            ParseError::EmptySection => "the line holds an empty section",
            ParseError::NoMonitor => "a desktop or layout comes before any monitor",
            ParseError::MissingLayoutCode => "a layout section holds no code",
        }
    }
}

/// What a [`Desktop`] is to the contracts.
pub struct DesktopView {
    pub name: Seq<char>,
    pub focused: bool,
    pub occupied: bool,
    pub urgent: bool,
}

/// What a [`Monitor`] is to the contracts.
pub struct MonitorView {
    pub name: Seq<char>,
    pub desktops: Seq<DesktopView>,
    pub focused: bool,
    pub layout: Option<Layout>,
}

impl DesktopView {
    /// The report format has no way to write an urgent desktop that is free.
    pub open spec fn consistent(self) -> bool {
        self.urgent ==> self.occupied
    }
}

impl MonitorView {
    /// Every desktop of the monitor is consistent.
    pub open spec fn consistent(self) -> bool {
        forall|i: int| 0 <= i < self.desktops.len() ==> (#[trigger] self.desktops[i]).consistent()
    }
}

/// Every monitor of a snapshot is consistent.
pub open spec fn snapshot_consistent(monitors: Seq<MonitorView>) -> bool {
    forall|i: int| 0 <= i < monitors.len() ==> (#[trigger] monitors[i]).consistent()
}

impl View for Desktop {
    type V = DesktopView;

    open spec fn view(&self) -> DesktopView {
        DesktopView {
            name: self.name@,
            focused: self.focused,
            occupied: self.occupied,
            urgent: self.urgent,
        }
    }
}

/// The views of a run of desktops, in the same order.
pub open spec fn desktop_views(desktops: Seq<Desktop>) -> Seq<DesktopView> {
    Seq::new(desktops.len(), |i: int| desktops[i]@)
}

impl View for Monitor {
    type V = MonitorView;

    open spec fn view(&self) -> MonitorView {
        MonitorView {
            name: self.name@,
            desktops: desktop_views(self.desktops@),
            focused: self.focused,
            layout: self.layout,
        }
    }
}

/// The views of a run of monitors, in the same order.
pub open spec fn monitor_views(monitors: Seq<Monitor>) -> Seq<MonitorView> {
    Seq::new(monitors.len(), |i: int| monitors[i]@)
}

impl View for WmRoot {
    type V = Seq<MonitorView>;

    open spec fn view(&self) -> Seq<MonitorView> {
        monitor_views(self.monitors@)
    }
}

} // verus!
