//! The report format, as mathematics.
//!
//! A status line is a sentinel character followed by sections that a
//! separator keeps apart. The first character of a section is its marker,
//! the rest its payload. Reading the sections from left to right builds the
//! list of monitors: a monitor section opens a new monitor, and every desktop
//! or layout section after it describes that monitor until the next one
//! opens.

use crate::model::{DesktopView, Layout, MonitorView, ParseError};
use vstd::prelude::*;

verus! {

/// The character that keeps two sections apart.
pub const SEPARATOR: char = ':';

/// How many characters of `s` come before its first separator: all of them
/// where it holds none.
pub open spec fn section_len(s: Seq<char>) -> nat
    decreases s.len(),
{
    if s.len() == 0 || s[0] == SEPARATOR {
        0
    } else {
        1 + section_len(s.skip(1))
    }
}

/// The pieces of `s` between its separators, from left to right. There is
/// always one more piece than there are separators, so the empty text has one
/// empty piece.
pub open spec fn split_sections(s: Seq<char>) -> Seq<Seq<char>>
    decreases s.len(),
{
    let n = section_len(s) as int;
    if n >= s.len() {
        seq![s]
    } else {
        seq![s.take(n)] + split_sections(s.skip(n + 1))
    }
}

/// `section_len` is the place of the first separator.
pub proof fn lemma_section_len(s: Seq<char>, k: int)
    requires
        0 <= k <= s.len(),
        forall|j: int| 0 <= j < k ==> s[j] != SEPARATOR,
        k == s.len() || s[k] == SEPARATOR,
    ensures
        section_len(s) == k,
    decreases k,
{
    if k > 0 {
        lemma_section_len(s.skip(1), k - 1);
    }
}

/// The sections of a whole status line: what follows the sentinel, split at
/// the separators. A line of the sentinel alone has no section.
pub open spec fn line_sections(line: Seq<char>) -> Seq<Seq<char>> {
    if line.len() <= 1 {
        Seq::empty()
    } else {
        split_sections(line.skip(1))
    }
}

/// A section with this marker opens a monitor.
pub open spec fn is_monitor_marker(c: char) -> bool {
    c == 'M' || c == 'm'
}

/// A section with this marker describes an occupied desktop.
pub open spec fn is_occupied_marker(c: char) -> bool {
    c == 'O' || c == 'o'
}

/// A section with this marker describes a free desktop.
pub open spec fn is_free_marker(c: char) -> bool {
    c == 'F' || c == 'f'
}

/// A section with this marker describes an urgent desktop.
pub open spec fn is_urgent_marker(c: char) -> bool {
    c == 'U' || c == 'u'
}

/// A section with this marker describes a desktop of some kind.
pub open spec fn is_desktop_marker(c: char) -> bool {
    is_occupied_marker(c) || is_free_marker(c) || is_urgent_marker(c)
}

/// A section with this marker names the layout. The lower-case letter is no
/// marker: a layout has no focus to report.
pub open spec fn is_layout_marker(c: char) -> bool {
    c == 'L'
}

/// An upper-case letter of the basic Latin alphabet. On a monitor or desktop
/// marker it reports focus.
pub open spec fn is_upper_case(c: char) -> bool {
    'A' <= c && c <= 'Z'
}

/// The section opens a monitor.
pub open spec fn is_monitor_section(section: Seq<char>) -> bool {
    section.len() > 0 && is_monitor_marker(section[0])
}

/// The section describes a desktop.
pub open spec fn is_desktop_section(section: Seq<char>) -> bool {
    section.len() > 0 && is_desktop_marker(section[0])
}

/// The section names a layout.
pub open spec fn is_layout_section(section: Seq<char>) -> bool {
    section.len() > 0 && is_layout_marker(section[0])
}

/// What follows the marker of a section.
pub open spec fn payload(section: Seq<char>) -> Seq<char> {
    section.skip(1)
}

/// The monitor that a monitor section opens: named by the payload, without
/// desktops or layout so far.
pub open spec fn monitor_of(section: Seq<char>) -> MonitorView {
    MonitorView {
        name: payload(section),
        desktops: Seq::empty(),
        focused: is_upper_case(section[0]),
        layout: None,
    }
}

/// The desktop that a desktop section describes. An urgent desktop is
/// reported as occupied.
pub open spec fn desktop_of(section: Seq<char>) -> DesktopView {
    DesktopView {
        name: payload(section),
        focused: is_upper_case(section[0]),
        occupied: is_occupied_marker(section[0]) || is_urgent_marker(section[0]),
        urgent: is_urgent_marker(section[0]),
    }
}

/// The layout that a layout code stands for, if it is a known one.
pub open spec fn layout_of(code: char) -> Option<Layout> {
    if code == 'T' {
        Some(Layout::Tiling)
    } else if code == 'M' {
        Some(Layout::Monocle)
    } else {
        None
    }
}

/// `monitor` with one more desktop at the end.
pub open spec fn with_desktop(monitor: MonitorView, desktop: DesktopView) -> MonitorView {
    MonitorView { desktops: monitor.desktops.push(desktop), ..monitor }
}

/// `monitor` with its layout replaced.
pub open spec fn with_layout(monitor: MonitorView, layout: Option<Layout>) -> MonitorView {
    MonitorView { layout, ..monitor }
}

/// `monitors` with the last one replaced.
pub open spec fn replace_last(monitors: Seq<MonitorView>, monitor: MonitorView) -> Seq<
    MonitorView,
> {
    monitors.update(monitors.len() - 1, monitor)
}

/// What one section does to the monitors read so far.
///
/// An empty section is an error, and so is a layout section without a code.
/// A desktop or layout section needs a monitor to belong to. A section with
/// an unknown marker changes nothing.
pub open spec fn apply_section(monitors: Seq<MonitorView>, section: Seq<char>) -> Result<
    Seq<MonitorView>,
    ParseError,
> {
    if section.len() == 0 {
        Err(ParseError::EmptySection)
    } else if is_monitor_marker(section[0]) {
        Ok(monitors.push(monitor_of(section)))
    } else if is_desktop_marker(section[0]) {
        if monitors.len() == 0 {
            Err(ParseError::NoMonitor)
        } else {
            Ok(replace_last(monitors, with_desktop(monitors.last(), desktop_of(section))))
        }
    } else if is_layout_marker(section[0]) {
        if section.len() < 2 {
            Err(ParseError::MissingLayoutCode)
        } else if monitors.len() == 0 {
            Err(ParseError::NoMonitor)
        } else {
            Ok(replace_last(monitors, with_layout(monitors.last(), layout_of(section[1]))))
        }
    } else {
        Ok(monitors)
    }
}

/// What a run of sections does to the monitors read so far: each section in
/// turn, stopping at the first one that fails.
pub open spec fn apply_sections(monitors: Seq<MonitorView>, sections: Seq<Seq<char>>) -> Result<
    Seq<MonitorView>,
    ParseError,
>
    decreases sections.len(),
{
    if sections.len() == 0 {
        Ok(monitors)
    } else {
        match apply_section(monitors, sections[0]) {
            Ok(next) => apply_sections(next, sections.skip(1)),
            Err(e) => Err(e),
        }
    }
}

/// The meaning of a status line: the monitors it lists, or the reason why it
/// lists none.
pub open spec fn parse_spec(line: Seq<char>) -> Result<Seq<MonitorView>, ParseError> {
    if line.len() == 0 {
        Err(ParseError::EmptyLine)
    } else {
        apply_sections(Seq::empty(), line_sections(line))
    }
}

} // verus!
