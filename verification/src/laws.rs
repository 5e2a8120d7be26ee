//! What follows from the report format.
//!
//! The grammar says what each section does to the monitors read so far. The
//! laws here say what that amounts to for a whole line: how many monitors
//! come out, which sections make up each of them, and which lines fail.

use crate::grammar::{
    apply_section, apply_sections, desktop_of, is_desktop_section, is_layout_section,
    is_monitor_section, is_upper_case, layout_of, line_sections, monitor_of, parse_spec, payload,
    replace_last, section_len, split_sections, SEPARATOR,
};
use crate::model::{snapshot_consistent, DesktopView, Layout, MonitorView, ParseError, WmRoot};
use crate::parser::is_parse_of;
use vstd::prelude::*;

verus! {

/// The pieces of `parts` put together again, with a separator between each
/// two.
pub open spec fn join_sections(parts: Seq<Seq<char>>) -> Seq<char>
    decreases parts.len(),
{
    if parts.len() == 0 {
        Seq::empty()
    } else if parts.len() == 1 {
        parts[0]
    } else {
        parts[0] + seq![SEPARATOR] + join_sections(parts.skip(1))
    }
}

/// How many of `sections` open a monitor.
pub open spec fn monitor_count(sections: Seq<Seq<char>>) -> nat
    decreases sections.len(),
{
    if sections.len() == 0 {
        0
    } else if is_monitor_section(sections[0]) {
        1 + monitor_count(sections.skip(1))
    } else {
        monitor_count(sections.skip(1))
    }
}

/// None of `sections` opens a monitor.
pub open spec fn no_monitor_section(sections: Seq<Seq<char>>) -> bool {
    forall|k: int| 0 <= k < sections.len() ==> !is_monitor_section(#[trigger] sections[k])
}

/// The desktops that `sections` describe, from left to right.
pub open spec fn desktops_of(sections: Seq<Seq<char>>) -> Seq<DesktopView>
    decreases sections.len(),
{
    if sections.len() == 0 {
        Seq::empty()
    } else if is_desktop_section(sections[0]) {
        seq![desktop_of(sections[0])] + desktops_of(sections.skip(1))
    } else {
        desktops_of(sections.skip(1))
    }
}

/// The layout that stands after `sections`, where `before` stood in front
/// of them: the one that the last layout section with a code names.
pub open spec fn layout_after(before: Option<Layout>, sections: Seq<Seq<char>>) -> Option<Layout>
    decreases sections.len(),
{
    if sections.len() == 0 {
        before
    } else if is_layout_section(sections[0]) && sections[0].len() >= 2 {
        layout_after(layout_of(sections[0][1]), sections.skip(1))
    } else {
        layout_after(before, sections.skip(1))
    }
}

/// What a monitor has become once the sections up to the next monitor
/// section are read.
pub open spec fn after_block(monitor: MonitorView, block: Seq<Seq<char>>) -> MonitorView {
    MonitorView {
        name: monitor.name,
        desktops: monitor.desktops + desktops_of(block),
        focused: monitor.focused,
        layout: layout_after(monitor.layout, block),
    }
}

/// A section can be read after `opened` monitors have been opened: it is
/// not empty, a layout section has its code, and a desktop or layout section
/// has a monitor to belong to.
pub open spec fn section_fits(section: Seq<char>, opened: nat) -> bool {
    &&& section.len() > 0
    &&& is_layout_section(section) ==> section.len() >= 2
    &&& is_desktop_section(section) || is_layout_section(section) ==> opened > 0
}

/// Every one of `sections` can be read in its place, where `opened` monitors
/// were opened in front of them.
pub open spec fn sections_fit(sections: Seq<Seq<char>>, opened: nat) -> bool {
    forall|k: int|
        0 <= k < sections.len() ==> section_fits(
            #[trigger] sections[k],
            opened + monitor_count(sections.take(k)),
        )
}

/// Two results of parsing say the same: the same error, or snapshots with
/// the same view.
pub open spec fn same_outcome(a: Result<WmRoot, ParseError>, b: Result<WmRoot, ParseError>) -> bool {
    match (a, b) {
        (Ok(x), Ok(y)) => x@ == y@,
        (Err(x), Err(y)) => x == y,
        _ => false,
    }
}

/// The first section of a text ends at its first separator and holds none.
pub proof fn lemma_first_section(s: Seq<char>)
    ensures
        section_len(s) <= s.len(),
        forall|j: int| 0 <= j < section_len(s) ==> s[j] != SEPARATOR,
        section_len(s) < s.len() ==> s[section_len(s) as int] == SEPARATOR,
    decreases s.len(),
{
    if s.len() > 0 && s[0] != SEPARATOR {
        let rest = s.skip(1);
        lemma_first_section(rest);
        assert forall|j: int| 0 <= j < section_len(s) implies s[j] != SEPARATOR by {
            if j > 0 {
                assert(s[j] == rest[j - 1]);
            }
        }
    }
}

/// Splitting gives at least one section, and no section holds a separator.
pub proof fn lemma_sections_hold_no_separator(s: Seq<char>)
    ensures
        split_sections(s).len() >= 1,
        forall|i: int, k: int|
            0 <= i < split_sections(s).len() && 0 <= k < split_sections(s)[i].len()
                ==> split_sections(s)[i][k] != SEPARATOR,
    decreases s.len(),
{
    lemma_first_section(s);
    let n = section_len(s) as int;
    if n < s.len() {
        let later = split_sections(s.skip(n + 1));
        lemma_sections_hold_no_separator(s.skip(n + 1));
        assert forall|i: int, k: int|
            0 <= i < split_sections(s).len() && 0 <= k < split_sections(s)[i].len()
            implies split_sections(s)[i][k] != SEPARATOR by {
            if i > 0 {
                assert(split_sections(s)[i] == later[i - 1]);
            }
        }
    }
}

/// Splitting loses nothing: the sections joined by separators are the text
/// again.
pub proof fn lemma_join_of_split(s: Seq<char>)
    ensures
        join_sections(split_sections(s)) == s,
    decreases s.len(),
{
    lemma_first_section(s);
    let n = section_len(s) as int;
    if n < s.len() {
        let tail = s.skip(n + 1);
        lemma_join_of_split(tail);
        lemma_sections_hold_no_separator(tail);
        assert(split_sections(s).skip(1) =~= split_sections(tail));
        assert(s.take(n) + seq![SEPARATOR] + tail =~= s);
    }
}

/// The monitor sections of two runs of sections are those of the first and
/// those of the second.
pub proof fn lemma_monitor_count_concat(a: Seq<Seq<char>>, b: Seq<Seq<char>>)
    ensures
        monitor_count(a + b) == monitor_count(a) + monitor_count(b),
    decreases a.len(),
{
    if a.len() == 0 {
        assert(a + b =~= b);
    } else {
        assert((a + b).skip(1) =~= a.skip(1) + b);
        lemma_monitor_count_concat(a.skip(1), b);
    }
}

/// The desktops of two runs of sections are those of the first followed by
/// those of the second: desktops keep the order of their sections.
pub proof fn lemma_desktops_of_concat(a: Seq<Seq<char>>, b: Seq<Seq<char>>)
    ensures
        desktops_of(a + b) == desktops_of(a) + desktops_of(b),
    decreases a.len(),
{
    if a.len() == 0 {
        assert(a + b =~= b);
    } else {
        assert((a + b).skip(1) =~= a.skip(1) + b);
        lemma_desktops_of_concat(a.skip(1), b);
    }
}

/// Reading two runs of sections one after the other is reading the first
/// and, where that succeeds, the second from what it left.
proof fn lemma_apply_concat(monitors: Seq<MonitorView>, a: Seq<Seq<char>>, b: Seq<Seq<char>>)
    ensures
        apply_sections(monitors, a + b) == match apply_sections(monitors, a) {
            Ok(next) => apply_sections(next, b),
            Err(e) => Err(e),
        },
    decreases a.len(),
{
    if a.len() == 0 {
        assert(a + b =~= b);
    } else {
        assert((a + b).skip(1) =~= a.skip(1) + b);
        if let Ok(next) = apply_section(monitors, a[0]) {
            lemma_apply_concat(next, a.skip(1), b);
        }
    }
}

/// Every monitor section adds one monitor, and no other section adds or
/// removes any.
proof fn lemma_apply_len(monitors: Seq<MonitorView>, sections: Seq<Seq<char>>)
    requires
        apply_sections(monitors, sections) is Ok,
    ensures
        apply_sections(monitors, sections).unwrap().len() == monitors.len() + monitor_count(
            sections,
        ),
    decreases sections.len(),
{
    if sections.len() > 0 {
        lemma_apply_len(apply_section(monitors, sections[0]).unwrap(), sections.skip(1));
    }
}

/// Sections touch the last monitor only: those before it stay as they are.
proof fn lemma_apply_keeps_earlier(monitors: Seq<MonitorView>, sections: Seq<Seq<char>>)
    requires
        apply_sections(monitors, sections) is Ok,
    ensures
        apply_sections(monitors, sections).unwrap().len() >= monitors.len(),
        forall|k: int|
            0 <= k < monitors.len() - 1 ==> apply_sections(monitors, sections).unwrap()[k]
                == monitors[k],
    decreases sections.len(),
{
    if sections.len() > 0 {
        let next = apply_section(monitors, sections[0]).unwrap();
        let done = apply_sections(monitors, sections).unwrap();
        lemma_apply_keeps_earlier(next, sections.skip(1));
        assert forall|k: int| 0 <= k < monitors.len() - 1 implies done[k] == monitors[k] by {
            assert(next[k] == monitors[k]);
        }
    }
}

/// Sections that open no monitor all go to the last monitor: their desktops
/// in order, and the layout that the last of them names.
proof fn lemma_apply_block(monitors: Seq<MonitorView>, block: Seq<Seq<char>>)
    requires
        monitors.len() > 0,
        no_monitor_section(block),
        apply_sections(monitors, block) is Ok,
    ensures
        apply_sections(monitors, block).unwrap() == replace_last(
            monitors,
            after_block(monitors.last(), block),
        ),
    decreases block.len(),
{
    let last = monitors.last();
    if block.len() == 0 {
        assert(after_block(last, block).desktops =~= last.desktops);
        assert(replace_last(monitors, after_block(last, block)) =~= monitors);
    } else {
        let rest = block.skip(1);
        let next = apply_section(monitors, block[0]).unwrap();
        assert(!is_monitor_section(block[0]));
        assert(no_monitor_section(rest)) by {
            assert forall|k: int| 0 <= k < rest.len() implies !is_monitor_section(
                #[trigger] rest[k],
            ) by {
                assert(rest[k] == block[k + 1]);
            }
        }
        lemma_apply_block(next, rest);
        assert(after_block(next.last(), rest).desktops =~= after_block(last, block).desktops);
        assert(replace_last(next, after_block(next.last(), rest)) =~= replace_last(
            monitors,
            after_block(last, block),
        ));
    }
}

/// Reading sections keeps a consistent snapshot consistent.
proof fn lemma_apply_consistent(monitors: Seq<MonitorView>, sections: Seq<Seq<char>>)
    requires
        snapshot_consistent(monitors),
        apply_sections(monitors, sections) is Ok,
    ensures
        snapshot_consistent(apply_sections(monitors, sections).unwrap()),
    decreases sections.len(),
{
    if sections.len() > 0 {
        let next = apply_section(monitors, sections[0]).unwrap();
        assert(snapshot_consistent(next)) by {
            if monitors.len() > 0 {
                assert(monitors.last().consistent());
            }
        }
        lemma_apply_consistent(next, sections.skip(1));
    }
}

/// Sections that open no monitor count as none.
proof fn lemma_count_without_monitor(sections: Seq<Seq<char>>)
    requires
        no_monitor_section(sections),
    ensures
        monitor_count(sections) == 0,
    decreases sections.len(),
{
    if sections.len() > 0 {
        let rest = sections.skip(1);
        assert(!is_monitor_section(sections[0]));
        assert(no_monitor_section(rest)) by {
            assert forall|k: int| 0 <= k < rest.len() implies !is_monitor_section(
                #[trigger] rest[k],
            ) by {
                assert(rest[k] == sections[k + 1]);
            }
        }
        lemma_count_without_monitor(rest);
    }
}

/// The monitor sections among the first `k + 1` sections are the first, if
/// it is one, and those among the `k` sections after it.
proof fn lemma_count_take(sections: Seq<Seq<char>>, k: int)
    requires
        0 <= k < sections.len(),
    ensures
        monitor_count(sections.take(k + 1)) == monitor_count(seq![sections[0]]) + monitor_count(
            sections.skip(1).take(k),
        ),
        monitor_count(seq![sections[0]]) == if is_monitor_section(sections[0]) {
            1nat
        } else {
            0nat
        },
{
    let first = seq![sections[0]];
    assert(sections.take(k + 1) =~= first + sections.skip(1).take(k));
    lemma_monitor_count_concat(first, sections.skip(1).take(k));
    assert(monitor_count(first.skip(1)) == 0);
}

/// Sections can be read one after the other exactly where each can be read
/// in its place.
proof fn lemma_apply_ok_iff(monitors: Seq<MonitorView>, sections: Seq<Seq<char>>)
    ensures
        apply_sections(monitors, sections) is Ok <==> sections_fit(sections, monitors.len()),
    decreases sections.len(),
{
    if sections.len() > 0 {
        let opened = monitors.len();
        let rest = sections.skip(1);
        assert(monitor_count(sections.take(0)) == 0);
        assert(apply_section(monitors, sections[0]) is Ok <==> section_fits(
            sections[0],
            opened + monitor_count(sections.take(0)),
        ));
        if let Ok(next) = apply_section(monitors, sections[0]) {
            lemma_apply_ok_iff(next, rest);
            assert(next.len() == opened + monitor_count(seq![sections[0]])) by {
                lemma_count_take(sections, 0);
            }
            if sections_fit(rest, next.len()) {
                assert forall|k: int| 0 <= k < sections.len() implies section_fits(
                    #[trigger] sections[k],
                    opened + monitor_count(sections.take(k)),
                ) by {
                    if k > 0 {
                        lemma_count_take(sections, k - 1);
                        assert(rest[k - 1] == sections[k]);
                    }
                }
            }
            if sections_fit(sections, opened) {
                assert forall|k: int| 0 <= k < rest.len() implies section_fits(
                    #[trigger] rest[k],
                    next.len() + monitor_count(rest.take(k)),
                ) by {
                    lemma_count_take(sections, k);
                    assert(rest[k] == sections[k + 1]);
                }
            }
        }
    }
}

/// Parsing is a function of the line: two results for one line say the
/// same.
pub proof fn lemma_parse_deterministic(
    line: Seq<char>,
    a: Result<WmRoot, ParseError>,
    b: Result<WmRoot, ParseError>,
)
    requires
        is_parse_of(a, line),
        is_parse_of(b, line),
    ensures
        same_outcome(a, b),
{
}

/// When a line parses: it is not empty, none of its sections is empty, every
/// layout section has its code, and every desktop or layout section has a
/// monitor section somewhere before it.
pub proof fn lemma_parse_succeeds_iff(line: Seq<char>)
    ensures
        parse_spec(line) is Ok <==> line.len() > 0 && sections_fit(line_sections(line), 0),
{
    lemma_apply_ok_iff(Seq::empty(), line_sections(line));
}

/// A line of the sentinel alone lists no monitor, whatever the sentinel is.
pub proof fn lemma_sentinel_alone(line: Seq<char>)
    requires
        line.len() == 1,
    ensures
        parse_spec(line) == Ok::<Seq<MonitorView>, ParseError>(Seq::empty()),
{
}

/// A desktop or layout section with no monitor section before it makes the
/// line fail.
pub proof fn lemma_section_before_monitor_fails(line: Seq<char>, j: int)
    requires
        0 <= j < line_sections(line).len(),
        is_desktop_section(line_sections(line)[j]) || is_layout_section(line_sections(line)[j]),
        no_monitor_section(line_sections(line).take(j)),
    ensures
        parse_spec(line) is Err,
{
    let sections = line_sections(line);
    lemma_parse_succeeds_iff(line);
    lemma_count_without_monitor(sections.take(j));
    assert(!section_fits(sections[j], 0 + monitor_count(sections.take(j))));
}

/// A line that parses lists as many monitors as it has monitor sections.
pub proof fn lemma_monitor_count(line: Seq<char>)
    requires
        parse_spec(line) is Ok,
    ensures
        parse_spec(line).unwrap().len() == monitor_count(line_sections(line)),
{
    lemma_apply_len(Seq::empty(), line_sections(line));
}

/// The monitors of a line that parses are its monitor sections, in order,
/// each with what follows it.
///
/// Take a monitor section, at place `i`, and the place `j` where the next
/// monitor section stands or the line ends. The monitor it opens comes
/// after as many monitors as there are monitor sections before `i`. It has
/// the name and the focus of its section. The desktop sections between `i`
/// and `j` are its desktops, in their order from left to right, and the last
/// layout section between them names its layout.
pub proof fn lemma_monitor_block(line: Seq<char>, i: int, j: int)
    requires
        parse_spec(line) is Ok,
        0 <= i < j <= line_sections(line).len(),
        is_monitor_section(line_sections(line)[i]),
        no_monitor_section(line_sections(line).subrange(i + 1, j)),
        j == line_sections(line).len() || is_monitor_section(line_sections(line)[j]),
    ensures
        ({
            let sections = line_sections(line);
            let place = monitor_count(sections.take(i)) as int;
            let block = sections.subrange(i + 1, j);
            let monitors = parse_spec(line).unwrap();
            &&& place < monitors.len()
            &&& monitors[place].name == payload(sections[i])
            &&& monitors[place].focused == is_upper_case(sections[i][0])
            &&& monitors[place].desktops == desktops_of(block)
            &&& monitors[place].layout == layout_after(None, block)
        }),
{
    let sections = line_sections(line);
    let before = sections.take(i);
    let block = sections.subrange(i + 1, j);
    let after = sections.skip(j);
    let none = Seq::<MonitorView>::empty();

    // The sections before `i` open the monitors in front of this one.
    assert(sections =~= before + sections.skip(i));
    lemma_apply_concat(none, before, sections.skip(i));
    let earlier = apply_sections(none, before).unwrap();
    lemma_apply_len(none, before);

    // Section `i` opens it, and the block up to `j` fills it.
    let opened = earlier.push(monitor_of(sections[i]));
    assert(sections.skip(i).skip(1) =~= block + after);
    lemma_apply_concat(opened, block, after);
    lemma_apply_block(opened, block);
    let filled = apply_sections(opened, block).unwrap();
    assert(filled.last().desktops =~= desktops_of(block));

    // From `j` on another monitor is the last one, so this one stays.
    if j < sections.len() {
        let next = filled.push(monitor_of(sections[j]));
        assert(after[0] == sections[j]);
        lemma_apply_keeps_earlier(next, after.skip(1));
        assert(next[earlier.len() as int] == filled.last());
    }
}

/// No line describes a desktop that is urgent and free.
pub proof fn lemma_parse_consistent(line: Seq<char>)
    requires
        parse_spec(line) is Ok,
    ensures
        snapshot_consistent(parse_spec(line).unwrap()),
{
    lemma_apply_consistent(Seq::empty(), line_sections(line));
}

/// The case of a marker is the focus: an upper-case monitor or desktop
/// marker gives a focused monitor or desktop, a lower-case one an unfocused
/// one.
pub proof fn lemma_focus_follows_case(monitors: Seq<MonitorView>, section: Seq<char>)
    requires
        is_monitor_section(section) || (is_desktop_section(section) && monitors.len() > 0),
    ensures
        apply_section(monitors, section) is Ok,
        section[0] == 'M' ==> apply_section(monitors, section).unwrap().last().focused,
        section[0] == 'm' ==> !apply_section(monitors, section).unwrap().last().focused,
        section[0] == 'O' || section[0] == 'F' || section[0] == 'U' ==> apply_section(
            monitors,
            section,
        ).unwrap().last().desktops.last().focused,
        section[0] == 'o' || section[0] == 'f' || section[0] == 'u' ==> !apply_section(
            monitors,
            section,
        ).unwrap().last().desktops.last().focused,
{
}

/// A layout section with a code never fails where there is a monitor, and
/// sets the layout of the last monitor: tiling for `T`, monocle for `M`,
/// none for any other code. Nothing else changes.
pub proof fn lemma_layout_section(monitors: Seq<MonitorView>, section: Seq<char>)
    requires
        is_layout_section(section),
        section.len() >= 2,
        monitors.len() > 0,
    ensures
        apply_section(monitors, section) is Ok,
        apply_section(monitors, section).unwrap() == replace_last(
            monitors,
            MonitorView {
                layout: apply_section(monitors, section).unwrap().last().layout,
                ..monitors.last()
            },
        ),
        section[1] == 'T' ==> apply_section(monitors, section).unwrap().last().layout == Some(
            Layout::Tiling,
        ),
        section[1] == 'M' ==> apply_section(monitors, section).unwrap().last().layout == Some(
            Layout::Monocle,
        ),
        section[1] != 'T' && section[1] != 'M' ==> apply_section(
            monitors,
            section,
        ).unwrap().last().layout is None,
{
}

} // verus!
