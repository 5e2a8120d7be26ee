//! The executable parser.

use crate::grammar;
use crate::grammar::SEPARATOR;
use crate::laws::lemma_parse_consistent;
use crate::model::{
    desktop_views, monitor_views, Desktop, Layout, Monitor, ParseError, WmRoot,
    snapshot_consistent,
};
use vstd::prelude::*;
use vstd::string::StrSliceExecFns;

verus! {

impl Layout {
    /// The layout that a layout code stands for, if it is a known one.
    pub fn from_code(code: char) -> (layout: Option<Layout>)
        ensures
            layout == grammar::layout_of(code),
    {
        if code == 'T' {
            Some(Layout::Tiling)
        } else if code == 'M' {
            Some(Layout::Monocle)
        } else {
            None
        }
    }
}

/// The payload of a section as an owned name.
fn payload_name(section: &str, len: usize) -> (name: String)
    requires
        len == section@.len(),
        len > 0,
    ensures
        name@ == grammar::payload(section@),
{
    section.substring_char(1, len).to_owned()
}

/// Reads one section into `monitors`.
///
/// On success `monitors` is what [`grammar::apply_section`] makes of it; on
/// failure it is left as it was.
pub fn apply_section(monitors: &mut Vec<Monitor>, section: &str) -> (res: Result<(), ParseError>)
    ensures
        match grammar::apply_section(monitor_views(old(monitors)@), section@) {
            Ok(next) => res is Ok && monitor_views(final(monitors)@) == next,
            Err(e) => res == Err::<(), ParseError>(e) && final(monitors)@ == old(monitors)@,
        },
{
    let len = section.unicode_len();
    if len == 0 {
        return Err(ParseError::EmptySection);
    }
    let marker = section.get_char(0);
    if marker == 'M' || marker == 'm' {
        let monitor = Monitor {
            name: payload_name(section, len),
            desktops: Vec::new(),
            focused: marker == 'M',
            layout: None,
        };
        proof {
            assert(monitor@.desktops =~= Seq::empty());
        }
        monitors.push(monitor);
        proof {
            assert(monitor_views(monitors@) =~= monitor_views(old(monitors)@).push(
                grammar::monitor_of(section@),
            ));
        }
        Ok(())
    } else if marker == 'O' || marker == 'o' || marker == 'F' || marker == 'f' || marker == 'U'
        || marker == 'u' {
        match monitors.last_mut() {
            Some(current) => {
                let desktop = Desktop {
                    name: payload_name(section, len),
                    focused: marker == 'O' || marker == 'F' || marker == 'U',
                    occupied: marker != 'F' && marker != 'f',
                    urgent: marker == 'U' || marker == 'u',
                };
                let ghost added = desktop@;
                current.desktops.push(desktop);
                proof {
                    let before = old(monitors)@.last();
                    assert(desktop_views(current.desktops@) =~= desktop_views(
                        before.desktops@,
                    ).push(added));
                    assert(monitor_views(monitors@) =~= grammar::replace_last(
                        monitor_views(old(monitors)@),
                        grammar::with_desktop(before@, added),
                    ));
                }
                Ok(())
            },
            None => Err(ParseError::NoMonitor),
        }
    } else if marker == 'L' {
        if len < 2 {
            return Err(ParseError::MissingLayoutCode);
        }
        let layout = Layout::from_code(section.get_char(1));
        match monitors.last_mut() {
            Some(current) => {
                current.layout = layout;
                proof {
                    assert(monitor_views(monitors@) =~= grammar::replace_last(
                        monitor_views(old(monitors)@),
                        grammar::with_layout(old(monitors)@.last()@, layout),
                    ));
                }
                Ok(())
            },
            None => Err(ParseError::NoMonitor),
        }
    } else {
        Ok(())
    }
}

/// The characters of `text`, one by one.
fn text_chars(text: &str) -> (chars: Vec<char>)
    ensures
        chars@ == text@,
{
    let mut chars: Vec<char> = Vec::new();
    for c in it: text.chars()
        invariant
            it.seq() == text@,
            chars@ == it.seq().take(it.index()),
    {
        chars.push(c);
    }
    chars
}

/// What each of `parts` holds, in the same order.
pub open spec fn str_views(parts: Seq<&str>) -> Seq<Seq<char>> {
    Seq::new(parts.len(), |i: int| parts[i]@)
}

/// Splits `text` at every separator.
///
/// The pieces borrow from `text`. There is one more of them than there are
/// separators, and a piece may be empty.
pub fn split_sections<'a>(text: &'a str) -> (sections: Vec<&'a str>)
    ensures
        str_views(sections@) == grammar::split_sections(text@),
{
    let chars = text_chars(text);
    let n = chars.len();
    let mut sections: Vec<&'a str> = Vec::new();
    let mut start: usize = 0;
    let mut i: usize = 0;
    proof {
        assert(text@.skip(0) =~= text@);
        assert(str_views(sections@) + grammar::split_sections(text@)
            =~= grammar::split_sections(text@));
    }
    while i < n
        invariant
            chars@ == text@,
            n == chars@.len(),
            start <= i <= n,
            forall|j: int| start <= j < i ==> chars@[j] != SEPARATOR,
            str_views(sections@) + grammar::split_sections(text@.skip(start as int))
                == grammar::split_sections(text@),
        decreases n - i,
    {
        if chars[i] == SEPARATOR {
            let section = text.substring_char(start, i);
            proof {
                let rest = text@.skip(start as int);
                grammar::lemma_section_len(rest, i - start);
                assert(rest.take(i - start) =~= section@);
                assert(rest.skip(i - start + 1) =~= text@.skip(i + 1));
                assert(str_views(sections@.push(section)) =~= str_views(sections@).push(
                    section@,
                ));
                assert(str_views(sections@).push(section@) + grammar::split_sections(
                    text@.skip(i + 1),
                ) =~= str_views(sections@) + grammar::split_sections(rest));
            }
            sections.push(section);
            start = i + 1;
        }
        i += 1;
    }
    let section = text.substring_char(start, n);
    proof {
        let rest = text@.skip(start as int);
        grammar::lemma_section_len(rest, n - start);
        assert(rest =~= section@);
        assert(str_views(sections@.push(section)) =~= str_views(sections@) + seq![section@]);
    }
    sections.push(section);
    sections
}

/// Whether `res` is what the status line `line` means.
pub open spec fn is_parse_of(res: Result<WmRoot, ParseError>, line: Seq<char>) -> bool {
    match grammar::parse_spec(line) {
        Ok(monitors) => res matches Ok(root) && root@ == monitors,
        Err(reason) => res matches Err(e) && e == reason,
    }
}

/// Reads one status line.
///
/// The first character is the sentinel and is skipped whatever it is. What
/// follows is split at the separators and read section by section; the first
/// section that cannot be read decides the error. A line of the sentinel
/// alone lists no monitor.
pub fn parse_line(line: &str) -> (res: Result<WmRoot, ParseError>)
    ensures
        is_parse_of(res, line@),
        res matches Ok(root) ==> snapshot_consistent(root@),
{
    proof {
        if grammar::parse_spec(line@) is Ok {
            lemma_parse_consistent(line@);
        }
    }
    let len = line.unicode_len();
    if len == 0 {
        return Err(ParseError::EmptyLine);
    }
    let mut monitors: Vec<Monitor> = Vec::new();
    if len == 1 {
        proof {
            assert(monitor_views(monitors@) =~= Seq::empty());
        }
        return Ok(WmRoot { monitors });
    }
    let sections = split_sections(line.substring_char(1, len));
    let mut i: usize = 0;
    proof {
        assert(monitor_views(monitors@) =~= Seq::empty());
        assert(str_views(sections@).skip(0) =~= str_views(sections@));
    }
    while i < sections.len()
        invariant
            i <= sections.len(),
            grammar::apply_sections(monitor_views(monitors@), str_views(sections@).skip(i as int))
                == grammar::parse_spec(line@),
        decreases sections.len() - i,
    {
        proof {
            let rest = str_views(sections@).skip(i as int);
            assert(rest.skip(1) =~= str_views(sections@).skip(i + 1));
        }
        match apply_section(&mut monitors, sections[i]) {
            Ok(()) => {},
            Err(e) => {
                return Err(e);
            },
        }
        i += 1;
    }
    Ok(WmRoot { monitors })
}

} // verus!
