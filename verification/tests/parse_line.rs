use bspwm_info::{parse_line, Desktop, Layout, Monitor, ParseError, WmRoot};

fn desktop(name: &str, focused: bool, occupied: bool, urgent: bool) -> Desktop {
    Desktop { name: name.to_string(), focused, occupied, urgent }
}

fn monitor(name: &str, focused: bool, layout: Option<Layout>, desktops: Vec<Desktop>) -> Monitor {
    Monitor { name: name.to_string(), desktops, focused, layout }
}

#[test]
fn one_monitor_with_three_desktops_and_tiling_layout() {
    let root = parse_line("WM1:O1:F2:Ff3:LT").unwrap();
    assert_eq!(
        root,
        WmRoot {
            monitors: vec![monitor(
                "1",
                true,
                Some(Layout::Tiling),
                vec![
                    desktop("1", true, true, false),
                    desktop("2", true, false, false),
                    desktop("f3", true, false, false),
                ]
            )]
        }
    );
}

#[test]
fn unfocused_monitor_with_three_desktops_and_tiling_layout() {
    let root = parse_line("Wm1:o1:f2:f3:LT").unwrap();
    assert_eq!(root.monitors.len(), 1);
    let m = &root.monitors[0];
    assert_eq!(m.name, "1");
    assert!(!m.focused);
    assert_eq!(m.layout, Some(Layout::Tiling));
    assert_eq!(
        m.desktops,
        vec![
            desktop("1", false, true, false),
            desktop("2", false, false, false),
            desktop("3", false, false, false),
        ]
    );
}

#[test]
fn urgent_desktop_is_occupied_and_focused() {
    let root = parse_line("WM1:U2:O3").unwrap();
    assert_eq!(root.monitors.len(), 1);
    assert_eq!(root.monitors[0].name, "1");
    assert!(root.monitors[0].focused);
    assert_eq!(root.monitors[0].layout, None);
    assert_eq!(root.monitors[0].desktops[0], desktop("2", true, true, true));
    assert_eq!(
        root.monitors[0].desktops,
        vec![desktop("2", true, true, true), desktop("3", true, true, false)]
    );
}

#[test]
fn sentinel_alone_lists_no_monitor() {
    assert_eq!(parse_line("W"), Ok(WmRoot { monitors: vec![] }));
    assert_eq!(parse_line("x"), Ok(WmRoot { monitors: vec![] }));
    assert_eq!(parse_line(":"), Ok(WmRoot { monitors: vec![] }));
}

#[test]
fn sentinel_is_skipped_whatever_it_is() {
    let with_w = parse_line("WMeDP-1:oI:LM").unwrap();
    let with_colon = parse_line(":MeDP-1:oI:LM").unwrap();
    let with_wide = parse_line("\u{00e9}MeDP-1:oI:LM").unwrap();
    assert_eq!(with_w, with_colon);
    assert_eq!(with_w, with_wide);
    assert_eq!(
        with_w,
        WmRoot {
            monitors: vec![monitor(
                "eDP-1",
                true,
                Some(Layout::Monocle),
                vec![desktop("I", false, true, false)]
            )]
        }
    );
}

#[test]
fn empty_line_is_an_error() {
    assert_eq!(parse_line(""), Err(ParseError::EmptyLine));
}

#[test]
fn desktop_before_any_monitor_is_an_error() {
    assert_eq!(parse_line("WO1:M1"), Err(ParseError::NoMonitor));
    assert_eq!(parse_line("Wf1"), Err(ParseError::NoMonitor));
    assert_eq!(parse_line("Wx:u1:M1"), Err(ParseError::NoMonitor));
}

#[test]
fn layout_before_any_monitor_is_an_error() {
    assert_eq!(parse_line("WLT:M1"), Err(ParseError::NoMonitor));
}

#[test]
fn empty_section_is_an_error() {
    assert_eq!(parse_line("WM1::O1"), Err(ParseError::EmptySection));
    assert_eq!(parse_line("WM1:"), Err(ParseError::EmptySection));
    assert_eq!(parse_line("W:M1"), Err(ParseError::EmptySection));
    assert_eq!(parse_line("W:"), Err(ParseError::EmptySection));
}

#[test]
fn layout_without_code_is_an_error() {
    assert_eq!(parse_line("WM1:L"), Err(ParseError::MissingLayoutCode));
    assert_eq!(parse_line("WL"), Err(ParseError::MissingLayoutCode));
}

#[test]
fn first_failing_section_decides_the_error() {
    assert_eq!(parse_line("WO1::L"), Err(ParseError::NoMonitor));
    assert_eq!(parse_line("WM1::O1:L"), Err(ParseError::EmptySection));
    assert_eq!(parse_line("WM1:L::"), Err(ParseError::MissingLayoutCode));
}

#[test]
fn monitor_count_is_the_number_of_monitor_sections() {
    let root = parse_line("WMa:O1:mb:f2:x:mc:LT:Md").unwrap();
    assert_eq!(root.monitors.len(), 4);
    let names: Vec<&str> = root.monitors.iter().map(|m| m.name.as_str()).collect();
    assert_eq!(names, vec!["a", "b", "c", "d"]);
}

#[test]
fn desktops_keep_the_order_of_their_sections() {
    let root = parse_line("Wmleft:Oa:fb:Uc:LT:Mright:Fd:x9:oe:ug:LM").unwrap();
    assert_eq!(
        root,
        WmRoot {
            monitors: vec![
                monitor(
                    "left",
                    false,
                    Some(Layout::Tiling),
                    vec![
                        desktop("a", true, true, false),
                        desktop("b", false, false, false),
                        desktop("c", true, true, true),
                    ]
                ),
                monitor(
                    "right",
                    true,
                    Some(Layout::Monocle),
                    vec![
                        desktop("d", true, false, false),
                        desktop("e", false, true, false),
                        desktop("g", false, true, true),
                    ]
                ),
            ]
        }
    );
}

#[test]
fn urgent_implies_occupied_in_every_desktop() {
    let root = parse_line("WM1:U1:u2:O3:o4:F5:f6:m2:u7:U8").unwrap();
    let mut seen = 0;
    for m in &root.monitors {
        for d in &m.desktops {
            assert!(!d.urgent || d.occupied);
            seen += 1;
        }
    }
    assert_eq!(seen, 8);
}

#[test]
fn upper_case_marker_means_focused() {
    let root = parse_line("WMa:Ob:Fc:Ud:me:of:fg:uh").unwrap();
    assert!(root.monitors[0].focused);
    assert!(!root.monitors[1].focused);
    assert!(root.monitors[0].desktops.iter().all(|d| d.focused));
    assert_eq!(root.monitors[0].desktops.len(), 3);
    assert!(root.monitors[1].desktops.iter().all(|d| !d.focused));
    assert_eq!(root.monitors[1].desktops.len(), 3);
}

#[test]
fn layout_codes() {
    assert_eq!(parse_line("WM1:LT").unwrap().monitors[0].layout, Some(Layout::Tiling));
    assert_eq!(parse_line("WM1:LM").unwrap().monitors[0].layout, Some(Layout::Monocle));
    assert_eq!(parse_line("WM1:LX").unwrap().monitors[0].layout, None);
    assert_eq!(parse_line("WM1:Lt").unwrap().monitors[0].layout, None);
    assert_eq!(parse_line("WM1:LTiled").unwrap().monitors[0].layout, Some(Layout::Tiling));
}

#[test]
fn later_layout_overwrites_earlier_one() {
    assert_eq!(parse_line("WM1:LT:LM").unwrap().monitors[0].layout, Some(Layout::Monocle));
    assert_eq!(parse_line("WM1:LT:LX").unwrap().monitors[0].layout, None);
}

#[test]
fn layout_belongs_to_the_latest_monitor() {
    let root = parse_line("WMa:mb:LT").unwrap();
    assert_eq!(root.monitors[0].layout, None);
    assert_eq!(root.monitors[1].layout, Some(Layout::Tiling));
}

#[test]
fn lower_case_l_is_no_layout_marker() {
    let root = parse_line("WM1:lT").unwrap();
    assert_eq!(root.monitors[0].layout, None);
    assert_eq!(parse_line("WlT"), Ok(WmRoot { monitors: vec![] }));
}

#[test]
fn unknown_markers_are_ignored() {
    assert_eq!(parse_line("WTT:G:x1"), Ok(WmRoot { monitors: vec![] }));
    let root = parse_line("WM1:TT:O1:G:\u{00e9}t\u{00e9}").unwrap();
    assert_eq!(
        root,
        WmRoot { monitors: vec![monitor("1", true, None, vec![desktop("1", true, true, false)])] }
    );
}

#[test]
fn empty_payload_is_an_empty_name() {
    let root = parse_line("WM:o").unwrap();
    assert_eq!(
        root,
        WmRoot { monitors: vec![monitor("", true, None, vec![desktop("", false, true, false)])] }
    );
}

#[test]
fn names_keep_every_character_of_the_payload() {
    let root = parse_line("WMHDMI-0 \u{2603}:o d\u{00e9}sk \n").unwrap();
    assert_eq!(root.monitors[0].name, "HDMI-0 \u{2603}");
    assert_eq!(root.monitors[0].desktops[0].name, " d\u{00e9}sk \n");
}

#[test]
fn same_line_gives_the_same_snapshot() {
    let line = "WMDVI-I-1:oI:OII:fIII:LT:mHDMI-0:uIV:fV:LM";
    assert_eq!(parse_line(line), parse_line(line));
    let copy = line.to_string();
    assert_eq!(parse_line(line), parse_line(&copy));
}

#[test]
fn realistic_report() {
    let root = parse_line("WMDVI-I-1:oI:OII:fIII:LT:mHDMI-0:uIV:fV:LM").unwrap();
    assert_eq!(
        root,
        WmRoot {
            monitors: vec![
                monitor(
                    "DVI-I-1",
                    true,
                    Some(Layout::Tiling),
                    vec![
                        desktop("I", false, true, false),
                        desktop("II", true, true, false),
                        desktop("III", false, false, false),
                    ]
                ),
                monitor(
                    "HDMI-0",
                    false,
                    Some(Layout::Monocle),
                    vec![desktop("IV", false, true, true), desktop("V", false, false, false)]
                ),
            ]
        }
    );
}
