use eomi_weact::display::{render_message, DisplayState, DrawCmd, TextStyle};

fn text(t: &'static str, x: i32, y: i32, style: TextStyle) -> DrawCmd<'static> {
    DrawCmd::Text { text: t, x, y, style }
}

#[test]
fn first_frame_with_first_entry() {
    let mut s = DisplayState::new();
    let cmds = s.render_frame(1, false);
    let expected = vec![
        DrawCmd::Clear { x: 1, y: 10, width: 30, height: 130 },
        DrawCmd::Clear { x: 20, y: 180, width: 200, height: 50 },
        text("->", 1, 45, TextStyle::Highlight),
        text("1 MENU", 40, 45, TextStyle::Highlight),
        DrawCmd::Line { x0: 1, y0: 150, x1: 310, y1: 150 },
        text("SOMEEEEE", 20, 200, TextStyle::Plain),
        text("2 MENU", 40, 75, TextStyle::Plain),
        text("3 MENU", 40, 105, TextStyle::Plain),
        DrawCmd::Line { x0: 1, y0: 300, x1: 310, y1: 300 },
        text("RF-DEVICE:", 20, 340, TextStyle::Plain),
        text("DISABLE", 200, 340, TextStyle::Plain),
        DrawCmd::Line { x0: 1, y0: 360, x1: 310, y1: 360 },
        text("UART READ:", 20, 390, TextStyle::Plain),
    ];
    assert_eq!(cmds, expected);
    assert_eq!(s.flag, 1);
    assert!(!s.rf_flag);
}

#[test]
fn steady_frame_clears_nothing() {
    let mut s = DisplayState::new();
    s.render_frame(2, true);
    let cmds = s.render_frame(2, true);
    assert!(cmds.iter().all(|c| !matches!(c, DrawCmd::Clear { .. })));
    assert!(cmds.iter().all(|c| !matches!(c, DrawCmd::Text { x: 1, .. })));
    assert!(cmds.contains(&text("ENABLE", 200, 340, TextStyle::Plain)));
}

#[test]
fn selection_change_moves_arrow_and_description() {
    let mut s = DisplayState::new();
    s.render_frame(1, false);
    let cmds = s.render_frame(3, false);
    assert_eq!(cmds[2], text("->", 1, 105, TextStyle::Highlight));
    assert!(cmds.contains(&text("THREEEE", 20, 200, TextStyle::Plain)));
    assert!(cmds.contains(&text("3 MENU", 40, 105, TextStyle::Highlight)));
    assert!(cmds.contains(&text("1 MENU", 40, 45, TextStyle::Plain)));
    let highlighted = cmds
        .iter()
        .filter(|c| matches!(c, DrawCmd::Text { x: 40, style: TextStyle::Highlight, .. }))
        .count();
    assert_eq!(highlighted, 1);
}

#[test]
fn second_entry_description() {
    let mut s = DisplayState::new();
    let cmds = s.render_frame(2, false);
    assert!(cmds.contains(&text("TWOOOOOOOO", 20, 200, TextStyle::Plain)));
}

#[test]
fn radio_line_lags_one_frame() {
    let mut s = DisplayState::new();
    s.render_frame(1, false);
    let cmds = s.render_frame(1, true);
    assert!(cmds.contains(&text("DISABLE", 200, 340, TextStyle::Plain)));
    assert!(cmds.contains(&DrawCmd::Clear { x: 200, y: 315, width: 300, height: 25 }));
    assert!(s.rf_flag);
    let cmds = s.render_frame(1, true);
    assert!(cmds.contains(&text("ENABLE", 200, 340, TextStyle::Plain)));
}

#[test]
fn selection_outside_menu_highlights_nothing() {
    let mut s = DisplayState::new();
    let cmds = s.render_frame(5, false);
    assert_eq!(cmds[2], text("->", 1, 165, TextStyle::Highlight));
    assert!(cmds.iter().all(|c| !matches!(c, DrawCmd::Text { x: 40, style: TextStyle::Highlight, .. })));
}

#[test]
fn message_is_shown() {
    let data = b"hello".to_vec();
    let cmds = render_message(&data);
    assert_eq!(
        cmds,
        vec![
            DrawCmd::Clear { x: 1, y: 395, width: 500, height: 40 },
            DrawCmd::Text { text: "hello", x: 20, y: 420, style: TextStyle::Plain },
        ]
    );
}

#[test]
fn multibyte_message_is_shown() {
    let data = "h\u{e9}".as_bytes().to_vec();
    let cmds = render_message(&data);
    assert_eq!(cmds[1], DrawCmd::Text { text: "h\u{e9}", x: 20, y: 420, style: TextStyle::Plain });
}

#[test]
fn typed_line_reaches_the_screen() {
    let mut r = eomi_weact::uart_line::LineReader::new();
    let mut sent = None;
    for &b in b"ping 42\r" {
        if let Some(m) = r.receive(b) {
            sent = Some(m);
        }
    }
    let m = sent.unwrap();
    let cmds = render_message(&m);
    assert_eq!(cmds[1], DrawCmd::Text { text: "ping 42", x: 20, y: 420, style: TextStyle::Plain });
}

#[test]
fn status_shows_enable_after_first_set_reading() {
    let mut s = DisplayState::new();
    let status = |cmds: &Vec<DrawCmd<'static>>| {
        cmds.iter()
            .find_map(|c| match c {
                DrawCmd::Text { text, x: 200, .. } => Some(*text),
                _ => None,
            })
            .unwrap()
    };
    let readings = [false, false, true, true, true];
    let shown: Vec<&str> = readings.iter().map(|&rf| status(&s.render_frame(1, rf))).collect();
    assert_eq!(shown, vec!["DISABLE", "DISABLE", "DISABLE", "ENABLE", "ENABLE"]);
}

#[test]
fn unchanged_selection_with_radio_change_keeps_menu_part() {
    let mut s = DisplayState::new();
    let first = s.render_frame(2, false);
    let second = s.render_frame(2, true);
    assert!(!second.contains(&DrawCmd::Clear { x: 1, y: 10, width: 30, height: 130 }));
    assert!(!second.contains(&DrawCmd::Clear { x: 20, y: 180, width: 200, height: 50 }));
    assert!(second.iter().all(|c| !matches!(c, DrawCmd::Text { x: 1, .. })));
    assert_eq!(&first[3..8], &second[0..5]);
}
